//! Interpreter for ANSI/VT100 SGR escape sequences embedded in a byte stream,
//! re-rendered through one of several backends: a styled-markup document or an
//! OS console's attribute-word model.
//!
//! Raw bytes run through the [`decoder::Decoder`] state machine, which emits
//! typed parse events; CSI `m` events are interpreted as SGR parameter lists
//! and dispatched as [`state::TermOp`] operations against a
//! [`terminal::Terminal`] backend. The [`shim::Shim`] ties the pipeline
//! together.

pub mod color;
pub mod console;
pub mod decoder;
pub mod html;
pub mod sgr;
pub mod shim;
pub mod state;
pub mod terminal;

pub use color::Color;
pub use color::Style;
pub use color::StyleSet;
pub use console::ConsoleTerm;
pub use decoder::Decoder;
pub use decoder::Event;
pub use html::HtmlWriter;
pub use shim::Shim;
pub use state::RenderState;
pub use state::TermOp;
pub use terminal::Terminal;
