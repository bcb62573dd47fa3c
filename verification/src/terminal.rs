//! The abstract rendering contract every backend implements.

use vstd::prelude::*;

use crate::state::RenderState;
use crate::state::TermOp;
use crate::state::apply_ops;

verus! {

/// The contract between the stream pipeline and a rendering backend.
///
/// A backend records the sequence of operations it has been asked to perform:
/// `ops()` is that history, and `inv()` says that the backend's concrete
/// fields and output agree with it. Dispatch appends exactly one entry to the
/// history, so the pipeline's effect on any backend is captured by the
/// operations it dispatches; what each operation means for the backend's
/// output is pinned down by the backend's own invariant. Each backend also
/// offers the operations as named methods — print, set-fg, set-bg, reset,
/// add-style — which `apply` dispatches over.
pub trait Terminal: Sized {
    /// The operations this backend has received, in order.
    spec fn ops(&self) -> Seq<TermOp>;

    /// Internal consistency: the concrete state agrees with the recorded
    /// history.
    spec fn inv(&self) -> bool;

    /// Performs one operation, with the print/raw/style semantics of
    /// [`crate::state::apply_op`] and the backend's own rendering.
    fn apply(&mut self, op: TermOp)
        requires
            old(self).inv(),
        ensures
            final(self).inv(),
            final(self).ops() == old(self).ops().push(op),
    ;
}

/// The render state a backend holds after the history it has recorded,
/// starting from the default state it was constructed with.
pub open spec fn term_state<T: Terminal>(t: &T) -> RenderState {
    apply_ops(RenderState::spec_default(), t.ops())
}

} // verus!
