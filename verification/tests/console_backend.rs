use ansi_shim::ConsoleTerm;
use ansi_shim::Shim;
use ansi_shim::console::AttrUpdate;
use ansi_shim::console::ConsoleCmd;
use ansi_shim::console::apply_update;

fn commands(input: &[u8]) -> Vec<ConsoleCmd> {
    let mut shim = Shim::new(ConsoleTerm::new());
    let n: usize = shim.write(input);
    assert_eq!(n, input.len());
    shim.terminal.into_commands()
}

#[test]
fn console_plain_text_identity() {
    let cmds = commands(b"hi");
    assert_eq!(cmds, vec![ConsoleCmd::Text('h'), ConsoleCmd::Text('i')]);
}

#[test]
fn console_control_bytes_pass_through() {
    let cmds = commands(b"a\nb");
    assert_eq!(
        cmds,
        vec![ConsoleCmd::Text('a'), ConsoleCmd::Text('\n'), ConsoleCmd::Text('b')]
    );
}

#[test]
fn console_bold_then_red_sets_intensity() {
    let cmds = commands(b"\x1b[1;31mX");
    assert_eq!(
        cmds,
        vec![
            ConsoleCmd::SetAttrs(AttrUpdate { clear: 0x00, set: 0x08 }),
            ConsoleCmd::SetAttrs(AttrUpdate { clear: 0x0F, set: 0x0C }),
            ConsoleCmd::Text('X'),
        ]
    );
}

#[test]
fn console_bright_foreground_matches_bold_base() {
    // The word written for bright red equals the word for bold base red.
    let bright = commands(b"\x1b[91m");
    assert_eq!(
        bright,
        vec![ConsoleCmd::SetAttrs(AttrUpdate { clear: 0x0F, set: 0x0C })]
    );
}

#[test]
fn console_reset_writes_default_word() {
    let cmds = commands(b"\x1b[0m");
    assert_eq!(
        cmds,
        vec![ConsoleCmd::SetAttrs(AttrUpdate { clear: 0xFFFF, set: 0x07 })]
    );
}

#[test]
fn console_background_rewrites_its_nibble() {
    let cmds = commands(b"\x1b[44m");
    assert_eq!(
        cmds,
        vec![ConsoleCmd::SetAttrs(AttrUpdate { clear: 0xF0, set: 0x10 })]
    );
}

#[test]
fn console_faint_clears_intensity() {
    let cmds = commands(b"\x1b[2m");
    assert_eq!(
        cmds,
        vec![ConsoleCmd::SetAttrs(AttrUpdate { clear: 0x08, set: 0x00 })]
    );
}

#[test]
fn console_other_styles_have_no_visible_effect() {
    let cmds = commands(b"\x1b[3m\x1b[4m");
    assert_eq!(cmds, vec![]);
}

#[test]
fn console_unknown_parameters_skipped() {
    let cmds = commands(b"\x1b[99m");
    assert_eq!(cmds, vec![]);
}

#[test]
fn apply_update_masks_then_sets() {
    let r: u16 = apply_update(0xFF, AttrUpdate { clear: 0x0F, set: 0x0C });
    assert_eq!(r, 0xFC);
    let d: u16 = apply_update(0x1234, AttrUpdate { clear: 0xFFFF, set: 0x07 });
    assert_eq!(d, 0x07);
}

#[test]
fn apply_update_leaves_unrelated_bits() {
    // A foreground change keeps the live background nibble.
    let r: u16 = apply_update(0x70, AttrUpdate { clear: 0x0F, set: 0x0C });
    assert_eq!(r, 0x7C);
}
