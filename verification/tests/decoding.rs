use ansi_shim::Color;
use ansi_shim::Decoder;
use ansi_shim::Event;
use ansi_shim::StyleSet;

fn events(input: &[u8]) -> Vec<Event> {
    let mut decoder = Decoder::new();
    let mut out: Vec<Event> = Vec::new();
    for &b in input {
        if let Some(e) = decoder.advance(b) {
            out.push(e);
        }
    }
    out
}

#[test]
fn plain_bytes_print_immediately() {
    let evs = events(b"hi");
    assert_eq!(evs, vec![Event::Print('h'), Event::Print('i')]);
}

#[test]
fn control_bytes_execute() {
    let evs = events(b"\n");
    assert_eq!(evs, vec![Event::Execute(0x0A)]);
}

#[test]
fn csi_parameters_are_collected() {
    let evs = events(b"\x1b[1;31m");
    assert_eq!(evs.len(), 1);
    match &evs[0] {
        Event::Csi(cs) => {
            assert_eq!(cs.params, vec![1, 31]);
            assert_eq!(cs.inters, vec![]);
            assert_eq!(cs.fin, b'm');
        },
        _ => panic!("expected a control sequence"),
    }
}

#[test]
fn empty_parameter_list_is_implicit_zero() {
    let evs = events(b"\x1b[m");
    match &evs[0] {
        Event::Csi(cs) => assert_eq!(cs.params, vec![0]),
        _ => panic!("expected a control sequence"),
    }
}

#[test]
fn empty_fields_default_to_zero() {
    let evs = events(b"\x1b[;5m");
    match &evs[0] {
        Event::Csi(cs) => assert_eq!(cs.params, vec![0, 5]),
        _ => panic!("expected a control sequence"),
    }
}

#[test]
fn degenerate_parameter_saturates() {
    let evs = events(b"\x1b[999999999999m");
    match &evs[0] {
        Event::Csi(cs) => assert_eq!(cs.params, vec![1000]),
        _ => panic!("expected a control sequence"),
    }
}

#[test]
fn intermediates_are_collected() {
    let evs = events(b"\x1b[1 q");
    match &evs[0] {
        Event::Csi(cs) => {
            assert_eq!(cs.params, vec![1]);
            assert_eq!(cs.inters, vec![0x20]);
            assert_eq!(cs.fin, b'q');
        },
        _ => panic!("expected a control sequence"),
    }
}

#[test]
fn osc_produces_no_events() {
    let evs = events(b"\x1b]0;title\x07a");
    assert_eq!(evs, vec![Event::Print('a')]);
}

#[test]
fn string_terminator_closes_a_string_sequence() {
    let evs = events(b"\x1bPdata\x1b\\a");
    assert_eq!(evs, vec![Event::Print('a')]);
}

#[test]
fn unknown_escape_is_dropped() {
    let evs = events(b"\x1bAZ");
    assert_eq!(evs, vec![Event::Print('Z')]);
}

#[test]
fn multibyte_scalar_is_decoded() {
    let evs = events("\u{e9}".as_bytes());
    assert_eq!(evs, vec![Event::Print('\u{e9}')]);
}

#[test]
fn four_byte_scalar_is_decoded() {
    let evs = events("\u{1F600}".as_bytes());
    assert_eq!(evs, vec![Event::Print('\u{1F600}')]);
}

#[test]
fn stray_continuation_byte_is_replaced() {
    let evs = events(b"\x80");
    assert_eq!(evs, vec![Event::Print('\u{FFFD}')]);
}

#[test]
fn interrupted_scalar_reclassifies_next_byte() {
    let evs = events(b"\xC3(");
    assert_eq!(evs, vec![Event::Print('(')]);
}

#[test]
fn escape_inside_pending_scalar_still_starts_a_sequence() {
    let evs = events(b"\xC3\x1b[31mx");
    assert_eq!(evs.len(), 2);
    assert!(matches!(evs[0], Event::Csi(_)));
    assert_eq!(evs[1], Event::Print('x'));
}

#[test]
fn normal_maps_bright_to_base() {
    assert_eq!(Color::BrightRed.normal(), Color::Red);
    assert_eq!(Color::Red.normal(), Color::Red);
    assert_eq!(Color::BrightWhite.normal(), Color::White);
}

#[test]
fn bright_maps_base_to_bright() {
    assert_eq!(Color::Red.bright(), Color::BrightRed);
    assert_eq!(Color::BrightRed.bright(), Color::BrightRed);
    assert_eq!(Color::Black.bright(), Color::BrightBlack);
}

#[test]
fn normal_and_bright_are_inverse_on_their_halves() {
    let all = [
        Color::Black,
        Color::Red,
        Color::Green,
        Color::Yellow,
        Color::Blue,
        Color::Magenta,
        Color::Cyan,
        Color::White,
    ];
    for c in all {
        assert_eq!(c.bright().normal(), c);
    }
}

#[test]
fn style_set_insertion_is_idempotent() {
    let empty = StyleSet::empty();
    let once = empty.insert(ansi_shim::Style::Underline);
    let twice = once.insert(ansi_shim::Style::Underline);
    assert_eq!(once, twice);
    assert!(once.underline);
}
