use ansi_shim::HtmlWriter;
use ansi_shim::Shim;
use ansi_shim::Style;
use ansi_shim::StyleSet;
use ansi_shim::html::ansi_style_to_html;

fn render(input: &[u8]) -> String {
    let mut shim = Shim::new(HtmlWriter::new());
    let n: usize = shim.write(input);
    assert_eq!(n, input.len());
    shim.terminal.finalize()
}

#[test]
fn document_has_header_and_footer() {
    let out = render(b"");
    assert!(out.starts_with("<!DOCTYPE html>"));
    assert!(out.ends_with("\n</pre>\n\n</body>\n</html>"));
}

#[test]
fn plain_text_kept_verbatim() {
    let out = render(b"hello");
    assert!(out.contains(">hello</span>"));
}

#[test]
fn reserved_characters_escaped() {
    let out = render(b"a&b<c>");
    assert!(out.contains("a&amp;b&lt;c&gt;"));
}

#[test]
fn quote_characters_escaped() {
    let out = render(b"\"'");
    assert!(out.contains("&quot;&#x27;"));
}

#[test]
fn text_cannot_inject_markup() {
    let out = render(b"<script>alert(1)</script>");
    assert!(!out.contains("<script>"));
}

#[test]
fn red_region_round_trip() {
    let out = render(b"\x1b[31mhi\x1b[0m");
    assert!(out.contains(
        "<span class='red bg-black' style=''>hi</span><span class='white bg-black' style=''></span>"
    ));
}

#[test]
fn bold_marks_region_for_bright_rendering() {
    let out = render(b"\x1b[1;31mX");
    assert!(out.contains("<span class='red bg-black bold' style=''>X"));
}

#[test]
fn faint_clears_bold_and_keeps_hue() {
    let out = render(b"\x1b[1;31mX\x1b[2mY");
    assert!(out.contains("<span class='red bg-black bold' style=''>X</span>"));
    assert!(out.contains("<span class='red bg-black' style=''>Y"));
}

#[test]
fn oversized_parameter_is_ignored() {
    let out = render(b"\x1b[999999999999mA");
    assert!(out.contains("<span class='white bg-black' style=''>A</span>"));
    assert_eq!(out.matches("<span").count(), 1);
}

#[test]
fn consecutive_style_changes_collapse() {
    let out = render(b"\x1b[31m\x1b[44mZ");
    assert!(out.contains("<span class='red bg-blue' style=''>Z"));
    assert_eq!(out.matches("<span").count(), 2);
}

#[test]
fn unknown_parameters_do_not_abort_the_list() {
    let out = render(b"\x1b[31;99;44mX");
    assert!(out.contains("<span class='red bg-blue' style=''>X"));
}

#[test]
fn osc_sequence_fully_consumed() {
    let out = render(b"aa\x1b]0;secret\x07bb");
    assert!(out.contains("aabb"));
    assert!(!out.contains("secret"));
}

#[test]
fn dcs_sequence_fully_consumed() {
    let out = render(b"\x1bPdata\x1b\\ok");
    assert!(out.contains(">ok"));
    assert!(!out.contains("data"));
}

#[test]
fn utf8_text_passes_through() {
    let out = render("h\u{e9}llo \u{2603}".as_bytes());
    assert!(out.contains("h\u{e9}llo \u{2603}"));
}

#[test]
fn invalid_byte_becomes_replacement_character() {
    let out = render(b"a\xffb");
    assert!(out.contains("a\u{fffd}b"));
}

#[test]
fn control_bytes_pass_raw() {
    let out = render(b"a\nb\tc");
    assert!(out.contains("a\nb\tc"));
}

#[test]
fn mixed_controls_and_multibyte_text_kept_verbatim() {
    let text = "h\u{e9}llo\nw\u{f6}rld\t\u{2603}";
    let out = render(text.as_bytes());
    assert!(out.contains(text));
}

#[test]
fn parameter_buffer_cap_resynchronizes() {
    let mut input: Vec<u8> = Vec::new();
    input.extend_from_slice(b"\x1b[");
    input.extend_from_slice(&[b'1'; 70]);
    input.extend_from_slice(b"mA");
    let out = render(&input);
    // The first 64 collected bytes are discarded with the sequence; the rest
    // of the input is classified as plain text again.
    assert!(out.contains("11111mA"));
    assert!(!out.contains("111111m"));
}

#[test]
fn underline_and_crossed_share_one_decoration() {
    let styles = StyleSet {
        italic: false,
        underline: true,
        blink_slow: false,
        blink_fast: false,
        reverse: false,
        hidden: false,
        crossed: true,
    };
    let css = ansi_style_to_html(&styles);
    assert_eq!(css, "text-decoration:  underline line-through;");
}

#[test]
fn italic_and_hidden_render_in_order() {
    let styles = StyleSet {
        italic: true,
        underline: false,
        blink_slow: false,
        blink_fast: false,
        reverse: false,
        hidden: true,
        crossed: false,
    };
    let css = ansi_style_to_html(&styles);
    assert_eq!(css, "font-style: italic;visibility: hidden;");
}

#[test]
fn empty_style_set_has_no_css() {
    let styles = StyleSet {
        italic: false,
        underline: false,
        blink_slow: false,
        blink_fast: false,
        reverse: false,
        hidden: false,
        crossed: false,
    };
    assert_eq!(ansi_style_to_html(&styles), "");
}

#[test]
fn italic_from_sgr_reaches_the_region_style() {
    let mut writer = HtmlWriter::new();
    writer.add_style(Style::Italic);
    writer.print('x');
    let out = writer.finalize();
    assert!(out.contains("style='font-style: italic;'>x"));
}

#[test]
fn reset_twice_renders_like_reset_once() {
    let once = render(b"\x1b[31m\x1b[0mx");
    let twice = render(b"\x1b[31m\x1b[0m\x1b[0mx");
    let tail_once = &once[once.find("x</span>").unwrap()..];
    let tail_twice = &twice[twice.find("x</span>").unwrap()..];
    assert_eq!(tail_once, tail_twice);
    assert!(once.contains("<span class='white bg-black' style=''>x"));
    assert!(twice.contains("<span class='white bg-black' style=''>x"));
}
