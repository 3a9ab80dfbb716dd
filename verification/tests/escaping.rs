use docx2latex::blink;
use docx2latex::escape;

#[test]
fn blink_true_is_some() {
    let actual = blink(true);
    assert!(actual.is_some());
}

#[test]
fn blink_false_is_none() {
    let actual = blink(false);
    assert!(actual.is_none());
}

#[test]
fn unconditional_escape_works() {
    let input = "∞π&%${#}~_±∓ abrakadabra";
    let actual = escape(input, &false);
    let expected = "\\infty \\pi \\& \\% \\$ \\{ \\# \\} \\~{} \\_ \\pm \\mp  abrakadabra";
    assert_eq!(actual, expected);
}

#[test]
fn escape_recognizes_math_mode() {
    let input = "<>";
    let on = "<>";
    let off = "\\textless \\textgreater ";
    assert_eq!(escape(input, &true), on);
    assert_eq!(escape(input, &false), off);
}

#[test]
fn escape_is_identity_on_plain_text() {
    let input = "plain words, digits 123 and a backslash \\";
    assert_eq!(escape(input, &false), input);
    assert_eq!(escape(&escape(input, &false), &false), input);
}

#[test]
fn escape_is_one_way_on_special_characters() {
    for input in ["&", "%", "$", "{", "}", "#", "~", "_"] {
        let once = escape(input, &false);
        let twice = escape(&once, &false);
        assert_ne!(once, twice);
    }
}
