use emergent::text_as_lines;

fn tal(text: &str) -> Vec<&str> {
    text_as_lines(text)
}

#[test]
fn single() {
    assert_eq!(tal("single"), vec!["single"])
}

#[test]
fn empty() {
    assert_eq!(tal(""), vec![""])
}

#[test]
fn two() {
    assert_eq!(tal("one\ntwo"), vec!["one", "two"])
}

#[test]
fn two_nl() {
    assert_eq!(tal("one\ntwo\n"), vec!["one", "two", ""])
}

#[test]
fn nl_one_nl() {
    assert_eq!(tal("\none\n"), vec!["", "one", ""])
}

#[test]
fn lines_rejoin_to_the_text() {
    for text in ["", "a", "\n", "a\r\nb\n\nc", "\u{00e9}t\u{00e9}\nhiver", "x\n\n"] {
        assert_eq!(tal(text).join("\n"), text);
    }
}

#[test]
fn carriage_return_stays_in_the_line() {
    assert_eq!(tal("one\r\ntwo"), vec!["one\r", "two"]);
}

#[test]
fn multibyte_characters_are_kept() {
    assert_eq!(tal("gr\u{00fc}n\nbl\u{00e4}u"), vec!["gr\u{00fc}n", "bl\u{00e4}u"]);
}
