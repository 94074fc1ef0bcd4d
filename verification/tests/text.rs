use jirasync::text::escape;

#[test]
fn escape_of_empty_text_is_empty() {
    assert_eq!(escape(""), "");
}

#[test]
fn escape_puts_a_backslash_before_each_markup_character() {
    assert_eq!(escape("a-b*c_d?e[f]g{h}"), "a\\-b\\*c\\_d\\?e\\[f\\]g\\{h\\}");
}

#[test]
fn escape_leaves_plain_text_unchanged() {
    assert_eq!(escape("plain text, with (round) brackets"), "plain text, with (round) brackets");
}

#[test]
fn escape_works_on_characters_not_bytes() {
    assert_eq!(escape("käse-süß ✓_"), "käse\\-süß ✓\\_");
}
