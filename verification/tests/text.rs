use testgen::text::{chars_of, join, substitute, to_ascii_lowercase};

fn owned(list: &[&str]) -> Vec<String> {
    list.iter().map(|part| part.to_string()).collect()
}

#[test]
fn chars_of_lists_the_characters() {
    assert_eq!(chars_of(""), Vec::<char>::new());
    assert_eq!(chars_of("a\u{e9}\u{1f600}z"), vec!['a', '\u{e9}', '\u{1f600}', 'z']);
}

#[test]
fn join_puts_the_separator_between_parts() {
    assert_eq!(join(&owned(&[]), ", "), "");
    assert_eq!(join(&owned(&["a"]), ", "), "a");
    assert_eq!(join(&owned(&["a", "b", "c"]), ", "), "a, b, c");
    assert_eq!(join(&owned(&["", ""]), "-"), "-");
    assert_eq!(join(&owned(&["a", "b"]), ""), "ab");
}

#[test]
fn join_agrees_with_the_standard_library() {
    let parts = owned(&["one", "", "tw\u{f6}", "three"]);
    for sep in ["", "\n", "\n\n", ", "] {
        assert_eq!(join(&parts, sep), parts.join(sep));
    }
}

#[test]
fn substitute_replaces_every_occurrence() {
    assert_eq!(substitute("fn NAME() { NAME }", "NAME", "f"), "fn f() { f }");
    assert_eq!(substitute("NAME", "NAME", ""), "");
    assert_eq!(substitute("", "NAME", "x"), "");
    assert_eq!(substitute("abc", "NAME", "x"), "abc");
    assert_eq!(substitute("NAM", "NAME", "x"), "NAM");
    assert_eq!(substitute("xNAMEyNAME", "NAME", "<>"), "x<>y<>");
}

#[test]
fn substitute_takes_occurrences_from_the_left_without_overlap() {
    assert_eq!(substitute("aaaa", "aa", "b"), "bb");
    assert_eq!(substitute("aaa", "aa", "b"), "ba");
    assert_eq!(substitute("ababa", "aba", "X"), "Xba");
}

#[test]
fn substitute_does_not_search_what_it_put_in() {
    assert_eq!(substitute("a", "a", "aa"), "aa");
    assert_eq!(substitute("xNAMEx", "NAME", "NAME_NAME"), "xNAME_NAMEx");
}

#[test]
fn substitute_with_an_empty_placeholder_changes_nothing() {
    assert_eq!(substitute("abc", "", "x"), "abc");
    assert_eq!(substitute("", "", "x"), "");
}

#[test]
fn substitute_agrees_with_the_standard_library() {
    let texts = ["", "a", "MARKER_VAR_NAME MARKER", "aaaaa", "caf\u{e9} \u{e9}\u{e9}", "abcabcab"];
    let placeholders = ["a", "aa", "MARKER", "\u{e9}", "abc", "bca", "zzz"];
    let values = ["", "a", "xyz", "\u{1f600}"];
    for text in texts {
        for placeholder in placeholders {
            for value in values {
                assert_eq!(substitute(text, placeholder, value), text.replace(placeholder, value));
            }
        }
    }
}

#[test]
fn lowercase_maps_ascii_capitals_only() {
    assert_eq!(to_ascii_lowercase("EchoMarker"), "echomarker");
    assert_eq!(to_ascii_lowercase("fuchsia.example.Echo_2"), "fuchsia.example.echo_2");
    assert_eq!(to_ascii_lowercase("AZ@[az`{"), "az@[az`{");
    assert_eq!(to_ascii_lowercase("\u{c9}COLE"), "\u{c9}cole");
    assert_eq!(to_ascii_lowercase(""), "");
}

#[test]
fn lowercase_agrees_with_the_standard_library() {
    for text in ["", "ABCxyz", "Gr\u{fc}\u{df}e \u{c4}", "\u{1f600}Q", "0123456789_-"] {
        assert_eq!(to_ascii_lowercase(text), text.to_ascii_lowercase());
    }
}
