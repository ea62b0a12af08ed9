use site_archiver::text::{contains_substring, replace_all, replace_encoded_chars};

#[test]
fn decodes_the_five_entities() {
    let body = String::from("&lt;div class=&quot;a&quot;&gt;it&apos;s &amp; more&lt;/div&gt;");
    assert_eq!(replace_encoded_chars(body), "<div class=\"a\">it's & more</div>");
}

#[test]
fn decoding_applies_in_a_fixed_order() {
    // the amp escape is decoded before the apos escape, so a doubly encoded
    // sequence decodes once, not twice
    assert_eq!(replace_encoded_chars(String::from("&amp;lt;")), "&lt;");
}

#[test]
fn replace_all_is_leftmost_nonoverlapping() {
    assert_eq!(replace_all("aaa", "aa", "b"), "ba");
    assert_eq!(replace_all("abcabc", "b", "xy"), "axycaxyc");
    assert_eq!(replace_all("abc", "zz", "q"), "abc");
}

#[test]
fn replace_all_replaces_every_occurrence() {
    assert_eq!(replace_all("a.b.c", ".", "-"), "a-b-c");
}

#[test]
fn replace_all_with_empty_pattern_changes_nothing() {
    assert_eq!(replace_all("abc", "", "q"), "abc");
}

#[test]
fn finds_the_inline_marker() {
    assert!(contains_substring("data:image/png;base64,AAAA", ";base64,"));
    assert!(!contains_substring("http://example.com/logo.png", ";base64,"));
    assert!(contains_substring("anything", ""));
    assert!(!contains_substring("", "x"));
}
