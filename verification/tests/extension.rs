use win_ftype::error::Error;
use win_ftype::extension::find_ext;

#[test]
fn extension_is_text_from_last_dot() {
    assert_eq!(find_ext("C:\\a.b\\c.txt"), Ok(".txt"));
    assert_eq!(find_ext("report.tar.gz"), Ok(".gz"));
    assert_eq!(find_ext("name.foo"), Ok(".foo"));
}

#[test]
fn path_without_dot_has_no_extension() {
    assert_eq!(find_ext("C:\\dir\\program"), Err(Error::NoExtension));
    assert_eq!(find_ext(""), Err(Error::NoExtension));
    assert_eq!(find_ext("%1"), Err(Error::NoExtension));
}

#[test]
fn extension_is_not_checked_for_plausibility() {
    assert_eq!(find_ext("C:\\a.b\\c"), Ok(".b\\c"));
    assert_eq!(find_ext("trailing."), Ok("."));
    assert_eq!(find_ext(".hidden"), Ok(".hidden"));
    assert_eq!(find_ext("a. b c"), Ok(". b c"));
}

#[test]
fn extension_counts_characters_not_bytes() {
    assert_eq!(find_ext("d\u{e9}j\u{e0}.v\u{fc}"), Ok(".v\u{fc}"));
    assert_eq!(find_ext("\u{1f600}.\u{1f600}"), Ok(".\u{1f600}"));
}
