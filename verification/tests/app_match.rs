use monotools::search_engine::app_search::matching::{app_match, NameMatch, TermHit};

#[test]
fn exact_prefix_and_within() {
    assert_eq!(app_match("chrome", "chrome", "", "", "").name, NameMatch::Exact);
    assert_eq!(app_match("chr", "chrome", "", "", "").name, NameMatch::Prefix);
    assert_eq!(app_match("oogle", "google chrome", "", "", "").name, NameMatch::Within(1));
    assert_eq!(app_match("chrome", "google chrome", "", "", "").name, NameMatch::Within(4));
    assert_eq!(app_match("gle", "google", "", "", "").name, NameMatch::Within(3));
    assert_eq!(app_match("firefox", "google chrome", "", "", "").name, NameMatch::Absent);
}

#[test]
fn offsets_are_counted_in_bytes() {
    // "微" takes three bytes in UTF-8.
    assert_eq!(app_match("信", "微信", "", "", "").name, NameMatch::Within(3));
}

#[test]
fn words_match_name_path_and_pinyin() {
    let m = app_match("wx  tools", "tools wx", r"c:\tools\wx.exe", "wx", "weixin");
    assert_eq!(m.terms.len(), 2);
    assert_eq!(
        m.terms[0],
        TermHit { name_offset: Some(4), in_path: true, in_initials: true, in_full: false }
    );
    assert_eq!(
        m.terms[1],
        TermHit { name_offset: Some(0), in_path: true, in_initials: false, in_full: false }
    );
    let none = app_match("wx", "other", "", "", "");
    assert_eq!(
        none.terms[0],
        TermHit { name_offset: None, in_path: false, in_initials: false, in_full: false }
    );
}
