use monotools::paths::{file_name_chars, file_stem};

fn name(p: &str) -> String {
    file_name_chars(p).into_iter().collect()
}

fn stem(p: &str) -> String {
    file_stem(p).into_iter().collect()
}

#[test]
fn file_names_follow_path_components() {
    assert_eq!(name(r"C:\dir\foo.txt"), "foo.txt");
    assert_eq!(name(r"C:\dir\foo.txt\"), "foo.txt");
    assert_eq!(name("dir/foo.txt/."), "foo.txt");
    assert_eq!(name(r"dir\foo.txt\.\"), "foo.txt");
    assert_eq!(name("C:foo.lnk"), "foo.lnk");
    assert_eq!(name("C:"), "");
    assert_eq!(name(r"C:\"), "");
    assert_eq!(name("C:."), "");
    assert_eq!(name(".."), "");
    assert_eq!(name(r"a\.."), "");
    assert_eq!(name("."), "");
    assert_eq!(name("1:foo"), "1:foo");
}

#[test]
fn stems_follow_file_names() {
    assert_eq!(stem("C:foo.lnk"), "foo");
    assert_eq!(stem("dir/archive.tar.gz/."), "archive.tar");
    assert_eq!(stem(".hidden"), ".hidden");
    assert_eq!(stem(r"a\.."), "");
}
