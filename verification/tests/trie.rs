use monotools::search_engine::app_search::trie::Trie;

#[test]
fn insert_and_search_single() {
    let mut trie = Trie::new();
    trie.insert("chrome", 0);
    assert_eq!(trie.search("chr"), &[0]);
    assert_eq!(trie.search("chrome"), &[0]);
    assert_eq!(trie.search("chromex"), &Vec::<usize>::new());
}

#[test]
fn insert_and_search_multiple() {
    let mut trie = Trie::new();
    trie.insert("chrome", 0);
    trie.insert("chromium", 1);
    trie.insert("firefox", 2);

    let r = trie.search("chr");
    assert!(r.contains(&0));
    assert!(r.contains(&1));
    assert!(!r.contains(&2));

    assert_eq!(trie.search("fire"), &[2]);
    assert_eq!(trie.search("xyz"), &Vec::<usize>::new());
}

#[test]
fn search_returns_all_matching_indices() {
    let mut trie = Trie::new();
    trie.insert("wechat", 0);
    trie.insert("wechat", 1);
    let r = trie.search("we");
    assert!(r.contains(&0));
    assert!(r.contains(&1));
    assert_eq!(r.len(), 2);
}

#[test]
fn empty_prefix_returns_root_indices() {
    let mut trie = Trie::new();
    trie.insert("abc", 0);
    trie.insert("def", 1);
    let r = trie.search("");
    assert!(r.contains(&0));
    assert!(r.contains(&1));
}

#[test]
fn unicode_and_chinese_chars() {
    let mut trie = Trie::new();
    trie.insert("微信", 0);
    trie.insert("微博", 1);
    trie.insert("weibo", 2);

    assert_eq!(trie.search("微"), &[0, 1]);
    assert_eq!(trie.search("微信"), &[0]);
    assert_eq!(trie.search("weibo"), &[2]);
    assert_eq!(trie.search("微x"), &Vec::<usize>::new());
}

#[test]
fn clear_removes_all() {
    let mut trie = Trie::new();
    trie.insert("abc", 0);
    trie.clear();
    assert_eq!(trie.search("a"), &Vec::<usize>::new());
    assert!(trie.is_empty());
}

#[test]
fn case_sensitive_by_design() {
    let mut trie = Trie::new();
    trie.insert("Chrome", 0);
    assert_eq!(trie.search("chrome"), &Vec::<usize>::new());
    assert_eq!(trie.search("Chrome"), &[0]);
}

#[test]
fn trie_len_counts_every_slot() {
    let mut trie = Trie::new();
    assert_eq!(trie.len(), 0);
    assert!(trie.is_empty());
    trie.insert("ab", 0);
    assert_eq!(trie.len(), 3);
    trie.insert("ac", 1);
    assert_eq!(trie.len(), 6);
    trie.insert("", 2);
    assert_eq!(trie.len(), 7);
    assert!(!trie.is_empty());
}

#[test]
fn trie_search_after_insert_appends_index_for_prefixes_only() {
    let mut trie = Trie::new();
    trie.insert("note", 3);
    let before_no = trie.search("pad").to_vec();
    let before_yes = trie.search("no").to_vec();
    trie.insert("notepad", 7);
    assert_eq!(trie.search("pad").to_vec(), before_no);
    let mut expected = before_yes.clone();
    expected.push(7);
    assert_eq!(trie.search("no").to_vec(), expected);
    assert_eq!(trie.search("notep"), &[7]);
}

#[test]
fn trie_empty_query_lists_indices_in_insertion_order() {
    let mut trie = Trie::new();
    trie.insert("b", 5);
    trie.insert("a", 4);
    trie.insert("b", 5);
    assert_eq!(trie.search(""), &[5, 4, 5]);
}
