use chatroom::pagination::{default_offset, Page, Pagination};

fn names(n: usize) -> Vec<String> {
    (0..n).map(|i| format!("item{}", i)).collect()
}

#[test]
fn offset_defaults_to_zero() {
    assert_eq!(default_offset(), 0);
}

#[test]
fn page_without_split() {
    let p = Pagination { offset: 2, limit: Some(3), split: None };
    assert_eq!(p.page(&names(10)), Page::Flat(vec!["item2".to_string(), "item3".to_string(), "item4".to_string()]));
}

#[test]
fn page_limit_past_end() {
    let p = Pagination { offset: 8, limit: Some(5), split: None };
    assert_eq!(p.page(&names(10)), Page::Flat(vec!["item8".to_string(), "item9".to_string()]));
}

#[test]
fn page_with_split() {
    let p = Pagination { offset: 0, limit: None, split: Some(4) };
    let all = names(10);
    assert_eq!(
        p.page(&all),
        Page::Chunked(vec![all[0..4].to_vec(), all[4..8].to_vec(), all[8..10].to_vec()])
    );
}

#[test]
fn page_empty_selection() {
    let p = Pagination { offset: 3, limit: Some(0), split: Some(2) };
    assert_eq!(p.page(&names(5)), Page::Chunked(vec![]));
}
