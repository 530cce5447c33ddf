use winman::search::{PopupMsg, SearchSession};

#[test]
fn show_clears_titles() {
    let mut s = SearchSession::new();
    assert!(s.record_title("One".to_string()));
    assert!(s.on_popup_msg(&PopupMsg::Show));
    assert!(s.preview(5).is_empty());
}

#[test]
fn other_events_keep_titles() {
    let mut s = SearchSession::new();
    s.record_title("One".to_string());
    assert!(!s.on_popup_msg(&PopupMsg::Search(Some("o".to_string()))));
    assert!(!s.on_popup_msg(&PopupMsg::Search(None)));
    assert!(!s.on_popup_msg(&PopupMsg::Accept("One".to_string())));
    assert_eq!(s.preview(5), vec!["One".to_string()]);
}

#[test]
fn empty_titles_are_skipped() {
    let mut s = SearchSession::new();
    assert!(!s.record_title(String::new()));
    assert!(s.record_title("Two".to_string()));
    assert_eq!(s.preview(5), vec!["Two".to_string()]);
}

#[test]
fn preview_takes_first_titles_in_order() {
    let mut s = SearchSession::new();
    for t in ["a", "b", "c", "d", "e", "f", "g"] {
        s.record_title(t.to_string());
    }
    assert_eq!(s.preview(5), vec!["a", "b", "c", "d", "e"]);
    assert_eq!(s.preview(0), Vec::<String>::new());
    assert_eq!(s.preview(100).len(), 7);
}
