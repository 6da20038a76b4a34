use async_recursion::parse::{ArgToken, RecursionArgs};

fn question() -> ArgToken {
    ArgToken::Question
}

fn ident(s: &str) -> ArgToken {
    ArgToken::Ident(s.to_string())
}

#[test]
fn default_config() {
    let args = RecursionArgs::default();
    assert!(args.send_bound);
    assert!(!args.sync_bound);
}

#[test]
fn empty_arguments_yield_default() {
    let r = RecursionArgs::parse(&vec![]).unwrap();
    assert_eq!(r, RecursionArgs::default());
}

#[test]
fn send_marker_disables_transferability() {
    let r = RecursionArgs::parse(&vec![question(), ident("Send")]).unwrap();
    assert_eq!(r, RecursionArgs { send_bound: false, sync_bound: false });
}

#[test]
fn sync_marker_enables_shareability() {
    let r = RecursionArgs::parse(&vec![ident("Sync")]).unwrap();
    assert_eq!(r, RecursionArgs { send_bound: true, sync_bound: true });
}

#[test]
fn both_markers() {
    let r = RecursionArgs::parse(&vec![question(), ident("Send"), ident("Sync")]).unwrap();
    assert_eq!(r, RecursionArgs { send_bound: false, sync_bound: true });
}

#[test]
fn both_markers_in_either_order() {
    let r = RecursionArgs::parse(&vec![ident("Sync"), question(), ident("Send")]).unwrap();
    assert_eq!(r, RecursionArgs { send_bound: false, sync_bound: true });
}

#[test]
fn unknown_word_is_a_syntax_error() {
    let e = RecursionArgs::parse(&vec![ident("Foo")]).unwrap_err();
    assert_eq!(e.position, 0);
    assert_eq!(e.message(), "expected `?Send` or empty");
}

#[test]
fn question_must_be_followed_by_send() {
    let e = RecursionArgs::parse(&vec![question(), ident("Foo")]).unwrap_err();
    assert_eq!(e.position, 1);
}

#[test]
fn lone_question_reports_end_of_input() {
    let tokens = vec![question()];
    let e = RecursionArgs::parse(&tokens).unwrap_err();
    // the anchor falls past the last token: no better position than the call site
    assert_eq!(e.position, tokens.len());
}

#[test]
fn duplicate_sync_is_rejected() {
    let e = RecursionArgs::parse(&vec![ident("Sync"), ident("Sync")]).unwrap_err();
    assert_eq!(e.position, 1);
}

#[test]
fn duplicate_send_marker_is_rejected() {
    let e = RecursionArgs::parse(&vec![question(), ident("Send"), question(), ident("Send")])
        .unwrap_err();
    assert_eq!(e.position, 2);
}

#[test]
fn lone_send_word_is_rejected() {
    let e = RecursionArgs::parse(&vec![ident("Send")]).unwrap_err();
    assert_eq!(e.position, 0);
}

#[test]
fn other_token_is_rejected() {
    let e = RecursionArgs::parse(&vec![ArgToken::Other]).unwrap_err();
    assert_eq!(e.position, 0);
}

#[test]
fn trailing_junk_after_valid_prefix() {
    let e = RecursionArgs::parse(&vec![question(), ident("Send"), ident("Sync"), ident("Sync")])
        .unwrap_err();
    assert_eq!(e.position, 3);
}
