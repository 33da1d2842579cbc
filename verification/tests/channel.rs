use audit_check::channel::{
    code_or_missing, keep, receive_code, receive_stderr, receive_stdout, MISSING_CODE,
};
use std::sync::mpsc::channel;

#[test]
fn receive_stdout_gathers_the_lines_in_order() {
    let (tx, mut rx) = channel();
    tx.send("first".to_string()).unwrap();
    tx.send("second".to_string()).unwrap();
    tx.send(String::new()).unwrap();
    tx.send("fourth".to_string()).unwrap();
    drop(tx);
    assert_eq!(receive_stdout(&mut rx), vec!["first", "second", "", "fourth"]);
    assert_eq!(receive_stdout(&mut rx), Vec::<String>::new());
}

#[test]
fn receive_stderr_gathers_the_lines_in_order() {
    let (tx, mut rx) = channel();
    tx.send("warning: one".to_string()).unwrap();
    tx.send("warning: two".to_string()).unwrap();
    drop(tx);
    assert_eq!(receive_stderr(&mut rx), vec!["warning: one", "warning: two"]);
}

#[test]
fn receive_stdout_of_a_closed_channel_is_empty() {
    let (tx, mut rx) = channel::<String>();
    drop(tx);
    assert_eq!(receive_stdout(&mut rx), Vec::<String>::new());
}

#[test]
fn receive_stdout_goes_on_where_the_channel_stands() {
    let (tx, mut rx) = channel();
    tx.send("taken before".to_string()).unwrap();
    tx.send("first".to_string()).unwrap();
    tx.send("second".to_string()).unwrap();
    drop(tx);
    assert_eq!(rx.recv().unwrap(), "taken before");
    assert_eq!(receive_stdout(&mut rx), vec!["first", "second"]);
}

#[test]
fn receive_code_takes_the_code_that_was_sent() {
    let (tx, mut rx) = channel();
    tx.send(3).unwrap();
    drop(tx);
    assert_eq!(receive_code(&mut rx), 3);
    let (tx, mut rx) = channel();
    tx.send(0).unwrap();
    assert_eq!(receive_code(&mut rx), 0);
    drop(tx);
}

#[test]
fn receive_code_takes_one_message_at_a_time() {
    let (tx, mut rx) = channel();
    tx.send(7).unwrap();
    tx.send(8).unwrap();
    drop(tx);
    assert_eq!(receive_code(&mut rx), 7);
    assert_eq!(receive_code(&mut rx), 8);
    assert_eq!(receive_code(&mut rx), -1);
}

#[test]
fn receive_code_without_a_code_is_no_success() {
    let (tx, mut rx) = channel::<i32>();
    drop(tx);
    assert_eq!(receive_code(&mut rx), -1);
    assert_eq!(MISSING_CODE, -1);
}

#[test]
fn keep_puts_a_line_at_the_end() {
    let mut buf = vec!["a".to_string()];
    assert!(keep(&mut buf, Some("b".to_string())));
    assert_eq!(buf, vec!["a", "b"]);
    assert!(!keep(&mut buf, None));
    assert_eq!(buf, vec!["a", "b"]);
}

#[test]
fn code_or_missing_keeps_a_code() {
    assert_eq!(code_or_missing(Some(0)), 0);
    assert_eq!(code_or_missing(Some(101)), 101);
    assert_eq!(code_or_missing(Some(-1)), -1);
    assert_eq!(code_or_missing(None), -1);
}
