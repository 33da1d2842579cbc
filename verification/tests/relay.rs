use audit_check::relay::StreamRelay;

fn relay_in_chunks(chunks: &[&[u8]]) -> Vec<String> {
    let mut relay = StreamRelay::new();
    let mut lines = Vec::new();
    for chunk in chunks {
        lines.extend(relay.feed(chunk));
    }
    lines.extend(relay.close());
    lines
}

#[test]
fn relay_hands_out_the_lines_of_the_stream() {
    assert_eq!(relay_in_chunks(&[b"ab\ncd\n"]), vec!["ab", "cd"]);
    assert_eq!(relay_in_chunks(&[b"ab\ncd"]), vec!["ab", "cd"]);
    assert_eq!(relay_in_chunks(&[b""]), Vec::<String>::new());
    assert_eq!(relay_in_chunks(&[]), Vec::<String>::new());
    assert_eq!(relay_in_chunks(&[b"\n\n"]), vec!["", ""]);
}

#[test]
fn relay_does_not_depend_on_the_chunks() {
    let whole: &[u8] = b"Crate: a\r\nID: RUSTSEC-1\n\nlast";
    let expected = vec!["Crate: a", "ID: RUSTSEC-1", "", "last"];
    assert_eq!(relay_in_chunks(&[whole]), expected);
    for cut in 0..=whole.len() {
        assert_eq!(relay_in_chunks(&[&whole[..cut], &whole[cut..]]), expected);
    }
    let bytes: Vec<&[u8]> = whole.chunks(1).collect();
    assert_eq!(relay_in_chunks(&bytes), expected);
}

#[test]
fn relay_hands_out_a_line_as_soon_as_it_is_complete() {
    let mut relay = StreamRelay::new();
    assert_eq!(relay.feed(b"one"), Vec::<String>::new());
    assert_eq!(relay.feed(b"\ntwo\nthr"), vec!["one", "two"]);
    assert_eq!(relay.feed(b"ee"), Vec::<String>::new());
    assert!(!relay.is_stopped());
    assert_eq!(relay.close(), Some("three".to_string()));
}

#[test]
fn relay_takes_a_carriage_return_before_a_line_feed_as_line_ending() {
    assert_eq!(relay_in_chunks(&[b"x\r\ny\r"]), vec!["x", "y\r"]);
    assert_eq!(relay_in_chunks(&[b"x\r", b"\ny"]), vec!["x", "y"]);
    assert_eq!(relay_in_chunks(&[b"x\ry\n"]), vec!["x\ry"]);
    assert_eq!(relay_in_chunks(&[b"x\r\r\n"]), vec!["x\r"]);
}

#[test]
fn relay_decodes_text_that_is_cut_inside_a_character() {
    assert_eq!(relay_in_chunks(&[&[0xc3], &[0xa9, 10]]), vec!["\u{e9}"]);
    assert_eq!(
        relay_in_chunks(&[&[0xe2, 0x80], &[0xbc, 0xef, 0xb8], &[0x8f]]),
        vec!["\u{203c}\u{fe0f}"]
    );
}

#[test]
fn relay_stops_at_a_line_that_is_no_text() {
    let mut relay = StreamRelay::new();
    assert_eq!(relay.feed(b"good\n"), vec!["good"]);
    assert_eq!(relay.feed(&[0xff, 10]), Vec::<String>::new());
    assert!(relay.is_stopped());
    assert_eq!(relay.feed(b"later\n"), Vec::<String>::new());
    assert_eq!(relay.close(), None);
}

#[test]
fn relay_drops_an_open_line_that_is_no_text() {
    let mut relay = StreamRelay::new();
    assert_eq!(relay.feed(&[b'a', 10, 0xc3]), vec!["a"]);
    assert_eq!(relay.close(), None);
}

#[test]
fn relay_agrees_with_the_lines_of_std() {
    for text in ["", "a", "a\n", "a\nb", "\r\n", "a\r\nb\r\n", "a\n\n\nb\n", "\u{e9}\n\u{203c}"] {
        let expected: Vec<String> = text.lines().map(str::to_string).collect();
        assert_eq!(relay_in_chunks(&[text.as_bytes()]), expected);
    }
}
