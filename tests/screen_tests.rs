use cc_hook::screen::{is_whitespace, render_cells, ScreenManager};

#[test]
fn test_screen_snapshots() {
    let mut screen = ScreenManager::new(24, 80);

    screen.process(b"Hello, World!");
    let (prev, curr) = screen.take_snapshot();
    assert_eq!(prev, "");
    assert!(curr.contains("Hello, World!"));

    screen.process(b"\r\nSecond line");
    let (prev, curr) = screen.take_snapshot();
    assert!(prev.contains("Hello, World!"));
    assert!(curr.contains("Second line"));
}

#[test]
fn snapshot_text_is_exact() {
    let mut screen = ScreenManager::new(24, 80);
    screen.process(b"Hello, World!   \r\n\r\nSecond line\r\n\r\n");
    let (_, curr) = screen.take_snapshot();
    assert_eq!(curr, "Hello, World!\n\nSecond line");
    let (a, b) = screen.get_snapshots();
    assert_eq!(a, "");
    assert_eq!(b, "Hello, World!\n\nSecond line");
}

#[test]
fn escape_sequences_are_interpreted() {
    let mut screen = ScreenManager::new(5, 20);
    screen.process(b"abcdef\x1b[3Dxy\x1b[2;3Hz\x1b[31mred\x1b[0m");
    let (_, curr) = screen.take_snapshot();
    assert_eq!(curr, "abcxyf\nzred");
    screen.process(b"\x1b[2J");
    let (prev, curr) = screen.take_snapshot();
    assert_eq!(prev, "abcxyf\nzred");
    assert_eq!(curr, "");
}

#[test]
fn chunked_feed_renders_same_text() {
    let stream: &[u8] = b"one\r\ntw\x1b[1;1Hz\x1b[Kq\r\n\x1b[31mthree\x1b[0m";
    let mut whole = ScreenManager::new(10, 30);
    whole.process(stream);
    let (_, expected) = whole.take_snapshot();
    for split in 0..stream.len() {
        let mut parts = ScreenManager::new(10, 30);
        parts.process(&stream[..split]);
        parts.process(&stream[split..]);
        let (_, got) = parts.take_snapshot();
        assert_eq!(got, expected);
    }
    let mut bytes = ScreenManager::new(10, 30);
    for b in stream {
        bytes.process(&[*b]);
    }
    assert_eq!(bytes.take_snapshot().1, expected);
    assert_eq!(expected, "zq\nthree");
}

#[test]
fn resize_discards_content() {
    let mut screen = ScreenManager::new(24, 80);
    screen.process(b"before");
    screen.resize(10, 40);
    screen.process(b"after");
    let (_, curr) = screen.take_snapshot();
    assert_eq!(curr, "after");
}

#[test]
fn long_lines_wrap_at_width() {
    let mut screen = ScreenManager::new(3, 4);
    screen.process(b"abcdefg");
    assert_eq!(screen.take_snapshot().1, "abcd\nefg");
}

#[test]
fn whitespace_classes() {
    assert!(is_whitespace(' '));
    assert!(is_whitespace('\t'));
    assert!(is_whitespace('\u{3000}'));
    assert!(!is_whitespace('a'));
    assert!(!is_whitespace('\u{200b}'));
    for c in ['\u{85}', '\u{a0}', '\u{2009}', '\u{202f}', 'x', '0', '\u{180e}'] {
        assert_eq!(is_whitespace(c), c.is_whitespace());
    }
}

fn cells(rows: &[&[&str]]) -> Vec<Vec<Vec<char>>> {
    rows.iter()
        .map(|r| r.iter().map(|c| c.chars().collect()).collect())
        .collect()
}

#[test]
fn render_cells_trims_and_joins() {
    let grid = cells(&[
        &["a", "b", " ", ""],
        &["", "", "", ""],
        &["", "c", "\u{3000}", " "],
        &[" ", "", "", ""],
        &["", "", "", ""],
    ]);
    assert_eq!(render_cells(&grid), "ab\n\nc");
    assert_eq!(render_cells(&Vec::new()), "");
    assert_eq!(render_cells(&cells(&[&[" "], &[""]])), "");
    assert_eq!(render_cells(&cells(&[&["x\u{301}", "y"]])), "x\u{301}y");
}

#[test]
fn double_width_on_narrow_screen() {
    let mut screen = ScreenManager::new(2, 2);
    screen.process("中文".as_bytes());
    let (_, curr) = screen.take_snapshot();
    assert_eq!(curr, "中\n文");
}
