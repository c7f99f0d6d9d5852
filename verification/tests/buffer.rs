use git_review::buf::color::{ColorError, HighlightEvent};
use git_review::buf::Buffer;
use git_review::style::{Color, Style};

#[test]
fn splits_content_into_lines() {
    let buf = Buffer::buf(b"one\ntwo\n\nlast".to_vec());
    assert_eq!(buf.line(1), "one");
    assert_eq!(buf.line(0), "one");
    assert_eq!(buf.line(2), "two");
    assert_eq!(buf.line(3), "");
    assert_eq!(buf.line(4), "");
    assert_eq!(buf.line(99), "");
}

#[test]
fn invalid_utf8_lines_read_as_empty() {
    let buf = Buffer::buf(vec![0xff, b'\n', b'o', b'k', b'\n']);
    assert_eq!(buf.line(1), "");
    assert_eq!(buf.line(2), "ok");
    assert!(buf.highlight(1).spans.is_empty());
}

#[test]
fn test_lines_read_back() {
    let lines = vec!["alpha".to_owned(), "".to_owned(), "gamma".to_owned()];
    let buf = Buffer::from_test_lines(&lines);
    assert_eq!(buf.line(1), "alpha");
    assert_eq!(buf.line(2), "");
    assert_eq!(buf.line(3), "gamma");
}

#[test]
fn uncolored_lines_draw_as_one_plain_span() {
    let buf = Buffer::buf(b"fn main() {}\n\n".to_vec());
    let line = buf.highlight(1);
    assert_eq!(line.spans.len(), 1);
    assert_eq!(line.spans[0].content, "fn main() {}");
    assert_eq!(line.spans[0].style, Style::new());
    assert!(buf.highlight(2).spans.is_empty());
}

#[test]
fn highlight_events_color_spans() {
    let mut buf = Buffer::buf(b"fn main() {\n  x\n}\n".to_vec());
    let events = [
        HighlightEvent::HighlightStart(0),
        HighlightEvent::Source { start: 0, end: 2 },
        HighlightEvent::HighlightEnd,
        HighlightEvent::Source { start: 2, end: 14 },
        HighlightEvent::HighlightStart(1),
        HighlightEvent::Source { start: 14, end: 15 },
        HighlightEvent::HighlightEnd,
        HighlightEvent::Source { start: 15, end: 18 },
    ];
    let palette = [Color::Magenta, Color::Cyan];
    buf.apply_highlight(&events, &palette).unwrap();
    let first = buf.highlight(1);
    let parts: Vec<&str> = first.spans.iter().map(|s| s.content.as_str()).collect();
    assert_eq!(parts, vec!["fn", " main() {"]);
    assert_eq!(first.spans[0].style.fg, Some(Color::Magenta));
    assert_eq!(first.spans[1].style.fg, Some(Color::Reset));
    let second = buf.highlight(2);
    let parts: Vec<&str> = second.spans.iter().map(|s| s.content.as_str()).collect();
    assert_eq!(parts, vec!["  ", "x"]);
    assert_eq!(second.spans[1].style.fg, Some(Color::Cyan));
    let third = buf.highlight(3);
    assert_eq!(third.spans[0].content, "}");
}

#[test]
fn invalid_highlight_events_are_reported() {
    let mut buf = Buffer::buf(b"ab\n".to_vec());
    let events = [HighlightEvent::HighlightStart(5)];
    assert_eq!(buf.apply_highlight(&events, &[Color::Red]), Err(ColorError::InvalidEvent(0)));
    let mut buf = Buffer::buf(b"ab\n".to_vec());
    let events = [HighlightEvent::HighlightEnd, HighlightEvent::Source { start: 1, end: 9 }];
    assert_eq!(buf.apply_highlight(&events, &[]), Err(ColorError::InvalidEvent(1)));
}

#[test]
fn take_leaves_an_empty_buffer() {
    let mut buf = Buffer::buf(b"x\n".to_vec());
    let taken = buf.take();
    assert_eq!(taken.line(1), "x");
    assert_eq!(buf.line(1), "");
    let copy = taken.clone();
    assert_eq!(copy.line(1), "x");
}

#[test]
fn zero_id_loads_the_empty_buffer() {
    let repo = git2::Repository::init("/tmp/git_review_load_zero").expect("init repository");
    let buf = Buffer::load(&repo, git2::Oid::zero()).expect("zero id loads");
    assert!(buf.content().is_empty());
    assert_eq!(buf.line(1), "");
}

#[test]
fn stored_blob_loads_split_into_lines() {
    let repo = git2::Repository::init("/tmp/git_review_load_blob").expect("init repository");
    let oid = repo.blob(b"first\nsecond\n").expect("write blob");
    let buf = Buffer::load(&repo, oid).expect("blob loads");
    assert_eq!(buf.content(), b"first\nsecond\n");
    assert_eq!(buf.line(1), "first");
    assert_eq!(buf.line(2), "second");
}

#[test]
fn events_walking_the_content_cover_every_line() {
    let mut buf = Buffer::buf(b"ab\ncd\nef\n".to_vec());
    let events = [
        HighlightEvent::HighlightStart(0),
        HighlightEvent::Source { start: 0, end: 1 },
        HighlightEvent::HighlightEnd,
        HighlightEvent::Source { start: 1, end: 4 },
        HighlightEvent::Source { start: 4, end: 7 },
        HighlightEvent::HighlightStart(0),
        HighlightEvent::Source { start: 7, end: 9 },
        HighlightEvent::HighlightEnd,
    ];
    buf.apply_highlight(&events, &[Color::Magenta]).expect("events fit");
    for (index, text) in [(1, "ab"), (2, "cd"), (3, "ef")] {
        let drawn: String = buf.highlight(index).spans.iter().map(|s| s.content.clone()).collect();
        assert_eq!(drawn, text);
    }
    assert_eq!(buf.highlight(1).spans[0].style.fg, Some(Color::Magenta));
    assert_eq!(buf.highlight(3).spans[0].style.fg, Some(Color::Reset));
    assert_eq!(buf.highlight(3).spans[1].style.fg, Some(Color::Magenta));
}
