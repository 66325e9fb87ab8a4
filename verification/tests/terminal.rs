//! Shell output through the parser.

use rust_terminal::colors::{xterm256, ANSI16, DEFAULT_BG, DEFAULT_FG};
use rust_terminal::grid::{
    CursorStyle, FLAG_BOLD, FLAG_ITALIC, FLAG_REVERSE, FLAG_UNDERLINE,
};
use rust_terminal::parser::Term;

fn term(bytes: &[u8]) -> Term {
    let mut t = Term::new(10, 4, 100);
    t.feed(bytes);
    t
}

fn line(t: &Term, y: usize) -> String {
    t.grid.display_line(y).iter().map(|c| c.ch).collect::<String>().trim_end().to_string()
}

fn screen(t: &Term) -> Vec<String> {
    (0..t.grid.rows).map(|y| line(t, y)).collect()
}

#[test]
fn text_and_controls() {
    let t = term(b"ab\r\ncd\x08e\tf");
    assert_eq!(screen(&t), vec!["ab", "ce      f", "", ""]);
    assert_eq!(line(&term(b"a\x0bb\x0cc"), 2), "  c");
    assert_eq!(line(&term("h\u{e9}\u{4e2d}".as_bytes()), 0), "h\u{e9}\u{4e2d}");
}

#[test]
fn cursor_sequences() {
    let at = |b: &[u8]| {
        let t = term(b);
        (t.grid.cx, t.grid.cy)
    };
    assert_eq!(at(b"\x1b[3;4H"), (3, 2));
    assert_eq!(at(b"\x1b[3;4H\x1b[A"), (3, 1));
    assert_eq!(at(b"\x1b[3;4H\x1b[2A"), (3, 0));
    assert_eq!(at(b"\x1b[3;4H\x1b[B"), (3, 3));
    assert_eq!(at(b"\x1b[3;4H\x1b[e"), (3, 3));
    assert_eq!(at(b"\x1b[3;4H\x1b[2C"), (5, 2));
    assert_eq!(at(b"\x1b[3;4H\x1b[a"), (4, 2));
    assert_eq!(at(b"\x1b[3;4H\x1b[2D"), (1, 2));
    assert_eq!(at(b"\x1b[3;4H\x1b[E"), (0, 3));
    assert_eq!(at(b"\x1b[3;4H\x1b[F"), (0, 1));
    assert_eq!(at(b"\x1b[3;4H\x1b[6G"), (5, 2));
    assert_eq!(at(b"\x1b[3;4H\x1b[6`"), (5, 2));
    assert_eq!(at(b"\x1b[3;4H\x1b[2d"), (3, 1));
    assert_eq!(at(b"\x1b[99;99f"), (9, 3));
    assert_eq!(at(b"\x1b[3;4H\x1b[s\x1b[H\x1b[u"), (3, 2));
    assert_eq!(at(b"\x1b[3;4H\x1b7\x1b[H\x1b8"), (3, 2));
}

#[test]
fn editing_sequences() {
    assert_eq!(line(&term(b"abcdef\x1b[3G\x1b[K"), 0), "ab");
    assert_eq!(line(&term(b"abcdef\x1b[3G\x1b[1K"), 0), "   def");
    assert_eq!(line(&term(b"abcdef\x1b[3G\x1b[2@"), 0), "ab  cdef");
    assert_eq!(line(&term(b"abcdef\x1b[3G\x1b[2P"), 0), "abef");
    assert_eq!(line(&term(b"abcdef\x1b[3G\x1b[2X"), 0), "ab  ef");
    assert_eq!(screen(&term(b"a\r\nb\r\nc\x1b[2;1H\x1b[J")), vec!["a", "", "", ""]);
    assert_eq!(screen(&term(b"a\r\nb\r\nc\x1b[2;1H\x1b[L")), vec!["a", "", "b", "c"]);
    assert_eq!(screen(&term(b"a\r\nb\r\nc\x1b[2;1H\x1b[M")), vec!["a", "c", "", ""]);
    assert_eq!(screen(&term(b"a\r\nb\r\nc\x1b[S")), vec!["b", "c", "", ""]);
    assert_eq!(screen(&term(b"a\r\nb\r\nc\x1b[T")), vec!["", "a", "b", "c"]);
    assert_eq!(screen(&term(b"a\r\nb\x1bM\x1bMx")), vec![" x", "a", "b", ""]);
    assert_eq!(screen(&term(b"a\x1bDb\x1bEc")), vec!["a", " b", "c", ""]);
}

#[test]
fn scroll_region_sequence() {
    let t = term(b"a\r\nb\r\nc\r\nd\x1b[2;3r\x1b[3;1H\n");
    assert_eq!((t.grid.top, t.grid.bot), (1, 2));
    assert_eq!(screen(&t), vec!["a", "c", "", "d"]);
    assert_eq!(t.grid.scrollback.len(), 0);
    assert_eq!((term(b"\x1b[2;3r\x1b[r").grid.bot), 3);
}

#[test]
fn sgr_colors() {
    assert_eq!(term(b"\x1b[31m").grid.fg, ANSI16[1]);
    assert_eq!(term(b"\x1b[42m").grid.bg, ANSI16[2]);
    assert_eq!(term(b"\x1b[93m").grid.fg, ANSI16[11]);
    assert_eq!(term(b"\x1b[104m").grid.bg, ANSI16[12]);
    assert_eq!(term(b"\x1b[31;39m").grid.fg, DEFAULT_FG);
    assert_eq!(term(b"\x1b[41;49m").grid.bg, DEFAULT_BG);
    assert_eq!(term(b"\x1b[38;5;196m").grid.fg, xterm256(196));
    assert_eq!(term(b"\x1b[48;5;240m").grid.bg, xterm256(240));
    assert_eq!(term(b"\x1b[38;2;1;2;3m").grid.fg, 0x0003_0201);
    assert_eq!(term(b"\x1b[48;2;255;0;16;1m").grid.bg, 0x0010_00ff);
    assert_eq!(term(b"\x1b[48;2;255;0;16;1m").grid.flags, FLAG_BOLD);
    assert_eq!(term(b"\x1b[38;5m").grid.fg, DEFAULT_FG);
    assert_eq!(term(b"\x1b[38;9;31m").grid.fg, ANSI16[1]);
    let t = term(b"\x1b[31;1m\x1b[m");
    assert_eq!((t.grid.fg, t.grid.flags), (DEFAULT_FG, 0));
}

#[test]
fn sgr_flags_set_and_clear() {
    let all = FLAG_BOLD | FLAG_ITALIC | FLAG_UNDERLINE | FLAG_REVERSE;
    assert_eq!(term(b"\x1b[1;3;4;7m").grid.flags, all);
    assert_eq!(term(b"\x1b[1;3;4;7;22m").grid.flags, all & !FLAG_BOLD);
    assert_eq!(term(b"\x1b[1;3;4;7;23m").grid.flags, all & !FLAG_ITALIC);
    assert_eq!(term(b"\x1b[1;3;4;7;24m").grid.flags, all & !FLAG_UNDERLINE);
    assert_eq!(term(b"\x1b[1;3;4;7;27m").grid.flags, all & !FLAG_REVERSE);
    assert_eq!(term(b"\x1b[1;0m").grid.flags, 0);
}

#[test]
fn sgr_touches_attributes_only() {
    let plain = term(b"ab");
    let styled = term(b"ab\x1b[1;31;44m");
    assert_eq!(screen(&plain), screen(&styled));
    assert_eq!((plain.grid.cx, plain.grid.cy), (styled.grid.cx, styled.grid.cy));
}

#[test]
fn modes() {
    let t = term(b"\x1b[?1h\x1b[?25l\x1b[?1000h\x1b[?1006h\x1b[?2004h");
    assert!(t.grid.app_cursor && !t.grid.cursor_visible && t.grid.mouse_report);
    assert!(t.grid.mouse_sgr && t.grid.bracketed_paste);
    let t = term(b"\x1b[?1;2004h\x1b[?1;2004l\x1b[?25l\x1b[?25h");
    assert!(!t.grid.app_cursor && !t.grid.bracketed_paste && t.grid.cursor_visible);
}

#[test]
fn cursor_styles() {
    assert_eq!(term(b"\x1b[4 q").grid.cursor_style, CursorStyle::Underline);
    assert_eq!(term(b"\x1b[5 q").grid.cursor_style, CursorStyle::Bar);
    assert_eq!(term(b"\x1b[5 q\x1b[ q").grid.cursor_style, CursorStyle::Block);
    assert_eq!(term(b"\x1b[5q").grid.cursor_style, CursorStyle::Block);
}

#[test]
fn replies_are_queued() {
    assert_eq!(term(b"\x1b[5n").responses, b"\x1b[0n".to_vec());
    assert_eq!(term(b"\x1b[3;7H\x1b[6n").responses, b"\x1b[3;7R".to_vec());
    assert_eq!(term(b"\x1b[c").responses, b"\x1b[?1;2c".to_vec());
    assert_eq!(term(b"\x1b[?6n\x1b[?c\x1b[7n").responses, Vec::<u8>::new());
    let mut t = term(b"\x1b[5n\x1b[c");
    assert_eq!(t.take_responses(), b"\x1b[0n\x1b[?1;2c".to_vec());
    assert!(t.responses.is_empty());
}

#[test]
fn queries_do_not_draw() {
    assert_eq!(screen(&term(b"ab\x1b[6n\x1b[cc")), screen(&term(b"abc")));
}

#[test]
fn titles_come_from_osc_alone() {
    assert_eq!(term(b"\x1b]0;one\x07").title, "one");
    assert_eq!(term(b"\x1b]2;two\x1b\\").title, "two");
    assert_eq!(term(b"\x1b]1;three\x07").title, "");
    assert_eq!(term(b"\x1b]0;a\xffb\x07").title, "a\u{fffd}b");
    assert_eq!(term(b"\x1b]0;x\x07title \x1b[1m").title, "x");
}

#[test]
fn unknown_sequences_are_ignored() {
    let known = term(b"ab");
    for noise in [&b"\x1b[5Z"[..], b"\x1b[99m", b"\x1b[?9999h", b"\x1b]777;x\x07", b"\x1b=", b"\x07"] {
        let t = term(&[b"ab", noise].concat());
        assert_eq!(screen(&t), screen(&known));
        assert_eq!((t.grid.cx, t.grid.cy, t.grid.fg), (2, 0, DEFAULT_FG));
    }
}

#[test]
fn marked_sequences_are_not_the_plain_ones() {
    // xterm's modifyOtherKeys, kitty's keyboard protocol, private saves and restores, modes
    // with another mark, and cursor sequences with one.
    for noise in [
        &b"\x1b[>4;2m"[..],
        b"\x1b[?4m",
        b"\x1b[>c",
        b"\x1b[=c",
        b"\x1b[?6n",
        b"\x1b[>1u",
        b"\x1b[<u",
        b"\x1b[?1;2r",
        b"\x1b[?1s",
        b"\x1b[>25l",
        b"\x1b[=1049h",
        b"\x1b[25 l",
        b"\x1b[4h",
        b"\x1b[4q",
        b"\x1b[>q",
        b"\x1b[?2J",
        b"\x1b[?K",
        b"\x1b[!p",
        b"\x1b[3 A",
    ] {
        let t = term(&[b"ab", noise, b"c"].concat());
        assert_eq!(screen(&t), vec!["abc", "", "", ""]);
        assert_eq!((t.grid.cx, t.grid.cy), (3, 0));
        assert_eq!((t.grid.flags, t.grid.fg, t.grid.bg), (0, DEFAULT_FG, DEFAULT_BG));
        assert_eq!((t.grid.top, t.grid.bot), (0, 3));
        assert!(t.grid.cursor_visible);
        assert!(t.grid.cursor_style == CursorStyle::Block);
        assert!(t.responses.is_empty());
    }
    for hide in [&b"\x1b[?25l"[..], b"\x1b[25l"] {
        assert!(!term(hide).grid.cursor_visible);
    }
    assert!(term(b"\x1b[25l\x1b[25h").grid.cursor_visible);
    assert!(term(b"\x1b[1049h").grid.on_alt);
    assert!(term(b"\x1b[4 q").grid.cursor_style == CursorStyle::Underline);
}

#[test]
fn marked_escapes_are_not_the_plain_ones() {
    // The alignment test and character set designations hold intermediates.
    for noise in [&b"\x1b#8"[..], b"\x1b(B", b"\x1b(0", b"\x1b(7", b"\x1b(c", b"\x1b#D", b"\x1b M"] {
        let t = term(&[b"\x1b[2;3H\x1b7\x1b[Hab", noise, b"c"].concat());
        assert_eq!(screen(&t), vec!["abc", "", "", ""]);
        assert_eq!((t.grid.cx, t.grid.cy), (3, 0));
    }
    let t = term(b"\x1b[2;3H\x1b7\x1b[H\x1b(7ab\x1b8");
    assert_eq!((t.grid.cx, t.grid.cy), (2, 1));
}

#[test]
fn chunks_make_no_difference() {
    let bytes = b"ab\x1b[31mc\x1b]0;t\x07\r\n\x1b[2;5Hx\xe4\xb8\xad\r\n1\r\n2\r\n3\r\n4";
    let whole = term(bytes);
    for cut in 0..bytes.len() {
        let mut t = term(&bytes[..cut]);
        t.feed(&bytes[cut..]);
        assert_eq!(screen(&t), screen(&whole));
        assert_eq!((t.grid.cx, t.grid.cy, t.grid.fg), (whole.grid.cx, whole.grid.cy, whole.grid.fg));
        assert_eq!(t.title, whole.title);
        assert_eq!(t.grid.scrollback.len(), whole.grid.scrollback.len());
    }
}

#[test]
fn chunks_make_no_difference_to_a_view() {
    let bytes = b"\r\n5\r\n6\x1b[?1049hx\r\n\r\n\r\n\r\ny\x1b[?1049l\r\n7\r\n8\r\n9";
    let start = || {
        let mut t = Term::new(10, 2, 3);
        t.feed(b"1\r\n2\r\n3\r\n4");
        t.grid.scroll_view(1);
        t.grid.sel_begin(0, 0);
        t
    };
    let mut whole = start();
    whole.feed(bytes);
    for cut in 0..bytes.len() {
        let mut t = start();
        t.feed(&bytes[..cut]);
        t.feed(&bytes[cut..]);
        assert_eq!(screen(&t), screen(&whole));
        assert_eq!(t.grid.view_offset, whole.grid.view_offset);
        assert_eq!(t.grid.selection.is_some(), whole.grid.selection.is_some());
    }
}

#[test]
fn view_stays_on_content() {
    let mut t = term(b"1\r\n2\r\n3\r\n4\r\n5\r\n6");
    t.grid.scroll_view(2);
    assert_eq!(line(&t, 0), "1");
    t.feed(b"\r\n7\r\n8");
    assert_eq!(line(&t, 0), "1");
    assert_eq!(t.grid.view_offset, 4);
    t.grid.snap_to_bottom();
    t.feed(b"\r\n9");
    assert_eq!(t.grid.view_offset, 0);
}

#[test]
fn view_keeps_its_place_in_a_full_history() {
    let mut t = Term::new(10, 2, 4);
    t.feed(b"1\r\n2\r\n3\r\n4\r\n5");
    assert_eq!(t.grid.scrollback.len(), 3);
    t.grid.scroll_view(1);
    assert_eq!(screen(&t), vec!["3", "4"]);
    // One line finds room, and the view follows it.
    t.feed(b"\r\n6");
    assert_eq!(t.grid.scrollback.len(), 4);
    assert_eq!(t.grid.view_offset, 2);
    assert_eq!(screen(&t), vec!["3", "4"]);
    // The next ones push old lines out: the history is no longer, and the view stays.
    t.feed(b"\r\n7");
    assert_eq!(t.grid.scrollback.len(), 4);
    assert_eq!(t.grid.view_offset, 2);
    assert_eq!(screen(&t), vec!["4", "5"]);
}

#[test]
fn selection_stays_while_the_history_does_not_grow() {
    let mut t = Term::new(10, 2, 2);
    t.feed(b"1\r\n2\r\n3\r\n4");
    assert_eq!(t.grid.scrollback.len(), 2);
    t.grid.sel_begin(0, 0);
    t.feed(b"x\r\n5");
    assert_eq!(t.grid.scrollback.len(), 2);
    assert!(t.grid.selection.is_some());
    let mut t = Term::new(10, 2, 0);
    t.grid.sel_begin(0, 0);
    t.feed(b"1\r\n2\r\n3\r\n4");
    assert!(t.grid.selection.is_some());
}

#[test]
fn selection_outlives_a_reset_after_growth() {
    let start = || {
        let mut t = term(b"1\r\n2\r\n3\r\n4");
        t.grid.sel_begin(0, 0);
        t
    };
    let mut whole = start();
    whole.feed(b"\r\n5\x1bc");
    assert!(whole.grid.selection.is_some());
    let mut parts = start();
    parts.feed(b"\r\n5");
    parts.feed(b"\x1bc");
    assert!(parts.grid.selection.is_none());
    assert_eq!(screen(&whole), screen(&parts));
}

#[test]
fn selection_is_dropped_when_the_history_grows() {
    let mut t = term(b"1\r\n2\r\n3\r\n4");
    t.grid.sel_begin(0, 0);
    t.feed(b"x");
    assert!(t.grid.selection.is_some());
    t.feed(b"\r\n5");
    assert!(t.grid.selection.is_none());
}

#[test]
fn full_screen_program_gives_the_screen_back() {
    let before = term(b"$ vi\r\n$ ");
    let mut t = term(b"$ vi\r\n$ ");
    t.feed(b"\x1b[?1049h\x1b[2Jhello\r\n\r\n\r\n\r\n\r\nworld\x1b[10;10H~\x1b[?1049l");
    assert_eq!(screen(&t), screen(&before));
    assert_eq!((t.grid.cx, t.grid.cy), (before.grid.cx, before.grid.cy));
    assert_eq!(t.grid.scrollback.len(), 0);
    assert!(!t.grid.on_alt);
}

#[test]
fn output_keeps_the_size() {
    let t = term(b"\x1bc\x1b[2J\x1b[?1049h\x1b[100;100H\x1b[100L\x1b[100@");
    assert_eq!((t.grid.cols, t.grid.rows), (10, 4));
}

#[test]
fn reset_sequence() {
    let t = term(b"a\r\nb\r\nc\r\nd\r\ne\x1b[31m\x1bc");
    assert_eq!(screen(&t), vec!["", "", "", ""]);
    assert_eq!(t.grid.scrollback.len(), 0);
    assert_eq!(t.grid.fg, DEFAULT_FG);
}
