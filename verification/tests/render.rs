use hashbench::render::{
    clear_screen, cursor_to, RenderWrite, Spinner, Style, MARKER_COLUMN, PROGRESS_COLUMN,
    SPINNER_FRAMES, SPINNER_TICK_MILLIS,
};
use hashbench::text::decimal_string;

#[test]
fn decimal_numerals() {
    assert_eq!(decimal_string(0), "0");
    assert_eq!(decimal_string(9), "9");
    assert_eq!(decimal_string(10), "10");
    assert_eq!(decimal_string(120), "120");
    assert_eq!(decimal_string(65535), "65535");
    assert_eq!(decimal_string(u128::MAX), u128::MAX.to_string());
}

#[test]
fn cursor_sequence_names_row_then_column() {
    assert_eq!(cursor_to(3, 2), "\x1b[3;2H");
    assert_eq!(cursor_to(1, 0), "\x1b[1;0H");
    assert_eq!(cursor_to(65535, 10), "\x1b[65535;10H");
}

#[test]
fn clear_screen_sequence() {
    assert_eq!(clear_screen(), "\x1b[2J");
}

#[test]
fn spinner_cycles_through_four_glyphs() {
    let glyphs = ["\u{2596}", "\u{2598}", "\u{259d}", "\u{2597}"];
    assert_eq!(SPINNER_FRAMES, 4);
    for tick in 0..12usize {
        let write = RenderWrite::spinner(5, tick);
        assert_eq!(write.row, 5);
        assert_eq!(write.column, MARKER_COLUMN);
        assert_eq!(write.spans.len(), 2);
        assert_eq!(write.spans[0].style, Style::Green);
        assert_eq!(write.spans[0].text, glyphs[tick % 4]);
        assert_eq!(write.spans[1].style, Style::Plain);
        assert_eq!(write.spans[1].text, " ");
    }
    let last = RenderWrite::spinner(1, usize::MAX);
    assert_eq!(last.spans[0].text, glyphs[usize::MAX % 4]);
}

#[test]
fn spinner_ticks_every_hundred_milliseconds() {
    assert_eq!(SPINNER_TICK_MILLIS, 100);
}

#[test]
fn spinner_paints_the_cycle_until_it_is_stopped() {
    let glyphs = ["\u{2596} ", "\u{2598} ", "\u{259d} ", "\u{2597} "];
    let mut spinner = Spinner::new(4);
    for tick in 0..9usize {
        let frame = spinner.tick(false).expect("a running spinner paints");
        assert_eq!(frame.row, 4);
        assert_eq!(frame.column, MARKER_COLUMN);
        assert_eq!(frame.plain_text(), glyphs[tick % 4]);
    }
    assert!(spinner.tick(true).is_none());
    assert!(spinner.tick(true).is_none());
    let resumed = spinner.tick(false).expect("a running spinner paints");
    assert_eq!(resumed.plain_text(), glyphs[1]);
}

#[test]
fn spinner_stops_without_further_output() {
    let mut spinner = Spinner::new(2);
    assert!(spinner.tick(true).is_none());
}

#[test]
fn progress_text_shows_name_count_and_average() {
    let write = RenderWrite::progress(3, "Argon2idFast", 2, 15, 10);
    assert_eq!(write.row, 3);
    assert_eq!(write.column, PROGRESS_COLUMN);
    assert_eq!(write.plain_text(), " Argon2idFast ( 2/15 ) avg=10ms");
    let styles: Vec<Style> = write.spans.iter().map(|span| span.style).collect();
    assert_eq!(
        styles,
        vec![
            Style::Plain,
            Style::GreenBold,
            Style::Plain,
            Style::Green,
            Style::Plain,
            Style::Green,
            Style::Plain,
        ]
    );
    assert_eq!(write.spans[1].text, "Argon2idFast");
    assert_eq!(write.spans[4].text, "2/15");
    assert_eq!(write.spans[6].text, ") avg=10ms");
}

#[test]
fn progress_text_takes_the_largest_values() {
    let write = RenderWrite::progress(65535, "Bcrypt14", 65535, 65535, u128::MAX);
    assert_eq!(
        write.plain_text(),
        format!(" Bcrypt14 ( 65535/65535 ) avg={}ms", u128::MAX)
    );
}

#[test]
fn completion_marker_is_a_check_mark_at_the_row_start() {
    let write = RenderWrite::completion(7);
    assert_eq!(write.row, 7);
    assert_eq!(write.column, MARKER_COLUMN);
    assert_eq!(write.spans.len(), 1);
    assert_eq!(write.spans[0].style, Style::Plain);
    assert_eq!(write.plain_text(), "\u{2714}\n");
}
