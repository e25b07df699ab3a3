use sidegrade::buffer::{DisplayBuffer, Snapshot};
use sidegrade::line::render_line;
use sidegrade::renderer::{delay_after_pass, ScrollRenderer, TICK_PERIOD_MS};
use sidegrade::scroll::{RowScrollState, ScrollConfig};

fn snapshot(a: &str, b: &str, c: &str, d: &str) -> Snapshot {
    Snapshot { rows: [a.to_string(), b.to_string(), c.to_string(), d.to_string()] }
}

fn rows(s: &Snapshot) -> Vec<String> {
    s.rows.iter().cloned().collect()
}

const REMINDER: &str = "Reminder: Team meeting at 3pm";

#[test]
fn short_line_is_padded_to_width() {
    assert_eq!(render_line("Hello", 0, 20), "Hello               ");
    assert_eq!(render_line("Hello", 0, 20).chars().count(), 20);
}

#[test]
fn short_line_ignores_offset() {
    assert_eq!(render_line("Hello", 3, 20), "Hello               ");
}

#[test]
fn empty_line_is_all_blanks() {
    assert_eq!(render_line("", 0, 20), " ".repeat(20));
}

#[test]
fn line_of_exactly_the_width_is_shown_whole() {
    let text = "12345678901234567890";
    assert_eq!(render_line(text, 0, 20), text);
}

#[test]
fn long_line_shows_window_at_offset() {
    assert_eq!(render_line(REMINDER, 0, 20), "Reminder: Team meeti");
    assert_eq!(render_line(REMINDER, 4, 20), "nder: Team meeting a");
    assert_eq!(render_line(REMINDER, 8, 20), ": Team meeting at 3p");
}

#[test]
fn long_line_tail_is_padded() {
    assert_eq!(render_line(REMINDER, 12, 20), "am meeting at 3pm   ");
    assert_eq!(render_line(REMINDER, 12, 20).chars().count(), 20);
}

#[test]
fn offset_past_the_text_gives_blanks() {
    assert_eq!(render_line(REMINDER, 29, 20), " ".repeat(20));
    assert_eq!(render_line(REMINDER, 500, 20), " ".repeat(20));
}

#[test]
fn width_counts_characters_not_bytes() {
    // 23 characters, 25 bytes
    let text = "Caf\u{e9} \u{fc}ber 1234567890123";
    assert_eq!(text.chars().count(), 23);
    assert_eq!(text.len(), 25);
    assert_eq!(render_line(text, 0, 20), "Caf\u{e9} \u{fc}ber 1234567890");
    assert_eq!(render_line(text, 4, 20), " \u{fc}ber 1234567890123 ");
    // 20 characters in 22 bytes fit the display
    assert_eq!(render_line("Caf\u{e9} \u{fc}ber 1234567890", 7, 20), "Caf\u{e9} \u{fc}ber 1234567890");
    assert_eq!(render_line("\u{e9}t\u{e9}", 0, 5), "\u{e9}t\u{e9}  ");
}

#[test]
fn zero_width_renders_nothing() {
    assert_eq!(render_line("abc", 0, 0), "");
    assert_eq!(render_line("", 0, 0), "");
}

#[test]
fn canonical_config_is_twenty_four_four() {
    let c = ScrollConfig::canonical();
    assert_eq!((c.width(), c.step(), c.margin()), (20, 4, 4));
}

#[test]
fn config_rejects_unusable_geometry() {
    assert!(ScrollConfig::new(20, 0, 4).is_none());
    assert!(ScrollConfig::new(20, 4, 20).is_none());
    assert!(ScrollConfig::new(20, 4, 21).is_none());
    assert!(ScrollConfig::new(0, 1, 0).is_none());
    let c = ScrollConfig::new(16, 2, 0).unwrap();
    assert_eq!((c.width(), c.step(), c.margin()), (16, 2, 0));
}

#[test]
fn short_row_completes_at_once_and_stays_put() {
    let c = ScrollConfig::canonical();
    let next = RowScrollState::new().advance(5, c);
    assert_eq!(next, RowScrollState { offset: 0, completed: true });
    assert_eq!(RowScrollState::new().advance(20, c), RowScrollState { offset: 0, completed: true });
    assert_eq!(RowScrollState::new().advance(0, c), RowScrollState { offset: 0, completed: true });
}

#[test]
fn long_row_steps_until_wrap_limit() {
    // thirty characters: wraps once the offset would exceed 30 - 16 = 14
    let c = ScrollConfig::canonical();
    let s0 = RowScrollState::new();
    let s1 = s0.advance(30, c);
    assert_eq!(s1, RowScrollState { offset: 4, completed: false });
    let s2 = s1.advance(30, c);
    assert_eq!(s2, RowScrollState { offset: 8, completed: false });
    let s3 = s2.advance(30, c);
    assert_eq!(s3, RowScrollState { offset: 12, completed: false });
    let s4 = s3.advance(30, c);
    assert_eq!(s4, RowScrollState { offset: 0, completed: true });
    // the next cycle scrolls again and stays complete
    assert_eq!(s4.advance(30, c), RowScrollState { offset: 4, completed: true });
}

#[test]
fn offset_equal_to_wrap_limit_does_not_wrap() {
    // len 34: limit 18; 14 + 4 == 18 is not beyond it
    let c = ScrollConfig::canonical();
    let s = RowScrollState { offset: 14, completed: false };
    assert_eq!(s.advance(34, c), RowScrollState { offset: 18, completed: false });
    let s = RowScrollState { offset: 18, completed: false };
    assert_eq!(s.advance(34, c), RowScrollState { offset: 0, completed: true });
}

#[test]
fn row_one_longer_than_width_wraps_after_two_renders() {
    // len 21: limit 5; 0 -> 4 -> wrap
    let c = ScrollConfig::canonical();
    let s1 = RowScrollState::new().advance(21, c);
    assert_eq!(s1, RowScrollState { offset: 4, completed: false });
    assert_eq!(s1.advance(21, c), RowScrollState { offset: 0, completed: true });
}

#[test]
fn stray_offset_wraps() {
    let c = ScrollConfig::canonical();
    let s = RowScrollState { offset: 1000, completed: false };
    assert_eq!(s.advance(30, c), RowScrollState { offset: 0, completed: true });
    let s = RowScrollState { offset: usize::MAX, completed: false };
    assert_eq!(s.advance(30, c), RowScrollState { offset: 0, completed: true });
}

#[test]
fn huge_step_wraps_without_overflow() {
    let c = ScrollConfig::new(20, usize::MAX, 4).unwrap();
    let s = RowScrollState { offset: 3, completed: false };
    assert_eq!(s.advance(30, c), RowScrollState { offset: 0, completed: true });
}

#[test]
fn reminder_row_scrolls_through_four_windows() {
    let mut r = ScrollRenderer::with_text(ScrollConfig::canonical(), snapshot(REMINDER, "", "", ""));
    assert_eq!(r.row_state(0), RowScrollState { offset: 0, completed: false });

    let f = r.tick();
    assert_eq!(f.rows[0], REMINDER.chars().take(20).collect::<String>());
    assert_eq!(r.row_state(0), RowScrollState { offset: 4, completed: false });

    let f = r.tick();
    assert_eq!(f.rows[0], REMINDER.chars().skip(4).take(20).collect::<String>());
    assert_eq!(r.row_state(0), RowScrollState { offset: 8, completed: false });

    let f = r.tick();
    assert_eq!(f.rows[0], REMINDER.chars().skip(8).take(20).collect::<String>());
    assert_eq!(r.row_state(0), RowScrollState { offset: 12, completed: false });

    let f = r.tick();
    assert_eq!(f.rows[0], format!("{: <20}", REMINDER.chars().skip(12).collect::<String>()));
    assert_eq!(f.rows[0], "am meeting at 3pm   ");
    assert_eq!(r.row_state(0), RowScrollState { offset: 0, completed: true });
}

#[test]
fn thirty_character_row_scrolls_through_four_windows() {
    let text = "Reminder: Team meeting at 3pm.";
    assert_eq!(text.chars().count(), 30);
    let mut r = ScrollRenderer::with_text(ScrollConfig::canonical(), snapshot(text, "", "", ""));
    let mut offsets = vec![r.row_state(0).offset];
    let mut windows = Vec::new();
    for _ in 0..4 {
        windows.push(r.tick().rows[0].clone());
        offsets.push(r.row_state(0).offset);
    }
    assert_eq!(offsets, vec![0, 4, 8, 12, 0]);
    assert_eq!(
        windows,
        vec![
            "Reminder: Team meeti".to_string(),
            "nder: Team meeting a".to_string(),
            ": Team meeting at 3p".to_string(),
            "am meeting at 3pm.  ".to_string(),
        ]
    );
    assert!(r.row_state(0).completed);
}

#[test]
fn every_frame_line_is_as_wide_as_the_display() {
    let mut r = ScrollRenderer::with_text(
        ScrollConfig::canonical(),
        snapshot(REMINDER, "short", "", "exactly twenty chars"),
    );
    for _ in 0..12 {
        let f = r.tick();
        for line in f.rows.iter() {
            assert_eq!(line.chars().count(), 20);
        }
    }
}

#[test]
fn all_short_rows_settle_in_first_pass_and_adopt_next() {
    let mut buffer = DisplayBuffer::new();
    buffer.publish(snapshot("A", "B", "C", "D"));
    let mut r = ScrollRenderer::with_text(
        ScrollConfig::canonical(),
        snapshot("one", "two", "", "12345678901234567890"),
    );
    assert!(!r.settled());
    assert!(!r.try_adopt(&buffer));
    assert_eq!(rows(r.text()), vec!["one", "two", "", "12345678901234567890"]);

    let f = r.tick();
    assert_eq!(f.rows[0], "one                 ");
    assert_eq!(f.rows[1], "two                 ");
    assert_eq!(f.rows[2], "                    ");
    assert_eq!(f.rows[3], "12345678901234567890");
    for i in 0..4 {
        assert_eq!(r.row_state(i), RowScrollState { offset: 0, completed: true });
    }
    assert!(r.settled());

    assert!(r.try_adopt(&buffer));
    assert_eq!(rows(r.text()), vec!["A", "B", "C", "D"]);
    for i in 0..4 {
        assert_eq!(r.row_state(i), RowScrollState { offset: 0, completed: false });
    }
    assert!(!r.settled());
}

#[test]
fn publication_waits_while_row_zero_scrolls() {
    let mut buffer = DisplayBuffer::new();
    let mut r = ScrollRenderer::with_text(
        ScrollConfig::canonical(),
        snapshot(REMINDER, "two", "three", "four"),
    );
    r.tick();
    // the producer publishes while row 0 is in mid-scroll
    buffer.publish(snapshot("A", "B", "C", "D"));
    assert!(!r.row_state(0).completed);
    assert!(r.row_state(1).completed);
    for expected_offset in [4usize, 8, 12] {
        assert_eq!(r.row_state(0).offset, expected_offset);
        assert!(!r.try_adopt(&buffer));
        assert_eq!(rows(r.text()), vec![REMINDER, "two", "three", "four"]);
        assert_eq!(r.row_state(0), RowScrollState { offset: expected_offset, completed: false });
        r.tick();
    }
    // row 0 has wrapped: now the snapshot is taken over as a whole
    assert_eq!(r.row_state(0), RowScrollState { offset: 0, completed: true });
    assert!(r.try_adopt(&buffer));
    assert_eq!(rows(r.text()), vec!["A", "B", "C", "D"]);
    assert_eq!(r.tick().rows[0], "A                   ");
}

#[test]
fn refused_adoption_leaves_scroll_state_alone() {
    let mut buffer = DisplayBuffer::new();
    buffer.publish(snapshot("A", "B", "C", "D"));
    let mut r = ScrollRenderer::with_text(
        ScrollConfig::canonical(),
        snapshot("a", "b", "c", REMINDER),
    );
    r.tick();
    r.tick();
    let before: Vec<RowScrollState> = (0..4).map(|i| r.row_state(i)).collect();
    assert!(!r.try_adopt(&buffer));
    let after: Vec<RowScrollState> = (0..4).map(|i| r.row_state(i)).collect();
    assert_eq!(before, after);
    assert_eq!(rows(r.text()), vec!["a", "b", "c", REMINDER]);
}

#[test]
fn new_renderer_is_blank_and_adopts_after_one_pass() {
    let mut buffer = DisplayBuffer::new();
    let mut r = ScrollRenderer::new(ScrollConfig::canonical());
    assert_eq!(rows(r.text()), vec!["", "", "", ""]);
    assert_eq!(r.config().width(), 20);
    let f = r.tick();
    assert_eq!(rows(&f), vec![" ".repeat(20); 4]);
    buffer.publish(snapshot("x", "", "", ""));
    assert!(r.try_adopt(&buffer));
    assert_eq!(rows(r.text()), vec!["x", "", "", ""]);
}

#[test]
fn buffer_starts_blank() {
    let buffer = DisplayBuffer::new();
    assert_eq!(rows(&buffer.read_snapshot()), vec!["", "", "", ""]);
}

#[test]
fn read_returns_latest_publication_whole() {
    let mut buffer = DisplayBuffer::new();
    buffer.publish(snapshot("1", "2", "3", "4"));
    buffer.publish(snapshot("A", "B", "C", "D"));
    let got = buffer.read_snapshot();
    assert_eq!(got.rows.len(), 4);
    assert_eq!(rows(&got), vec!["A", "B", "C", "D"]);
    // reading does not consume
    assert_eq!(rows(&buffer.read_snapshot()), vec!["A", "B", "C", "D"]);
}

#[test]
fn snapshot_clone_and_row() {
    let s = snapshot("a", "bb", "", "dddd");
    let t = s.clone();
    assert_eq!(rows(&s), rows(&t));
    assert_eq!(s.row(1), "bb");
    assert_eq!(Snapshot::blank().row(3), "");
}

#[test]
fn other_geometry_scrolls_by_its_own_rule() {
    // width 8, step 3, margin 2: a row of 12 wraps once offset would exceed 12 - 6 = 6
    let c = ScrollConfig::new(8, 3, 2).unwrap();
    let mut r = ScrollRenderer::with_text(c, snapshot("abcdefghijkl", "", "", ""));
    assert_eq!(r.tick().rows[0], "abcdefgh");
    assert_eq!(r.row_state(0).offset, 3);
    assert_eq!(r.tick().rows[0], "defghijk");
    assert_eq!(r.row_state(0).offset, 6);
    assert_eq!(r.tick().rows[0], "ghijkl  ");
    assert_eq!(r.row_state(0), RowScrollState { offset: 0, completed: true });
}

#[test]
fn delay_fills_the_period() {
    assert_eq!(TICK_PERIOD_MS, 1000);
    assert_eq!(delay_after_pass(1000, 0), 1000);
    assert_eq!(delay_after_pass(1000, 120), 880);
    assert_eq!(delay_after_pass(1000, 999), 1);
    assert_eq!(delay_after_pass(1000, 1000), 0);
    assert_eq!(delay_after_pass(1000, 2500), 0);
    assert_eq!(delay_after_pass(0, 0), 0);
    assert_eq!(delay_after_pass(u64::MAX, 1), u64::MAX - 1);
}
