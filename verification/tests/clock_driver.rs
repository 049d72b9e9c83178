//! The clock frame builder and the driver's tick scenarios.

use goldfinger::clock::build_clock_frame;
use goldfinger::clock::Time;
use goldfinger::color::Color;
use goldfinger::driver::Lcd;
use goldfinger::screen::SCREEN_COLS;
use goldfinger::screen::SCREEN_ROWS;
use goldfinger::state::Mode;
use goldfinger::state::UserState;

fn sample_time() -> Time {
    Time { year: 2024, month: 5, day: 24, hour: 10, minute: 23, second: 45 }
}

fn clock_state() -> UserState {
    UserState { mode: Mode::Clock, color: Color { red: 0x20, green: 0x40, blue: 0x60 } }
}

/// The positions of every `[0xFE, tag]` frame in a byte stream.
fn frames_with_tag(bytes: &[u8], tag: u8) -> Vec<usize> {
    let mut hits = Vec::new();
    for i in 0..bytes.len().saturating_sub(1) {
        if bytes[i] == 0xFE && bytes[i + 1] == tag {
            hits.push(i);
        }
    }
    hits
}

#[test]
fn test_clock_frame_layout() {
    let frame = build_clock_frame(sample_time());
    assert_eq!(frame.len(), SCREEN_ROWS);
    for row in &frame {
        assert_eq!(row.len(), SCREEN_COLS);
    }
    assert_eq!(&frame[0], b"2024-05-24  10:23:45".as_slice());
    // The jumbo rows are indented by one blank column.
    assert_eq!(frame[1][0], b' ');
    assert_eq!(frame[2][0], b' ');
    assert_eq!(frame[3][0], b' ');
}

#[test]
fn test_clock_frame_single_digit_hour() {
    // 21:07 shows as 9:07 on the 12-hour dial: 4 jumbo characters.
    let t = Time { year: 2024, month: 1, day: 1, hour: 21, minute: 7, second: 0 };
    let frame = build_clock_frame(t);
    assert_eq!(&frame[0], b"2024-01-01  21:07:00".as_slice());
    // width 3+1+1+1+3+1+3 = 13, plus the indent: columns 14.. are blank
    for c in 14..SCREEN_COLS {
        assert_eq!(frame[1][c], b' ');
        assert_eq!(frame[2][c], b' ');
        assert_eq!(frame[3][c], b' ');
    }
}

#[test]
fn test_startup_stream() {
    let mut lcd = Lcd::new();
    let out = lcd.on_start();
    // clear, backlight on, size, contrast, brightness
    let mut expected: Vec<u8> = vec![
        0xFE, 0x58, 0xFE, 0x42, 0x00, 0xFE, 0xD1, 20, 4, 0xFE, 0x50, 200, 0xFE, 0x99, 255,
    ];
    // the five tile uploads into bank 0
    for tile in goldfinger::jumbo::custom_tiles() {
        expected.extend_from_slice(&[0xFE, 0xC1, 0, tile.tag]);
        expected.extend_from_slice(&tile.pixels);
    }
    // select bank 0
    expected.extend_from_slice(&[0xFE, 0xC0, 0]);
    assert_eq!(out, expected);
}

#[test]
fn test_tick_no_change_sends_nothing() {
    // Two ticks within the same second: the second sends no bytes at all,
    // not even a cursor move.
    let mut lcd = Lcd::new();
    lcd.on_start();
    let first = lcd.on_tick(clock_state(), sample_time());
    assert!(!first.is_empty());
    let second = lcd.on_tick(clock_state(), sample_time());
    assert!(second.is_empty());
}

#[test]
fn test_tick_off_then_clock_repaints_in_full() {
    // Off clears the device and resets the buffer, so the next Clock tick
    // repaints as a fresh driver would.
    let t = sample_time();
    let mut fresh = Lcd::new();
    fresh.on_start();
    let fresh_out = fresh.on_tick(clock_state(), t);
    // The fresh driver also applies the colour first; the repaint proper is
    // everything after that one frame.
    assert_eq!(&fresh_out[0..2], &[0xFE, 0xD0]);
    let expected = &fresh_out[5..];

    let mut lcd = Lcd::new();
    lcd.on_start();
    lcd.on_tick(clock_state(), t);
    let off_state = UserState { mode: Mode::Off, ..clock_state() };
    let off_out = lcd.on_tick(off_state, t);
    assert_eq!(off_out, vec![0xFE, 0x46, 0xFE, 0x58]);
    // The buffer is blank again: the clearing of the device is tracked.
    let snapshot = lcd.buffer_snapshot();
    for row in &snapshot {
        assert!(row.iter().all(|&b| b == b' '));
    }
    let again = lcd.on_tick(clock_state(), t);
    assert_eq!(again, expected);
    assert!(!again.is_empty());
}

#[test]
fn test_tick_color_change_deduplicated() {
    // The first clock tick applies the colour; a later tick with the same
    // colour sends no set-colour frame even though the time changed.
    let mut lcd = Lcd::new();
    lcd.on_start();
    let first = lcd.on_tick(clock_state(), sample_time());
    assert_eq!(frames_with_tag(&first, 0xD0).len(), 1);
    assert_eq!(&first[0..5], &[0xFE, 0xD0, 0x20, 0x40, 0x60]);

    let later = Time { second: 46, ..sample_time() };
    let second = lcd.on_tick(clock_state(), later);
    assert!(!second.is_empty());
    assert_eq!(frames_with_tag(&second, 0xD0).len(), 0);

    // A genuinely new colour is applied once, up front.
    let changed = UserState {
        mode: Mode::Clock,
        color: Color { red: 1, green: 2, blue: 3 },
    };
    let third = lcd.on_tick(changed, later);
    assert_eq!(&third[0..5], &[0xFE, 0xD0, 1, 2, 3]);
}

#[test]
fn test_tick_diff_is_positioned_and_one_indexed() {
    // Within one second-to-next tick only the seconds digits change; the
    // output is a single positioned write on the date row, with 1-indexed
    // device coordinates.
    let mut lcd = Lcd::new();
    lcd.on_start();
    lcd.on_tick(clock_state(), sample_time());
    let later = Time { second: 46, ..sample_time() };
    let out = lcd.on_tick(clock_state(), later);
    // One cursor command: row 0, column 19 (0-indexed) -> (20, 1) on the
    // device; then the one changed byte.
    assert_eq!(out, vec![0xFE, 0x47, 20, 1, b'6']);
}

#[test]
fn test_tick_reads_host_clock() {
    // The clock-reading tick paints a full frame the first time around.
    let mut lcd = Lcd::new();
    lcd.on_start();
    let out = lcd.tick(clock_state(), 0);
    assert!(!out.is_empty());
    assert_eq!(&out[0..2], &[0xFE, 0xD0]);
}

#[test]
fn test_shutdown_clears() {
    let lcd = Lcd::new();
    assert_eq!(lcd.shutdown(), vec![0xFE, 0x58]);
}

#[test]
fn test_default_user_state() {
    let s = UserState::default();
    assert!(matches!(s.mode, Mode::Clock));
    assert_eq!(s.color, Color { red: 0, green: 0, blue: 0 });
}

#[test]
fn test_time_clamping() {
    let t = Time::from_clock_fields(-5, 0, 40, 30, 77, 88);
    assert_eq!(t, Time { year: 0, month: 1, day: 31, hour: 23, minute: 59, second: 59 });
    let u = Time::from_clock_fields(2024, 5, 24, 10, 23, 45);
    assert_eq!(u, sample_time());
}
