//! The clock text builder: one full-screen frame per tick, a date/seconds
//! line on top and the jumbo time underneath.

use vstd::prelude::*;
use crate::color::DIGIT_0;
use crate::jumbo::COLON;
use crate::jumbo::JUMBO_ROWS;
use crate::jumbo::UnsupportedCharacter;
use crate::jumbo::append_padded;
use crate::jumbo::jumbo;
use crate::jumbo::jumbo_char_width;
use crate::jumbo::jumbo_char_rows;
use crate::jumbo::jumbo_rows;
use crate::jumbo::jumbo_supported;
use crate::jumbo::jumbo_text_supported;
use crate::jumbo::jumbo_width;
use crate::jumbo::lemma_jumbo_rows_len;
use crate::jumbo::lemma_jumbo_width_push;
use crate::jumbo::spaces;
use crate::screen::SCREEN_COLS;
use crate::screen::SPACE;
use crate::screen::frame_view;
use crate::screen::frame_wf;

verus! {

/// The ASCII dash byte.
pub const DASH: u8 = 0x2D;

/// One civil timestamp, as read from the host clock at the start of a tick.
#[derive(Copy, Clone, Debug, PartialEq, Eq, Structural)]
pub struct Time {
    pub year: u16,
    pub month: u8,
    pub day: u8,
    pub hour: u8,
    pub minute: u8,
    pub second: u8,
}

impl Time {
    /// Field ranges the builder can render.
    pub open spec fn wf(self) -> bool {
        self.year <= 9999 && 1 <= self.month <= 12 && 1 <= self.day <= 31 && self.hour <= 23
            && self.minute <= 59 && self.second <= 59
    }

    /// Build a timestamp from raw clock fields, clamping each into range.
    pub fn from_clock_fields(year: i32, month: u8, day: u8, hour: u8, minute: u8, second: u8) -> (t:
        Time)
        ensures
            t.wf(),
            t.year == if year < 0 {
                0
            } else if year > 9999 {
                9999
            } else {
                year
            },
            t.month == if month < 1 {
                1
            } else if month > 12 {
                12
            } else {
                month
            },
            t.day == if day < 1 {
                1
            } else if day > 31 {
                31
            } else {
                day
            },
            t.hour == if hour > 23 {
                23
            } else {
                hour
            },
            t.minute == if minute > 59 {
                59
            } else {
                minute
            },
            t.second == if second > 59 {
                59
            } else {
                second
            },
    {
        let y: u16 = if year < 0 {
            0
        } else if year > 9999 {
            9999
        } else {
            year as u16
        };
        let mo: u8 = if month < 1 {
            1
        } else if month > 12 {
            12
        } else {
            month
        };
        let d: u8 = if day < 1 {
            1
        } else if day > 31 {
            31
        } else {
            day
        };
        let h: u8 = if hour > 23 {
            23
        } else {
            hour
        };
        let mi: u8 = if minute > 59 {
            59
        } else {
            minute
        };
        let s: u8 = if second > 59 {
            59
        } else {
            second
        };
        Time { year: y, month: mo, day: d, hour: h, minute: mi, second: s }
    }
}

/// Relies on `std::time::SystemTime::now`, `chrono::DateTime::from_timestamp`,
/// `chrono::FixedOffset::east_opt` and the `Datelike`/`Timelike` accessors:
/// the civil fields of the current instant, shifted east by the given
/// offset. Month, day, hour, minute and second come back in their documented
/// calendar ranges; nothing is assumed of the year. Every failure is handled
/// in place, never panicked on: a host clock before the Unix epoch or past
/// chrono's range falls back to the epoch instant, and an offset no time
/// zone can have (a day or more) falls back to UTC.
#[verifier::external_body]
fn read_clock_fields(offset_seconds: i32) -> (t: (i32, u8, u8, u8, u8, u8))
    ensures
        1 <= t.1 <= 12,
        1 <= t.2 <= 31,
        t.3 <= 23,
        t.4 <= 59,
        t.5 <= 59,
{
    let secs: i64 = match std::time::SystemTime::now().duration_since(std::time::UNIX_EPOCH) {
        Ok(d) => d.as_secs() as i64,
        Err(_) => 0,
    };
    let utc = chrono::DateTime::from_timestamp(secs, 0).unwrap_or(chrono::DateTime::UNIX_EPOCH);
    let offset = match chrono::FixedOffset::east_opt(offset_seconds) {
        Some(o) => o,
        None => chrono::Offset::fix(&chrono::Utc),
    };
    let local = utc.with_timezone(&offset);
    (chrono::Datelike::year(&local), chrono::Datelike::month(&local) as u8,
        chrono::Datelike::day(&local) as u8, chrono::Timelike::hour(&local) as u8,
        chrono::Timelike::minute(&local) as u8, chrono::Timelike::second(&local) as u8)
}

/// The time now, by the host clock, shifted into the local zone given as a
/// UTC offset in seconds east, and clamped into renderable ranges. The zone
/// lookup itself stays with the caller: a query of the host's zone database
/// can abort, while shifting by a plain offset cannot.
pub fn now_with_offset(utc_offset_seconds: i32) -> (t: Time)
    ensures
        t.wf(),
{
    let (y, mo, d, h, mi, s) = read_clock_fields(utc_offset_seconds);
    Time::from_clock_fields(y, mo, d, h, mi, s)
}

/// The ASCII digit byte for `n`.
pub open spec fn digit(n: int) -> u8 {
    (DIGIT_0 + n) as u8
}

/// The two ASCII digits of `n`, zero-padded.
pub open spec fn two_digits(n: int) -> Seq<u8> {
    seq![digit(n / 10), digit(n % 10)]
}

/// The four ASCII digits of `n`, zero-padded.
pub open spec fn four_digits(n: int) -> Seq<u8> {
    seq![digit(n / 1000), digit((n / 100) % 10), digit((n / 10) % 10), digit(n % 10)]
}

/// The top row of the clock frame: `YYYY-MM-DD  HH:MM:SS`, exactly the
/// screen's width.
pub open spec fn date_line(t: Time) -> Seq<u8> {
    four_digits(t.year as int) + seq![DASH] + two_digits(t.month as int) + seq![DASH] + two_digits(
        t.day as int,
    ) + seq![SPACE, SPACE] + two_digits(t.hour as int) + seq![COLON] + two_digits(t.minute as int)
        + seq![COLON] + two_digits(t.second as int)
}

/// The hour on a 12-hour dial: 0 and 12 both show as 12.
pub open spec fn hour_12(h: int) -> int {
    if h % 12 == 0 {
        12
    } else {
        h % 12
    }
}

/// The text the jumbo time shows: `H:MM` or `HH:MM`, 12-hour clock with no
/// leading zero on the hour.
pub open spec fn time_text(t: Time) -> Seq<u8> {
    (if hour_12(t.hour as int) >= 10 {
        two_digits(hour_12(t.hour as int))
    } else {
        seq![digit(hour_12(t.hour as int))]
    }) + seq![COLON] + two_digits(t.minute as int)
}

/// A row padded with blanks to the screen's width.
pub open spec fn pad_row(s: Seq<u8>) -> Seq<u8> {
    s + spaces(SCREEN_COLS - s.len())
}

/// The full clock frame: the date line on top, then the three rows of the
/// jumbo time, indented one column and padded to the screen's width.
pub open spec fn clock_frame(t: Time) -> Seq<Seq<u8>> {
    let rows = jumbo_rows(time_text(t));
    seq![
        date_line(t),
        pad_row(seq![SPACE] + rows[0]),
        pad_row(seq![SPACE] + rows[1]),
        pad_row(seq![SPACE] + rows[2]),
    ]
}

/// Every ASCII digit is a supported jumbo character, three cells wide.
proof fn lemma_digit_width(n: int)
    requires
        0 <= n <= 9,
    ensures
        jumbo_supported(digit(n)),
        jumbo_char_width(digit(n)) == 3,
{
    assert(jumbo_char_rows(digit(n)).len() == JUMBO_ROWS);
}

/// The jumbo time of a well-formed timestamp is drawable and between 13 and
/// 17 cells wide: it always fits beside a one-column indent.
pub proof fn lemma_time_text_fits(t: Time)
    requires
        t.wf(),
    ensures
        jumbo_text_supported(time_text(t)),
        13 <= jumbo_width(time_text(t)) <= 17,
{
    let h12 = hour_12(t.hour as int);
    let m = t.minute as int;
    assert(0 <= t.hour as int % 12 < 12);
    assert(1 <= h12 <= 12);
    assert(0 <= m / 10 <= 9 && 0 <= m % 10 <= 9);
    let s = time_text(t);
    lemma_digit_width(m / 10);
    lemma_digit_width(m % 10);
    assert(jumbo_char_width(COLON) == 1);
    if h12 >= 10 {
        lemma_digit_width(h12 / 10);
        lemma_digit_width(h12 % 10);
        let s0 = Seq::<u8>::empty();
        let s1 = s0.push(digit(h12 / 10));
        let s2 = s1.push(digit(h12 % 10));
        let s3 = s2.push(COLON);
        let s4 = s3.push(digit(m / 10));
        let s5 = s4.push(digit(m % 10));
        assert(s =~= s5);
        lemma_jumbo_width_push(s0, digit(h12 / 10));
        lemma_jumbo_width_push(s1, digit(h12 % 10));
        lemma_jumbo_width_push(s2, COLON);
        lemma_jumbo_width_push(s3, digit(m / 10));
        lemma_jumbo_width_push(s4, digit(m % 10));
        assert(jumbo_width(s) == 17);
        assert forall|i: int| 0 <= i < s.len() implies jumbo_supported(#[trigger] s[i]) by {}
    } else {
        lemma_digit_width(h12);
        let s0 = Seq::<u8>::empty();
        let s1 = s0.push(digit(h12));
        let s2 = s1.push(COLON);
        let s3 = s2.push(digit(m / 10));
        let s4 = s3.push(digit(m % 10));
        assert(s =~= s4);
        lemma_jumbo_width_push(s0, digit(h12));
        lemma_jumbo_width_push(s1, COLON);
        lemma_jumbo_width_push(s2, digit(m / 10));
        lemma_jumbo_width_push(s3, digit(m % 10));
        assert(jumbo_width(s) == 13);
        assert forall|i: int| 0 <= i < s.len() implies jumbo_supported(#[trigger] s[i]) by {}
    }
}

/// The clock frame of a well-formed timestamp has the screen's exact
/// dimensions.
pub proof fn lemma_clock_frame_wf(t: Time)
    requires
        t.wf(),
    ensures
        frame_wf(clock_frame(t)),
{
    lemma_time_text_fits(t);
    lemma_jumbo_rows_len(time_text(t));
    let f = clock_frame(t);
    assert(f[0].len() == SCREEN_COLS);
    assert(f[1].len() == SCREEN_COLS);
    assert(f[2].len() == SCREEN_COLS);
    assert(f[3].len() == SCREEN_COLS);
    assert forall|r: int| 0 <= r < f.len() implies (#[trigger] f[r]).len() == SCREEN_COLS by {}
}

/// Append the two zero-padded ASCII digits of `n`.
fn push_two_digits(out: &mut Vec<u8>, n: u8)
    requires
        n < 100,
    ensures
        final(out)@ == old(out)@ + two_digits(n as int),
{
    out.push(DIGIT_0 + n / 10);
    out.push(DIGIT_0 + n % 10);
    proof {
        assert(final(out)@ =~= old(out)@ + two_digits(n as int));
    }
}

/// Append the four zero-padded ASCII digits of `n`.
fn push_four_digits(out: &mut Vec<u8>, n: u16)
    requires
        n < 10000,
    ensures
        final(out)@ == old(out)@ + four_digits(n as int),
{
    out.push(DIGIT_0 + (n / 1000) as u8);
    out.push(DIGIT_0 + ((n / 100) % 10) as u8);
    out.push(DIGIT_0 + ((n / 10) % 10) as u8);
    out.push(DIGIT_0 + (n % 10) as u8);
    proof {
        assert(final(out)@ =~= old(out)@ + four_digits(n as int));
    }
}

/// One screen row holding a jumbo row: a one-column indent, the jumbo row,
/// then blanks to the screen's width.
fn make_screen_row(jrow: &Vec<u8>) -> (out: Vec<u8>)
    requires
        jrow@.len() + 1 <= SCREEN_COLS,
    ensures
        out@ == pad_row(seq![SPACE] + jrow@),
{
    let mut out: Vec<u8> = Vec::new();
    out.push(SPACE);
    append_padded(&mut out, jrow, SCREEN_COLS - 1);
    proof {
        assert(out@ =~= pad_row(seq![SPACE] + jrow@));
    }
    out
}

/// Build the full clock frame for one timestamp.
pub fn build_clock_frame(t: Time) -> (frame: Vec<Vec<u8>>)
    requires
        t.wf(),
    ensures
        frame_view(frame) == clock_frame(t),
        frame_wf(frame_view(frame)),
{
    let mut row0: Vec<u8> = Vec::new();
    push_four_digits(&mut row0, t.year);
    row0.push(DASH);
    push_two_digits(&mut row0, t.month);
    row0.push(DASH);
    push_two_digits(&mut row0, t.day);
    row0.push(SPACE);
    row0.push(SPACE);
    push_two_digits(&mut row0, t.hour);
    row0.push(COLON);
    push_two_digits(&mut row0, t.minute);
    row0.push(COLON);
    push_two_digits(&mut row0, t.second);
    proof {
        assert(row0@ =~= date_line(t));
    }

    let h12: u8 = if t.hour % 12 == 0 {
        12
    } else {
        t.hour % 12
    };
    let mut text: Vec<u8> = Vec::new();
    if h12 >= 10 {
        push_two_digits(&mut text, h12);
    } else {
        text.push(DIGIT_0 + h12);
    }
    text.push(COLON);
    push_two_digits(&mut text, t.minute);
    proof {
        assert(h12 == hour_12(t.hour as int));
        assert(text@ =~= time_text(t));
        lemma_time_text_fits(t);
    }

    let rows = match jumbo(text.as_slice()) {
        Ok(rows) => rows,
        Err(UnsupportedCharacter(_)) => {
            proof {
                assert(false);
            }
            (Vec::new(), Vec::new(), Vec::new())
        },
    };
    let row1 = make_screen_row(&rows.0);
    let row2 = make_screen_row(&rows.1);
    let row3 = make_screen_row(&rows.2);

    let mut frame: Vec<Vec<u8>> = Vec::new();
    frame.push(row0);
    frame.push(row1);
    frame.push(row2);
    frame.push(row3);
    proof {
        lemma_clock_frame_wf(t);
        assert(frame_view(frame) =~~= clock_frame(t));
    }
    frame
}

} // verus!
