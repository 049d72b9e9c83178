//! The LCD driver: it owns the screen-buffer model and the last-applied
//! backlight colour, and turns startup, one periodic tick, and shutdown each
//! into the exact byte stream owed to the device.
//!
//! The driver never writes to the serial channel itself; its caller sends
//! the returned bytes and owns failure handling, so a tick is a pure
//! computation here. If a send fails after a tick, the buffer keeps the
//! already-applied frame: the next tick diffs against a buffer that may be
//! ahead of the physical screen, a known limitation of the protocol.

use vstd::prelude::*;
use crate::clock::Time;
use crate::clock::build_clock_frame;
use crate::clock::clock_frame;
use crate::clock::now_with_offset;
use crate::color::Color;
use crate::jumbo::custom_tiles;
use crate::jumbo::tile_pixels;
use crate::protocol::Command;
use crate::protocol::SENTINEL;
use crate::protocol::TAG_SAVE_CUSTOM_CHARACTER;
use crate::protocol::encoded;
use crate::screen::DiffGroup;
use crate::screen::SCREEN_COLS;
use crate::screen::SCREEN_ROWS;
use crate::screen::ScreenBuffer;
use crate::screen::blank_frame;
use crate::screen::diff_groups_ok;
use crate::screen::frame_view;
use crate::screen::frame_wf;
use crate::state::Mode;
use crate::state::UserState;

verus! {

/// Contrast sent once at startup.
pub const STARTUP_CONTRAST: u8 = 200;

/// Brightness sent once at startup.
pub const STARTUP_BRIGHTNESS: u8 = 255;

/// The character bank the jumbo tiles are saved into and loaded from.
pub const TILE_BANK: u8 = 0;

/// The upload frame for tile `i`: a save-custom-character command carrying
/// the tile's tag and pixel rows.
pub open spec fn save_tile_bytes(i: int) -> Seq<u8> {
    seq![SENTINEL, TAG_SAVE_CUSTOM_CHARACTER, TILE_BANK, i as u8] + tile_pixels(i)
}

/// The exact startup stream: clear, backlight on, geometry, contrast,
/// brightness, the five tile uploads, and the bank selection.
pub open spec fn startup_bytes() -> Seq<u8> {
    encoded(Command::Clear) + encoded(Command::BacklightOn) + encoded(
        Command::SetSize { width: SCREEN_COLS as u8, height: SCREEN_ROWS as u8 },
    ) + encoded(Command::SetContrast { contrast: STARTUP_CONTRAST }) + encoded(
        Command::SetBrightness { brightness: STARTUP_BRIGHTNESS },
    ) + save_tile_bytes(0) + save_tile_bytes(1) + save_tile_bytes(2) + save_tile_bytes(3)
        + save_tile_bytes(4) + encoded(Command::LoadCharacterBank { bank: TILE_BANK })
}

/// The colour command owed at the head of a clock tick: nothing when the
/// requested colour is the one last applied, one set-colour frame otherwise.
pub open spec fn color_prefix(last: Option<Color>, c: Color) -> Seq<u8> {
    if last == Some(c) {
        Seq::<u8>::empty()
    } else {
        encoded(Command::SetColor { color: c })
    }
}

/// The positioned write for one diff group: a cursor command (the device is
/// 1-indexed, the buffer 0-indexed) followed by the group's bytes out of the
/// new frame.
pub open spec fn group_bytes(frame: Seq<Seq<u8>>, g: DiffGroup) -> Seq<u8> {
    encoded(Command::SetCursorPos { x: (g.x + 1) as u8, y: (g.row + 1) as u8 })
        + frame[g.row as int].subrange(g.x as int, g.x + g.len)
}

/// The positioned writes for a whole diff, in scan order.
pub open spec fn emitted(frame: Seq<Seq<u8>>, gs: Seq<DiffGroup>) -> Seq<u8>
    decreases gs.len(),
{
    if gs.len() == 0 {
        Seq::<u8>::empty()
    } else {
        emitted(frame, gs.drop_last()) + group_bytes(frame, gs.last())
    }
}

/// Where the device is attached. The path is opaque to the driver; the host
/// shell opens the channel and hands the driver's byte streams to it.
pub struct LcdConfig {
    pub port: String,
}

/// What one tick at timestamp `t` does: how the driver after (`post`)
/// relates to the driver before (`pre`), and which bytes go out.
pub open spec fn tick_rel(pre: Lcd, post: Lcd, state: UserState, t: Time, out: Seq<u8>) -> bool {
    &&& state.mode is Off ==> {
        &&& post.buffer_view() == blank_frame()
        &&& post.last_color_spec() == pre.last_color_spec()
        &&& out == encoded(Command::BacklightOff) + encoded(Command::Clear)
    }
    &&& state.mode is Clock ==> {
        &&& post.buffer_view() == clock_frame(t)
        &&& post.last_color_spec() == Some(state.color)
        &&& exists|gs: Seq<DiffGroup>|
            diff_groups_ok(pre.buffer_view(), clock_frame(t), gs) && out == color_prefix(
                pre.last_color_spec(),
                state.color,
            ) + emitted(clock_frame(t), gs)
    }
}

/// The LCD driver.
pub struct Lcd {
    buffer: ScreenBuffer,
    last_color: Option<Color>,
    started: bool,
}

impl Lcd {
    /// The frame the driver believes is on the physical screen.
    pub closed spec fn buffer_view(&self) -> Seq<Seq<u8>> {
        self.buffer@
    }

    /// The backlight colour last sent, if any was ever sent.
    pub closed spec fn last_color_spec(&self) -> Option<Color> {
        self.last_color
    }

    /// Whether the startup sequence has been issued. Ticking before that
    /// would write text against an unconfigured device.
    pub closed spec fn is_started(&self) -> bool {
        self.started
    }

    /// A driver whose buffer has the screen's exact dimensions.
    pub open spec fn wf(&self) -> bool {
        frame_wf(self.buffer_view())
    }

    /// A fresh driver: blank buffer, no colour applied yet, not started.
    pub fn new() -> (d: Lcd)
        ensures
            d.buffer_view() == blank_frame(),
            d.last_color_spec() is None,
            !d.is_started(),
            d.wf(),
    {
        Lcd { buffer: ScreenBuffer::new(), last_color: None, started: false }
    }

    /// A name for logging.
    pub fn name(&self) -> (r: &'static str)
        ensures
            r@ == "LCD"@,
    {
        "LCD"
    }

    /// A copy of the frame the driver believes is on the screen.
    pub fn buffer_snapshot(&self) -> (f: Vec<Vec<u8>>)
        requires
            self.wf(),
        ensures
            frame_view(f) == self.buffer_view(),
    {
        self.buffer.snapshot()
    }

    /// The startup stream. It must be sent to completion before the first
    /// tick; a failure here is fatal for the resource.
    pub fn on_start(&mut self) -> (r: Vec<u8>)
        ensures
            r@ == startup_bytes(),
            final(self).is_started(),
            final(self).buffer_view() == old(self).buffer_view(),
            final(self).last_color_spec() == old(self).last_color_spec(),
            final(self).wf() == old(self).wf(),
    {
        self.started = true;
        let mut out = Command::Clear.encode();
        let mut v = Command::BacklightOn.encode();
        out.append(&mut v);
        let mut v = Command::SetSize { width: SCREEN_COLS as u8, height: SCREEN_ROWS as u8
        }.encode();
        out.append(&mut v);
        let mut v = Command::SetContrast { contrast: STARTUP_CONTRAST }.encode();
        out.append(&mut v);
        let mut v = Command::SetBrightness { brightness: STARTUP_BRIGHTNESS }.encode();
        out.append(&mut v);
        let tiles = custom_tiles();
        let mut v = Command::SaveCustomCharacter { bank: TILE_BANK, character: tiles[0] }.encode();
        out.append(&mut v);
        let mut v = Command::SaveCustomCharacter { bank: TILE_BANK, character: tiles[1] }.encode();
        out.append(&mut v);
        let mut v = Command::SaveCustomCharacter { bank: TILE_BANK, character: tiles[2] }.encode();
        out.append(&mut v);
        let mut v = Command::SaveCustomCharacter { bank: TILE_BANK, character: tiles[3] }.encode();
        out.append(&mut v);
        let mut v = Command::SaveCustomCharacter { bank: TILE_BANK, character: tiles[4] }.encode();
        out.append(&mut v);
        let mut v = Command::LoadCharacterBank { bank: TILE_BANK }.encode();
        out.append(&mut v);
        proof {
            assert(out@ =~= startup_bytes());
        }
        out
    }

    /// The shutdown stream: a best-effort clear as the process ends.
    pub fn shutdown(&self) -> (r: Vec<u8>)
        ensures
            r@ == encoded(Command::Clear),
    {
        Command::Clear.encode()
    }

    /// One tick at timestamp `t`.
    ///
    /// Off turns the backlight off, clears the device and resets the buffer
    /// to blank, so the first Clock tick afterwards repaints every inked
    /// cell. Clock sends a set-colour frame only when the requested colour
    /// differs from the last applied, then the clock frame's diff as
    /// positioned writes; a tick that changes nothing sends nothing.
    pub fn on_tick(&mut self, state: UserState, t: Time) -> (out: Vec<u8>)
        requires
            old(self).wf(),
            old(self).is_started(),
            t.wf(),
        ensures
            final(self).wf(),
            final(self).is_started(),
            tick_rel(*old(self), *final(self), state, t, out@),
            (state.mode is Clock && old(self).buffer_view() == clock_frame(t)
                && old(self).last_color_spec() == Some(state.color)) ==> out@
                == Seq::<u8>::empty(),
    {
        match state.mode {
            Mode::Off => {
                self.buffer.reset();
                let mut out = Command::BacklightOff.encode();
                let mut v = Command::Clear.encode();
                out.append(&mut v);
                proof {
                    assert(out@ =~= encoded(Command::BacklightOff) + encoded(Command::Clear));
                }
                out
            },
            Mode::Clock => {
                let mut out: Vec<u8> = Vec::new();
                let send_color = match self.last_color {
                    Some(lc) => lc != state.color,
                    None => true,
                };
                if send_color {
                    let mut v = Command::SetColor { color: state.color }.encode();
                    out.append(&mut v);
                }
                self.last_color = Some(state.color);
                let ghost cp = out@;
                proof {
                    assert(cp =~= color_prefix(old(self).last_color_spec(), state.color));
                }
                let frame = build_clock_frame(t);
                let ghost fv = frame_view(frame);
                let groups = self.buffer.diff_and_apply(&frame);
                let mut gi: usize = 0;
                while gi < groups.len()
                    invariant
                        gi <= groups@.len(),
                        fv == frame_view(frame),
                        frame_wf(fv),
                        forall|i: int|
                            0 <= i < groups@.len() ==> (#[trigger] groups@[i]).in_bounds(),
                        out@ == cp + emitted(fv, groups@.subrange(0, gi as int)),
                    decreases groups@.len() - gi,
                {
                    let g = groups[gi];
                    proof {
                        assert(g.in_bounds());
                    }
                    let mut v = Command::SetCursorPos {
                        x: (g.x + 1) as u8,
                        y: (g.row + 1) as u8,
                    }.encode();
                    out.append(&mut v);
                    let row: &Vec<u8> = &frame[g.row];
                    proof {
                        assert(row@ == fv[g.row as int]);
                        assert(row@.len() == SCREEN_COLS);
                    }
                    let stop = g.x + g.len;
                    let mut k: usize = g.x;
                    while k < stop
                        invariant
                            g.x <= k <= stop,
                            stop == g.x + g.len,
                            g.in_bounds(),
                            row@ == fv[g.row as int],
                            row@.len() == SCREEN_COLS,
                            out@ == cp + emitted(fv, groups@.subrange(0, gi as int)) + encoded(
                                Command::SetCursorPos { x: (g.x + 1) as u8, y: (g.row + 1) as u8 },
                            ) + row@.subrange(g.x as int, k as int),
                        decreases stop - k,
                    {
                        out.push(row[k]);
                        proof {
                            assert(out@ =~= cp + emitted(fv, groups@.subrange(0, gi as int))
                                + encoded(
                                Command::SetCursorPos { x: (g.x + 1) as u8, y: (g.row + 1) as u8 },
                            ) + row@.subrange(g.x as int, k + 1));
                        }
                        k += 1;
                    }
                    proof {
                        let done = groups@.subrange(0, gi + 1);
                        assert(done.drop_last() =~= groups@.subrange(0, gi as int));
                        assert(done.last() == g);
                        assert(out@ =~= cp + emitted(fv, done));
                    }
                    gi += 1;
                }
                proof {
                    assert(groups@.subrange(0, groups@.len() as int) =~= groups@);
                    assert(out@ == cp + emitted(fv, groups@));
                    assert(exists|gs: Seq<DiffGroup>|
                        diff_groups_ok(old(self).buffer_view(), clock_frame(t), gs) && out@
                            == color_prefix(old(self).last_color_spec(), state.color) + emitted(
                            clock_frame(t),
                            gs,
                        )) by {
                        assert(diff_groups_ok(old(self).buffer_view(), clock_frame(t), groups@)
                            && out@ == color_prefix(old(self).last_color_spec(), state.color)
                            + emitted(clock_frame(t), groups@));
                    }
                    if old(self).buffer_view() == clock_frame(t) && old(self).last_color_spec()
                        == Some(state.color) {
                        assert(groups@.len() == 0);
                        assert(out@ =~= Seq::<u8>::empty());
                    }
                }
                out
            },
        }
    }

    /// One tick at the time now, by the host clock, shifted into the local
    /// zone the caller names as a UTC offset in seconds east. The zone
    /// lookup itself is the caller's: the driver takes only the plain
    /// offset, so this path cannot abort on a broken zone database.
    pub fn tick(&mut self, state: UserState, utc_offset_seconds: i32) -> (out: Vec<u8>)
        requires
            old(self).wf(),
            old(self).is_started(),
        ensures
            final(self).wf(),
            final(self).is_started(),
            exists|t: Time|
                #[trigger] t.wf() && tick_rel(*old(self), *final(self), state, t, out@),
    {
        let t = now_with_offset(utc_offset_seconds);
        let out = self.on_tick(state, t);
        proof {
            assert(t.wf() && tick_rel(*old(self), *final(self), state, t, out@));
        }
        out
    }
}

} // verus!
