//! The device's serial command protocol. Every command goes out as a frame
//! `[sentinel, tag, params...]` whose parameter block has a fixed length and
//! order per command; raw text bytes sent between frames are printed by the
//! device at the current cursor position.

use vstd::prelude::*;
use crate::color::Color;

verus! {

/// The byte that introduces every command frame.
pub const SENTINEL: u8 = 0xFE;

/// Tag byte: clear the screen.
pub const TAG_CLEAR: u8 = 0x58;

/// Tag byte: backlight on. One parameter, minutes to stay on, 0 meaning
/// indefinitely.
pub const TAG_BACKLIGHT_ON: u8 = 0x42;

/// Tag byte: backlight off.
pub const TAG_BACKLIGHT_OFF: u8 = 0x46;

/// Tag byte: set the screen dimensions. Parameters: width, height.
pub const TAG_SET_SIZE: u8 = 0xD1;

/// Tag byte: set backlight brightness. One parameter.
pub const TAG_SET_BRIGHTNESS: u8 = 0x99;

/// Tag byte: set contrast. One parameter.
pub const TAG_SET_CONTRAST: u8 = 0x50;

/// Tag byte: set the backlight colour. Parameters: red, green, blue.
pub const TAG_SET_COLOR: u8 = 0xD0;

/// Tag byte: move the cursor. Parameters: column, row, both 1-indexed.
pub const TAG_SET_CURSOR_POS: u8 = 0x47;

/// Tag byte: save a custom character into a bank. Parameters: bank, slot,
/// eight pixel rows.
pub const TAG_SAVE_CUSTOM_CHARACTER: u8 = 0xC1;

/// Tag byte: load a character bank into display memory. One parameter.
pub const TAG_LOAD_CHARACTER_BANK: u8 = 0xC0;

/// One 5x8 custom character bitmap. `tag` is both the slot it is uploaded to
/// and the byte that references it in on-screen text; each of the eight
/// `pixels` rows uses its low five bits.
#[derive(Copy, Clone, Debug)]
pub struct CustomCharacter {
    pub tag: u8,
    pub pixels: [u8; 8],
}

impl CustomCharacter {
    /// A well-formed tile uses only the low five bits of each pixel row.
    pub open spec fn wf(self) -> bool {
        forall|i: int| 0 <= i < 8 ==> (#[trigger] self.pixels@[i]) < 32
    }
}

/// One device operation. Encoding a command is a pure function of the
/// variant; no variant is variable-length except the custom-character
/// upload, which is always eleven bytes after the sentinel.
#[derive(Copy, Clone, Debug)]
pub enum Command {
    Clear,
    BacklightOn,
    BacklightOff,
    SetSize { width: u8, height: u8 },
    SetBrightness { brightness: u8 },
    SetContrast { contrast: u8 },
    SetColor { color: Color },
    SetCursorPos { x: u8, y: u8 },
    SaveCustomCharacter { bank: u8, character: CustomCharacter },
    LoadCharacterBank { bank: u8 },
}

/// The exact byte sequence a command puts on the wire.
pub open spec fn encoded(c: Command) -> Seq<u8> {
    match c {
        Command::Clear => seq![SENTINEL, TAG_CLEAR],
        Command::BacklightOn => seq![SENTINEL, TAG_BACKLIGHT_ON, 0u8],
        Command::BacklightOff => seq![SENTINEL, TAG_BACKLIGHT_OFF],
        Command::SetSize { width, height } => seq![SENTINEL, TAG_SET_SIZE, width, height],
        Command::SetBrightness { brightness } => seq![SENTINEL, TAG_SET_BRIGHTNESS, brightness],
        Command::SetContrast { contrast } => seq![SENTINEL, TAG_SET_CONTRAST, contrast],
        Command::SetColor { color } => seq![
            SENTINEL,
            TAG_SET_COLOR,
            color.red,
            color.green,
            color.blue,
        ],
        Command::SetCursorPos { x, y } => seq![SENTINEL, TAG_SET_CURSOR_POS, x, y],
        Command::SaveCustomCharacter { bank, character } => seq![
            SENTINEL,
            TAG_SAVE_CUSTOM_CHARACTER,
            bank,
            character.tag,
        ] + character.pixels@,
        Command::LoadCharacterBank { bank } => seq![SENTINEL, TAG_LOAD_CHARACTER_BANK, bank],
    }
}

impl Command {
    /// The wire bytes of this command.
    pub fn encode(&self) -> (r: Vec<u8>)
        ensures
            r@ == encoded(*self),
    {
        let mut out: Vec<u8> = Vec::new();
        out.push(SENTINEL);
        match *self {
            Command::Clear => {
                out.push(TAG_CLEAR);
            },
            Command::BacklightOn => {
                out.push(TAG_BACKLIGHT_ON);
                out.push(0u8);
            },
            Command::BacklightOff => {
                out.push(TAG_BACKLIGHT_OFF);
            },
            Command::SetSize { width, height } => {
                out.push(TAG_SET_SIZE);
                out.push(width);
                out.push(height);
            },
            Command::SetBrightness { brightness } => {
                out.push(TAG_SET_BRIGHTNESS);
                out.push(brightness);
            },
            Command::SetContrast { contrast } => {
                out.push(TAG_SET_CONTRAST);
                out.push(contrast);
            },
            Command::SetColor { color } => {
                out.push(TAG_SET_COLOR);
                out.push(color.red);
                out.push(color.green);
                out.push(color.blue);
            },
            Command::SetCursorPos { x, y } => {
                out.push(TAG_SET_CURSOR_POS);
                out.push(x);
                out.push(y);
            },
            Command::SaveCustomCharacter { bank, character } => {
                out.push(TAG_SAVE_CUSTOM_CHARACTER);
                out.push(bank);
                out.push(character.tag);
                out.push(character.pixels[0]);
                out.push(character.pixels[1]);
                out.push(character.pixels[2]);
                out.push(character.pixels[3]);
                out.push(character.pixels[4]);
                out.push(character.pixels[5]);
                out.push(character.pixels[6]);
                out.push(character.pixels[7]);
            },
            Command::LoadCharacterBank { bank } => {
                out.push(TAG_LOAD_CHARACTER_BANK);
                out.push(bank);
            },
        }
        proof {
            assert(out@ =~= encoded(*self));
        }
        out
    }
}

} // verus!
