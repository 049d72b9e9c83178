//! Exactness of the wire encoding: every command frame, byte for byte.

use goldfinger::color::Color;
use goldfinger::jumbo::custom_tiles;
use goldfinger::protocol::Command;

#[test]
fn test_encode_clear() {
    assert_eq!(Command::Clear.encode(), vec![0xFE, 0x58]);
}

#[test]
fn test_encode_set_size() {
    assert_eq!(
        Command::SetSize { width: 20, height: 4 }.encode(),
        vec![0xFE, 0xD1, 20, 4]
    );
}

#[test]
fn test_encode_backlight() {
    assert_eq!(Command::BacklightOn.encode(), vec![0xFE, 0x42, 0x00]);
    assert_eq!(Command::BacklightOff.encode(), vec![0xFE, 0x46]);
}

#[test]
fn test_encode_levels() {
    assert_eq!(
        Command::SetBrightness { brightness: 255 }.encode(),
        vec![0xFE, 0x99, 255]
    );
    assert_eq!(
        Command::SetContrast { contrast: 200 }.encode(),
        vec![0xFE, 0x50, 200]
    );
}

#[test]
fn test_encode_set_color() {
    let color = Color { red: 0x11, green: 0x22, blue: 0x33 };
    assert_eq!(
        Command::SetColor { color }.encode(),
        vec![0xFE, 0xD0, 0x11, 0x22, 0x33]
    );
}

#[test]
fn test_encode_set_cursor_pos() {
    assert_eq!(
        Command::SetCursorPos { x: 1, y: 2 }.encode(),
        vec![0xFE, 0x47, 1, 2]
    );
}

#[test]
fn test_encode_save_custom_character() {
    let tiles = custom_tiles();
    let tile = tiles[2];
    let encoded = Command::SaveCustomCharacter { bank: 0, character: tile }.encode();
    let mut expected = vec![0xFE, 0xC1, 0, tile.tag];
    expected.extend_from_slice(&tile.pixels);
    assert_eq!(encoded, expected);
    // The upload frame is always 11 bytes after the sentinel.
    assert_eq!(encoded.len(), 12);
}

#[test]
fn test_encode_load_character_bank() {
    assert_eq!(
        Command::LoadCharacterBank { bank: 0 }.encode(),
        vec![0xFE, 0xC0, 0]
    );
}
