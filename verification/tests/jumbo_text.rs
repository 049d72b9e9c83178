//! The jumbo compositor: widths, shapes, tiles and the unsupported-byte
//! error.

use goldfinger::jumbo::custom_tiles;
use goldfinger::jumbo::jumbo;
use goldfinger::jumbo::UnsupportedCharacter;
use goldfinger::jumbo::FULL_BOTTOM;
use goldfinger::jumbo::FULL_BOTTOM_LEFT;
use goldfinger::jumbo::FULL_BOTTOM_RIGHT;
use goldfinger::jumbo::HALF_BOTTOM_LEFT;
use goldfinger::jumbo::HALF_BOTTOM_RIGHT;
use goldfinger::jumbo::SOLID;
use goldfinger::screen::SCREEN_COLS;

#[test]
fn test_jumbo_time_width() {
    // "10:23": five characters, each digit 3 wide, the colon 1 wide, with
    // one blank column between neighbours.
    let (top, mid, bot) = jumbo(b"10:23".as_slice()).unwrap();
    let expected_width = 3 + 1 + 3 + 1 + 1 + 1 + 3 + 1 + 3;
    assert_eq!(top.len(), expected_width);
    assert_eq!(mid.len(), expected_width);
    assert_eq!(bot.len(), expected_width);
    assert!(top.len() <= SCREEN_COLS);
}

#[test]
fn test_jumbo_zero_shape() {
    let (top, mid, bot) = jumbo(b"0".as_slice()).unwrap();
    assert_eq!(top, vec![HALF_BOTTOM_RIGHT, FULL_BOTTOM, HALF_BOTTOM_LEFT]);
    assert_eq!(mid, vec![SOLID, b' ', SOLID]);
    assert_eq!(bot, vec![FULL_BOTTOM_RIGHT, FULL_BOTTOM, FULL_BOTTOM_LEFT]);
}

#[test]
fn test_jumbo_colon_and_space() {
    let (top, mid, bot) = jumbo(b": ".as_slice()).unwrap();
    // colon column, separator column, space column
    assert_eq!(top, vec![FULL_BOTTOM, b' ', b' ']);
    assert_eq!(mid, vec![b' ', b' ', b' ']);
    assert_eq!(bot, vec![FULL_BOTTOM, b' ', b' ']);
}

#[test]
fn test_jumbo_empty_text() {
    let (top, mid, bot) = jumbo(b"".as_slice()).unwrap();
    assert!(top.is_empty());
    assert!(mid.is_empty());
    assert!(bot.is_empty());
}

#[test]
fn test_jumbo_unsupported_character() {
    // Unsupported bytes are a hard error carrying the byte, not a blank.
    assert_eq!(jumbo(b"12a4".as_slice()), Err(UnsupportedCharacter(b'a')));
    assert_eq!(jumbo(b"-1".as_slice()), Err(UnsupportedCharacter(b'-')));
}

#[test]
fn test_custom_tiles_shape() {
    let tiles = custom_tiles();
    assert_eq!(tiles.len(), 5);
    for (i, tile) in tiles.iter().enumerate() {
        // The tag is both the upload slot and the on-screen byte.
        assert_eq!(tile.tag as usize, i);
        // Eight rows of 5-bit patterns.
        assert_eq!(tile.pixels.len(), 8);
        for row in tile.pixels {
            assert!(row <= 0x1F);
        }
    }
}
