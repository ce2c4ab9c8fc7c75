//! Font data: an 8x8 bitmap font for the pixel canvas, and two
//! character-cell fonts (a 3-row block style and a 5-row banner style) for
//! terminal-cell rendering.

use vstd::prelude::*;
use vstd::string::StringSliceAdditionalSpecFns;

verus! {

/// Height of the block-letter font in terminal rows.
pub const ASCII_HEIGHT: u16 = 3;

/// Height of the banner font in terminal rows.
pub const FIGLET_HEIGHT: u16 = 5;

/// The glyph table of the 8x8 font, as the rows' byte sequence; letters
/// match case-insensitively, uncovered characters have no glyph.
pub open spec fn spec_char_bitmap(c: char) -> Option<Seq<u8>> {
    match c {
        'A' | 'a' => Some(seq![0x18u8, 0x24, 0x42, 0x7E, 0x42, 0x42, 0x42, 0x00]),
        'B' | 'b' => Some(seq![0x7Cu8, 0x42, 0x7C, 0x42, 0x42, 0x42, 0x7C, 0x00]),
        'C' | 'c' => Some(seq![0x3Cu8, 0x42, 0x40, 0x40, 0x40, 0x42, 0x3C, 0x00]),
        'D' | 'd' => Some(seq![0x78u8, 0x44, 0x42, 0x42, 0x42, 0x44, 0x78, 0x00]),
        'E' | 'e' => Some(seq![0x7Eu8, 0x40, 0x7C, 0x40, 0x40, 0x40, 0x7E, 0x00]),
        'F' | 'f' => Some(seq![0x7Eu8, 0x40, 0x7C, 0x40, 0x40, 0x40, 0x40, 0x00]),
        'G' | 'g' => Some(seq![0x3Cu8, 0x42, 0x40, 0x4E, 0x42, 0x42, 0x3C, 0x00]),
        'H' | 'h' => Some(seq![0x42u8, 0x42, 0x7E, 0x42, 0x42, 0x42, 0x42, 0x00]),
        'I' | 'i' => Some(seq![0x3Eu8, 0x08, 0x08, 0x08, 0x08, 0x08, 0x3E, 0x00]),
        'J' | 'j' => Some(seq![0x1Fu8, 0x04, 0x04, 0x04, 0x04, 0x44, 0x38, 0x00]),
        'K' | 'k' => Some(seq![0x42u8, 0x44, 0x78, 0x48, 0x44, 0x42, 0x42, 0x00]),
        'L' | 'l' => Some(seq![0x40u8, 0x40, 0x40, 0x40, 0x40, 0x40, 0x7E, 0x00]),
        'M' | 'm' => Some(seq![0x42u8, 0x66, 0x5A, 0x42, 0x42, 0x42, 0x42, 0x00]),
        'N' | 'n' => Some(seq![0x42u8, 0x62, 0x52, 0x4A, 0x46, 0x42, 0x42, 0x00]),
        'O' | 'o' => Some(seq![0x3Cu8, 0x42, 0x42, 0x42, 0x42, 0x42, 0x3C, 0x00]),
        'P' | 'p' => Some(seq![0x7Cu8, 0x42, 0x42, 0x7C, 0x40, 0x40, 0x40, 0x00]),
        'Q' | 'q' => Some(seq![0x3Cu8, 0x42, 0x42, 0x42, 0x4A, 0x44, 0x3A, 0x00]),
        'R' | 'r' => Some(seq![0x7Cu8, 0x42, 0x42, 0x7C, 0x48, 0x44, 0x42, 0x00]),
        'S' | 's' => Some(seq![0x3Cu8, 0x42, 0x30, 0x0C, 0x02, 0x42, 0x3C, 0x00]),
        'T' | 't' => Some(seq![0x7Fu8, 0x08, 0x08, 0x08, 0x08, 0x08, 0x08, 0x00]),
        'U' | 'u' => Some(seq![0x42u8, 0x42, 0x42, 0x42, 0x42, 0x42, 0x3C, 0x00]),
        'V' | 'v' => Some(seq![0x42u8, 0x42, 0x42, 0x42, 0x24, 0x24, 0x18, 0x00]),
        'W' | 'w' => Some(seq![0x42u8, 0x42, 0x42, 0x5A, 0x5A, 0x66, 0x42, 0x00]),
        'X' | 'x' => Some(seq![0x42u8, 0x24, 0x18, 0x18, 0x24, 0x42, 0x42, 0x00]),
        'Y' | 'y' => Some(seq![0x41u8, 0x22, 0x14, 0x08, 0x08, 0x08, 0x08, 0x00]),
        'Z' | 'z' => Some(seq![0x7Eu8, 0x04, 0x08, 0x10, 0x20, 0x40, 0x7E, 0x00]),
        '0' => Some(seq![0x3Cu8, 0x42, 0x46, 0x5A, 0x62, 0x42, 0x3C, 0x00]),
        '1' => Some(seq![0x08u8, 0x18, 0x28, 0x08, 0x08, 0x08, 0x3E, 0x00]),
        '2' => Some(seq![0x3Cu8, 0x42, 0x02, 0x0C, 0x30, 0x40, 0x7E, 0x00]),
        '3' => Some(seq![0x3Cu8, 0x42, 0x02, 0x1C, 0x02, 0x42, 0x3C, 0x00]),
        '4' => Some(seq![0x04u8, 0x0C, 0x14, 0x24, 0x7E, 0x04, 0x04, 0x00]),
        '5' => Some(seq![0x7Eu8, 0x40, 0x7C, 0x02, 0x02, 0x42, 0x3C, 0x00]),
        '6' => Some(seq![0x1Cu8, 0x20, 0x40, 0x7C, 0x42, 0x42, 0x3C, 0x00]),
        '7' => Some(seq![0x7Eu8, 0x02, 0x04, 0x08, 0x10, 0x10, 0x10, 0x00]),
        '8' => Some(seq![0x3Cu8, 0x42, 0x42, 0x3C, 0x42, 0x42, 0x3C, 0x00]),
        '9' => Some(seq![0x3Cu8, 0x42, 0x42, 0x3E, 0x02, 0x04, 0x38, 0x00]),
        ' ' => Some(seq![0x00u8, 0x00, 0x00, 0x00, 0x00, 0x00, 0x00, 0x00]),
        '-' => Some(seq![0x00u8, 0x00, 0x00, 0x7E, 0x00, 0x00, 0x00, 0x00]),
        '.' => Some(seq![0x00u8, 0x00, 0x00, 0x00, 0x00, 0x18, 0x18, 0x00]),
        ',' => Some(seq![0x00u8, 0x00, 0x00, 0x00, 0x00, 0x18, 0x08, 0x10]),
        '!' => Some(seq![0x08u8, 0x08, 0x08, 0x08, 0x08, 0x00, 0x08, 0x00]),
        '?' => Some(seq![0x3Cu8, 0x42, 0x02, 0x0C, 0x10, 0x00, 0x10, 0x00]),
        ':' => Some(seq![0x00u8, 0x18, 0x18, 0x00, 0x18, 0x18, 0x00, 0x00]),
        '"' => Some(seq![0x24u8, 0x24, 0x48, 0x00, 0x00, 0x00, 0x00, 0x00]),
        '(' => Some(seq![0x04u8, 0x08, 0x10, 0x10, 0x10, 0x08, 0x04, 0x00]),
        ')' => Some(seq![0x20u8, 0x10, 0x08, 0x08, 0x08, 0x10, 0x20, 0x00]),
        '&' => Some(seq![0x30u8, 0x48, 0x30, 0x50, 0x4A, 0x44, 0x3A, 0x00]),
        _ => Option::None,
    }
}

/// The 8x8 bitmap glyph of a character, one byte per row, most significant
/// bit leftmost; letters match case-insensitively. `None` for characters
/// the font does not cover: exactly the glyph table.
pub fn get_char_bitmap(ch: char) -> (r: Option<[u8; 8]>)
    ensures
        r matches Some(bm) ==> spec_char_bitmap(ch) == Some(bm@),
        r is None ==> spec_char_bitmap(ch) is None,
{
    match ch {
        'A' | 'a' => {
            let bm: [u8; 8] = [0x18, 0x24, 0x42, 0x7E, 0x42, 0x42, 0x42, 0x00];
            proof {
                assert(bm@ =~= seq![0x18u8, 0x24, 0x42, 0x7E, 0x42, 0x42, 0x42, 0x00]);
            }
            Some(bm)
        },
        'B' | 'b' => {
            let bm: [u8; 8] = [0x7C, 0x42, 0x7C, 0x42, 0x42, 0x42, 0x7C, 0x00];
            proof {
                assert(bm@ =~= seq![0x7Cu8, 0x42, 0x7C, 0x42, 0x42, 0x42, 0x7C, 0x00]);
            }
            Some(bm)
        },
        'C' | 'c' => {
            let bm: [u8; 8] = [0x3C, 0x42, 0x40, 0x40, 0x40, 0x42, 0x3C, 0x00];
            proof {
                assert(bm@ =~= seq![0x3Cu8, 0x42, 0x40, 0x40, 0x40, 0x42, 0x3C, 0x00]);
            }
            Some(bm)
        },
        'D' | 'd' => {
            let bm: [u8; 8] = [0x78, 0x44, 0x42, 0x42, 0x42, 0x44, 0x78, 0x00];
            proof {
                assert(bm@ =~= seq![0x78u8, 0x44, 0x42, 0x42, 0x42, 0x44, 0x78, 0x00]);
            }
            Some(bm)
        },
        'E' | 'e' => {
            let bm: [u8; 8] = [0x7E, 0x40, 0x7C, 0x40, 0x40, 0x40, 0x7E, 0x00];
            proof {
                assert(bm@ =~= seq![0x7Eu8, 0x40, 0x7C, 0x40, 0x40, 0x40, 0x7E, 0x00]);
            }
            Some(bm)
        },
        'F' | 'f' => {
            let bm: [u8; 8] = [0x7E, 0x40, 0x7C, 0x40, 0x40, 0x40, 0x40, 0x00];
            proof {
                assert(bm@ =~= seq![0x7Eu8, 0x40, 0x7C, 0x40, 0x40, 0x40, 0x40, 0x00]);
            }
            Some(bm)
        },
        'G' | 'g' => {
            let bm: [u8; 8] = [0x3C, 0x42, 0x40, 0x4E, 0x42, 0x42, 0x3C, 0x00];
            proof {
                assert(bm@ =~= seq![0x3Cu8, 0x42, 0x40, 0x4E, 0x42, 0x42, 0x3C, 0x00]);
            }
            Some(bm)
        },
        'H' | 'h' => {
            let bm: [u8; 8] = [0x42, 0x42, 0x7E, 0x42, 0x42, 0x42, 0x42, 0x00];
            proof {
                assert(bm@ =~= seq![0x42u8, 0x42, 0x7E, 0x42, 0x42, 0x42, 0x42, 0x00]);
            }
            Some(bm)
        },
        'I' | 'i' => {
            let bm: [u8; 8] = [0x3E, 0x08, 0x08, 0x08, 0x08, 0x08, 0x3E, 0x00];
            proof {
                assert(bm@ =~= seq![0x3Eu8, 0x08, 0x08, 0x08, 0x08, 0x08, 0x3E, 0x00]);
            }
            Some(bm)
        },
        'J' | 'j' => {
            let bm: [u8; 8] = [0x1F, 0x04, 0x04, 0x04, 0x04, 0x44, 0x38, 0x00];
            proof {
                assert(bm@ =~= seq![0x1Fu8, 0x04, 0x04, 0x04, 0x04, 0x44, 0x38, 0x00]);
            }
            Some(bm)
        },
        'K' | 'k' => {
            let bm: [u8; 8] = [0x42, 0x44, 0x78, 0x48, 0x44, 0x42, 0x42, 0x00];
            proof {
                assert(bm@ =~= seq![0x42u8, 0x44, 0x78, 0x48, 0x44, 0x42, 0x42, 0x00]);
            }
            Some(bm)
        },
        'L' | 'l' => {
            let bm: [u8; 8] = [0x40, 0x40, 0x40, 0x40, 0x40, 0x40, 0x7E, 0x00];
            proof {
                assert(bm@ =~= seq![0x40u8, 0x40, 0x40, 0x40, 0x40, 0x40, 0x7E, 0x00]);
            }
            Some(bm)
        },
        'M' | 'm' => {
            let bm: [u8; 8] = [0x42, 0x66, 0x5A, 0x42, 0x42, 0x42, 0x42, 0x00];
            proof {
                assert(bm@ =~= seq![0x42u8, 0x66, 0x5A, 0x42, 0x42, 0x42, 0x42, 0x00]);
            }
            Some(bm)
        },
        'N' | 'n' => {
            let bm: [u8; 8] = [0x42, 0x62, 0x52, 0x4A, 0x46, 0x42, 0x42, 0x00];
            proof {
                assert(bm@ =~= seq![0x42u8, 0x62, 0x52, 0x4A, 0x46, 0x42, 0x42, 0x00]);
            }
            Some(bm)
        },
        'O' | 'o' => {
            let bm: [u8; 8] = [0x3C, 0x42, 0x42, 0x42, 0x42, 0x42, 0x3C, 0x00];
            proof {
                assert(bm@ =~= seq![0x3Cu8, 0x42, 0x42, 0x42, 0x42, 0x42, 0x3C, 0x00]);
            }
            Some(bm)
        },
        'P' | 'p' => {
            let bm: [u8; 8] = [0x7C, 0x42, 0x42, 0x7C, 0x40, 0x40, 0x40, 0x00];
            proof {
                assert(bm@ =~= seq![0x7Cu8, 0x42, 0x42, 0x7C, 0x40, 0x40, 0x40, 0x00]);
            }
            Some(bm)
        },
        'Q' | 'q' => {
            let bm: [u8; 8] = [0x3C, 0x42, 0x42, 0x42, 0x4A, 0x44, 0x3A, 0x00];
            proof {
                assert(bm@ =~= seq![0x3Cu8, 0x42, 0x42, 0x42, 0x4A, 0x44, 0x3A, 0x00]);
            }
            Some(bm)
        },
        'R' | 'r' => {
            let bm: [u8; 8] = [0x7C, 0x42, 0x42, 0x7C, 0x48, 0x44, 0x42, 0x00];
            proof {
                assert(bm@ =~= seq![0x7Cu8, 0x42, 0x42, 0x7C, 0x48, 0x44, 0x42, 0x00]);
            }
            Some(bm)
        },
        'S' | 's' => {
            let bm: [u8; 8] = [0x3C, 0x42, 0x30, 0x0C, 0x02, 0x42, 0x3C, 0x00];
            proof {
                assert(bm@ =~= seq![0x3Cu8, 0x42, 0x30, 0x0C, 0x02, 0x42, 0x3C, 0x00]);
            }
            Some(bm)
        },
        'T' | 't' => {
            let bm: [u8; 8] = [0x7F, 0x08, 0x08, 0x08, 0x08, 0x08, 0x08, 0x00];
            proof {
                assert(bm@ =~= seq![0x7Fu8, 0x08, 0x08, 0x08, 0x08, 0x08, 0x08, 0x00]);
            }
            Some(bm)
        },
        'U' | 'u' => {
            let bm: [u8; 8] = [0x42, 0x42, 0x42, 0x42, 0x42, 0x42, 0x3C, 0x00];
            proof {
                assert(bm@ =~= seq![0x42u8, 0x42, 0x42, 0x42, 0x42, 0x42, 0x3C, 0x00]);
            }
            Some(bm)
        },
        'V' | 'v' => {
            let bm: [u8; 8] = [0x42, 0x42, 0x42, 0x42, 0x24, 0x24, 0x18, 0x00];
            proof {
                assert(bm@ =~= seq![0x42u8, 0x42, 0x42, 0x42, 0x24, 0x24, 0x18, 0x00]);
            }
            Some(bm)
        },
        'W' | 'w' => {
            let bm: [u8; 8] = [0x42, 0x42, 0x42, 0x5A, 0x5A, 0x66, 0x42, 0x00];
            proof {
                assert(bm@ =~= seq![0x42u8, 0x42, 0x42, 0x5A, 0x5A, 0x66, 0x42, 0x00]);
            }
            Some(bm)
        },
        'X' | 'x' => {
            let bm: [u8; 8] = [0x42, 0x24, 0x18, 0x18, 0x24, 0x42, 0x42, 0x00];
            proof {
                assert(bm@ =~= seq![0x42u8, 0x24, 0x18, 0x18, 0x24, 0x42, 0x42, 0x00]);
            }
            Some(bm)
        },
        'Y' | 'y' => {
            let bm: [u8; 8] = [0x41, 0x22, 0x14, 0x08, 0x08, 0x08, 0x08, 0x00];
            proof {
                assert(bm@ =~= seq![0x41u8, 0x22, 0x14, 0x08, 0x08, 0x08, 0x08, 0x00]);
            }
            Some(bm)
        },
        'Z' | 'z' => {
            let bm: [u8; 8] = [0x7E, 0x04, 0x08, 0x10, 0x20, 0x40, 0x7E, 0x00];
            proof {
                assert(bm@ =~= seq![0x7Eu8, 0x04, 0x08, 0x10, 0x20, 0x40, 0x7E, 0x00]);
            }
            Some(bm)
        },
        '0' => {
            let bm: [u8; 8] = [0x3C, 0x42, 0x46, 0x5A, 0x62, 0x42, 0x3C, 0x00];
            proof {
                assert(bm@ =~= seq![0x3Cu8, 0x42, 0x46, 0x5A, 0x62, 0x42, 0x3C, 0x00]);
            }
            Some(bm)
        },
        '1' => {
            let bm: [u8; 8] = [0x08, 0x18, 0x28, 0x08, 0x08, 0x08, 0x3E, 0x00];
            proof {
                assert(bm@ =~= seq![0x08u8, 0x18, 0x28, 0x08, 0x08, 0x08, 0x3E, 0x00]);
            }
            Some(bm)
        },
        '2' => {
            let bm: [u8; 8] = [0x3C, 0x42, 0x02, 0x0C, 0x30, 0x40, 0x7E, 0x00];
            proof {
                assert(bm@ =~= seq![0x3Cu8, 0x42, 0x02, 0x0C, 0x30, 0x40, 0x7E, 0x00]);
            }
            Some(bm)
        },
        '3' => {
            let bm: [u8; 8] = [0x3C, 0x42, 0x02, 0x1C, 0x02, 0x42, 0x3C, 0x00];
            proof {
                assert(bm@ =~= seq![0x3Cu8, 0x42, 0x02, 0x1C, 0x02, 0x42, 0x3C, 0x00]);
            }
            Some(bm)
        },
        '4' => {
            let bm: [u8; 8] = [0x04, 0x0C, 0x14, 0x24, 0x7E, 0x04, 0x04, 0x00];
            proof {
                assert(bm@ =~= seq![0x04u8, 0x0C, 0x14, 0x24, 0x7E, 0x04, 0x04, 0x00]);
            }
            Some(bm)
        },
        '5' => {
            let bm: [u8; 8] = [0x7E, 0x40, 0x7C, 0x02, 0x02, 0x42, 0x3C, 0x00];
            proof {
                assert(bm@ =~= seq![0x7Eu8, 0x40, 0x7C, 0x02, 0x02, 0x42, 0x3C, 0x00]);
            }
            Some(bm)
        },
        '6' => {
            let bm: [u8; 8] = [0x1C, 0x20, 0x40, 0x7C, 0x42, 0x42, 0x3C, 0x00];
            proof {
                assert(bm@ =~= seq![0x1Cu8, 0x20, 0x40, 0x7C, 0x42, 0x42, 0x3C, 0x00]);
            }
            Some(bm)
        },
        '7' => {
            let bm: [u8; 8] = [0x7E, 0x02, 0x04, 0x08, 0x10, 0x10, 0x10, 0x00];
            proof {
                assert(bm@ =~= seq![0x7Eu8, 0x02, 0x04, 0x08, 0x10, 0x10, 0x10, 0x00]);
            }
            Some(bm)
        },
        '8' => {
            let bm: [u8; 8] = [0x3C, 0x42, 0x42, 0x3C, 0x42, 0x42, 0x3C, 0x00];
            proof {
                assert(bm@ =~= seq![0x3Cu8, 0x42, 0x42, 0x3C, 0x42, 0x42, 0x3C, 0x00]);
            }
            Some(bm)
        },
        '9' => {
            let bm: [u8; 8] = [0x3C, 0x42, 0x42, 0x3E, 0x02, 0x04, 0x38, 0x00];
            proof {
                assert(bm@ =~= seq![0x3Cu8, 0x42, 0x42, 0x3E, 0x02, 0x04, 0x38, 0x00]);
            }
            Some(bm)
        },
        ' ' => {
            let bm: [u8; 8] = [0x00, 0x00, 0x00, 0x00, 0x00, 0x00, 0x00, 0x00];
            proof {
                assert(bm@ =~= seq![0x00u8, 0x00, 0x00, 0x00, 0x00, 0x00, 0x00, 0x00]);
            }
            Some(bm)
        },
        '-' => {
            let bm: [u8; 8] = [0x00, 0x00, 0x00, 0x7E, 0x00, 0x00, 0x00, 0x00];
            proof {
                assert(bm@ =~= seq![0x00u8, 0x00, 0x00, 0x7E, 0x00, 0x00, 0x00, 0x00]);
            }
            Some(bm)
        },
        '.' => {
            let bm: [u8; 8] = [0x00, 0x00, 0x00, 0x00, 0x00, 0x18, 0x18, 0x00];
            proof {
                assert(bm@ =~= seq![0x00u8, 0x00, 0x00, 0x00, 0x00, 0x18, 0x18, 0x00]);
            }
            Some(bm)
        },
        ',' => {
            let bm: [u8; 8] = [0x00, 0x00, 0x00, 0x00, 0x00, 0x18, 0x08, 0x10];
            proof {
                assert(bm@ =~= seq![0x00u8, 0x00, 0x00, 0x00, 0x00, 0x18, 0x08, 0x10]);
            }
            Some(bm)
        },
        '!' => {
            let bm: [u8; 8] = [0x08, 0x08, 0x08, 0x08, 0x08, 0x00, 0x08, 0x00];
            proof {
                assert(bm@ =~= seq![0x08u8, 0x08, 0x08, 0x08, 0x08, 0x00, 0x08, 0x00]);
            }
            Some(bm)
        },
        '?' => {
            let bm: [u8; 8] = [0x3C, 0x42, 0x02, 0x0C, 0x10, 0x00, 0x10, 0x00];
            proof {
                assert(bm@ =~= seq![0x3Cu8, 0x42, 0x02, 0x0C, 0x10, 0x00, 0x10, 0x00]);
            }
            Some(bm)
        },
        ':' => {
            let bm: [u8; 8] = [0x00, 0x18, 0x18, 0x00, 0x18, 0x18, 0x00, 0x00];
            proof {
                assert(bm@ =~= seq![0x00u8, 0x18, 0x18, 0x00, 0x18, 0x18, 0x00, 0x00]);
            }
            Some(bm)
        },
        '"' => {
            let bm: [u8; 8] = [0x24, 0x24, 0x48, 0x00, 0x00, 0x00, 0x00, 0x00];
            proof {
                assert(bm@ =~= seq![0x24u8, 0x24, 0x48, 0x00, 0x00, 0x00, 0x00, 0x00]);
            }
            Some(bm)
        },
        '(' => {
            let bm: [u8; 8] = [0x04, 0x08, 0x10, 0x10, 0x10, 0x08, 0x04, 0x00];
            proof {
                assert(bm@ =~= seq![0x04u8, 0x08, 0x10, 0x10, 0x10, 0x08, 0x04, 0x00]);
            }
            Some(bm)
        },
        ')' => {
            let bm: [u8; 8] = [0x20, 0x10, 0x08, 0x08, 0x08, 0x10, 0x20, 0x00];
            proof {
                assert(bm@ =~= seq![0x20u8, 0x10, 0x08, 0x08, 0x08, 0x10, 0x20, 0x00]);
            }
            Some(bm)
        },
        '&' => {
            let bm: [u8; 8] = [0x30, 0x48, 0x30, 0x50, 0x4A, 0x44, 0x3A, 0x00];
            proof {
                assert(bm@ =~= seq![0x30u8, 0x48, 0x30, 0x50, 0x4A, 0x44, 0x3A, 0x00]);
            }
            Some(bm)
        },
        _ => Option::None,
    }
}

/// The 3-row block glyph of a character; letters match
/// case-insensitively. `None` for characters the font does not cover.
pub fn get_ascii_char(c: char) -> (r: Option<[&'static str; 3]>)
    ensures
        r matches Some(g) ==> g@.len() == 3 && (forall|k: int|
            0 <= k < 3 ==> (#[trigger] g@[k])@.len() == 3 && g@[k].spec_bytes().len() == 3),
{
    match c {
        'A' | 'a' => {
            let g: [&'static str; 3] = [" A ", "A A", "AAA"];
            proof {
                reveal_strlit(" A ");
                reveal_strlit("A A");
                reveal_strlit("AAA");
                vstd::string::is_ascii_spec_bytes(" A ");
                vstd::string::is_ascii_spec_bytes("A A");
                vstd::string::is_ascii_spec_bytes("AAA");
                assert(g@ =~= seq![" A ", "A A", "AAA"]);
            }
            Some(g)
        },
        'B' | 'b' => {
            let g: [&'static str; 3] = ["BB ", "BB ", "BB "];
            proof {
                reveal_strlit("BB ");
                reveal_strlit("BB ");
                reveal_strlit("BB ");
                vstd::string::is_ascii_spec_bytes("BB ");
                vstd::string::is_ascii_spec_bytes("BB ");
                vstd::string::is_ascii_spec_bytes("BB ");
                assert(g@ =~= seq!["BB ", "BB ", "BB "]);
            }
            Some(g)
        },
        'C' | 'c' => {
            let g: [&'static str; 3] = [" CC", "C  ", " CC"];
            proof {
                reveal_strlit(" CC");
                reveal_strlit("C  ");
                reveal_strlit(" CC");
                vstd::string::is_ascii_spec_bytes(" CC");
                vstd::string::is_ascii_spec_bytes("C  ");
                vstd::string::is_ascii_spec_bytes(" CC");
                assert(g@ =~= seq![" CC", "C  ", " CC"]);
            }
            Some(g)
        },
        'D' | 'd' => {
            let g: [&'static str; 3] = ["DD ", "D D", "DD "];
            proof {
                reveal_strlit("DD ");
                reveal_strlit("D D");
                reveal_strlit("DD ");
                vstd::string::is_ascii_spec_bytes("DD ");
                vstd::string::is_ascii_spec_bytes("D D");
                vstd::string::is_ascii_spec_bytes("DD ");
                assert(g@ =~= seq!["DD ", "D D", "DD "]);
            }
            Some(g)
        },
        'E' | 'e' => {
            let g: [&'static str; 3] = ["EEE", "EE ", "EEE"];
            proof {
                reveal_strlit("EEE");
                reveal_strlit("EE ");
                reveal_strlit("EEE");
                vstd::string::is_ascii_spec_bytes("EEE");
                vstd::string::is_ascii_spec_bytes("EE ");
                vstd::string::is_ascii_spec_bytes("EEE");
                assert(g@ =~= seq!["EEE", "EE ", "EEE"]);
            }
            Some(g)
        },
        'F' | 'f' => {
            let g: [&'static str; 3] = ["FFF", "FF ", "F  "];
            proof {
                reveal_strlit("FFF");
                reveal_strlit("FF ");
                reveal_strlit("F  ");
                vstd::string::is_ascii_spec_bytes("FFF");
                vstd::string::is_ascii_spec_bytes("FF ");
                vstd::string::is_ascii_spec_bytes("F  ");
                assert(g@ =~= seq!["FFF", "FF ", "F  "]);
            }
            Some(g)
        },
        'G' | 'g' => {
            let g: [&'static str; 3] = [" GG", "G G", "GGG"];
            proof {
                reveal_strlit(" GG");
                reveal_strlit("G G");
                reveal_strlit("GGG");
                vstd::string::is_ascii_spec_bytes(" GG");
                vstd::string::is_ascii_spec_bytes("G G");
                vstd::string::is_ascii_spec_bytes("GGG");
                assert(g@ =~= seq![" GG", "G G", "GGG"]);
            }
            Some(g)
        },
        'H' | 'h' => {
            let g: [&'static str; 3] = ["H H", "HHH", "H H"];
            proof {
                reveal_strlit("H H");
                reveal_strlit("HHH");
                reveal_strlit("H H");
                vstd::string::is_ascii_spec_bytes("H H");
                vstd::string::is_ascii_spec_bytes("HHH");
                vstd::string::is_ascii_spec_bytes("H H");
                assert(g@ =~= seq!["H H", "HHH", "H H"]);
            }
            Some(g)
        },
        'I' | 'i' => {
            let g: [&'static str; 3] = ["III", " I ", "III"];
            proof {
                reveal_strlit("III");
                reveal_strlit(" I ");
                reveal_strlit("III");
                vstd::string::is_ascii_spec_bytes("III");
                vstd::string::is_ascii_spec_bytes(" I ");
                vstd::string::is_ascii_spec_bytes("III");
                assert(g@ =~= seq!["III", " I ", "III"]);
            }
            Some(g)
        },
        'J' | 'j' => {
            let g: [&'static str; 3] = ["JJJ", "  J", "JJ "];
            proof {
                reveal_strlit("JJJ");
                reveal_strlit("  J");
                reveal_strlit("JJ ");
                vstd::string::is_ascii_spec_bytes("JJJ");
                vstd::string::is_ascii_spec_bytes("  J");
                vstd::string::is_ascii_spec_bytes("JJ ");
                assert(g@ =~= seq!["JJJ", "  J", "JJ "]);
            }
            Some(g)
        },
        'K' | 'k' => {
            let g: [&'static str; 3] = ["K K", "KK ", "K K"];
            proof {
                reveal_strlit("K K");
                reveal_strlit("KK ");
                reveal_strlit("K K");
                vstd::string::is_ascii_spec_bytes("K K");
                vstd::string::is_ascii_spec_bytes("KK ");
                vstd::string::is_ascii_spec_bytes("K K");
                assert(g@ =~= seq!["K K", "KK ", "K K"]);
            }
            Some(g)
        },
        'L' | 'l' => {
            let g: [&'static str; 3] = ["L  ", "L  ", "LLL"];
            proof {
                reveal_strlit("L  ");
                reveal_strlit("L  ");
                reveal_strlit("LLL");
                vstd::string::is_ascii_spec_bytes("L  ");
                vstd::string::is_ascii_spec_bytes("L  ");
                vstd::string::is_ascii_spec_bytes("LLL");
                assert(g@ =~= seq!["L  ", "L  ", "LLL"]);
            }
            Some(g)
        },
        'M' | 'm' => {
            let g: [&'static str; 3] = ["M M", "MMM", "M M"];
            proof {
                reveal_strlit("M M");
                reveal_strlit("MMM");
                reveal_strlit("M M");
                vstd::string::is_ascii_spec_bytes("M M");
                vstd::string::is_ascii_spec_bytes("MMM");
                vstd::string::is_ascii_spec_bytes("M M");
                assert(g@ =~= seq!["M M", "MMM", "M M"]);
            }
            Some(g)
        },
        'N' | 'n' => {
            let g: [&'static str; 3] = ["N N", "NNN", "N N"];
            proof {
                reveal_strlit("N N");
                reveal_strlit("NNN");
                reveal_strlit("N N");
                vstd::string::is_ascii_spec_bytes("N N");
                vstd::string::is_ascii_spec_bytes("NNN");
                vstd::string::is_ascii_spec_bytes("N N");
                assert(g@ =~= seq!["N N", "NNN", "N N"]);
            }
            Some(g)
        },
        'O' | 'o' => {
            let g: [&'static str; 3] = [" O ", "O O", " O "];
            proof {
                reveal_strlit(" O ");
                reveal_strlit("O O");
                reveal_strlit(" O ");
                vstd::string::is_ascii_spec_bytes(" O ");
                vstd::string::is_ascii_spec_bytes("O O");
                vstd::string::is_ascii_spec_bytes(" O ");
                assert(g@ =~= seq![" O ", "O O", " O "]);
            }
            Some(g)
        },
        'P' | 'p' => {
            let g: [&'static str; 3] = ["PP ", "PP ", "P  "];
            proof {
                reveal_strlit("PP ");
                reveal_strlit("PP ");
                reveal_strlit("P  ");
                vstd::string::is_ascii_spec_bytes("PP ");
                vstd::string::is_ascii_spec_bytes("PP ");
                vstd::string::is_ascii_spec_bytes("P  ");
                assert(g@ =~= seq!["PP ", "PP ", "P  "]);
            }
            Some(g)
        },
        'Q' | 'q' => {
            let g: [&'static str; 3] = [" Q ", "Q Q", " QQ"];
            proof {
                reveal_strlit(" Q ");
                reveal_strlit("Q Q");
                reveal_strlit(" QQ");
                vstd::string::is_ascii_spec_bytes(" Q ");
                vstd::string::is_ascii_spec_bytes("Q Q");
                vstd::string::is_ascii_spec_bytes(" QQ");
                assert(g@ =~= seq![" Q ", "Q Q", " QQ"]);
            }
            Some(g)
        },
        'R' | 'r' => {
            let g: [&'static str; 3] = ["RR ", "RR ", "R R"];
            proof {
                reveal_strlit("RR ");
                reveal_strlit("RR ");
                reveal_strlit("R R");
                vstd::string::is_ascii_spec_bytes("RR ");
                vstd::string::is_ascii_spec_bytes("RR ");
                vstd::string::is_ascii_spec_bytes("R R");
                assert(g@ =~= seq!["RR ", "RR ", "R R"]);
            }
            Some(g)
        },
        'S' | 's' => {
            let g: [&'static str; 3] = [" SS", " S ", "SS "];
            proof {
                reveal_strlit(" SS");
                reveal_strlit(" S ");
                reveal_strlit("SS ");
                vstd::string::is_ascii_spec_bytes(" SS");
                vstd::string::is_ascii_spec_bytes(" S ");
                vstd::string::is_ascii_spec_bytes("SS ");
                assert(g@ =~= seq![" SS", " S ", "SS "]);
            }
            Some(g)
        },
        'T' | 't' => {
            let g: [&'static str; 3] = ["TTT", " T ", " T "];
            proof {
                reveal_strlit("TTT");
                reveal_strlit(" T ");
                reveal_strlit(" T ");
                vstd::string::is_ascii_spec_bytes("TTT");
                vstd::string::is_ascii_spec_bytes(" T ");
                vstd::string::is_ascii_spec_bytes(" T ");
                assert(g@ =~= seq!["TTT", " T ", " T "]);
            }
            Some(g)
        },
        'U' | 'u' => {
            let g: [&'static str; 3] = ["U U", "U U", "UUU"];
            proof {
                reveal_strlit("U U");
                reveal_strlit("U U");
                reveal_strlit("UUU");
                vstd::string::is_ascii_spec_bytes("U U");
                vstd::string::is_ascii_spec_bytes("U U");
                vstd::string::is_ascii_spec_bytes("UUU");
                assert(g@ =~= seq!["U U", "U U", "UUU"]);
            }
            Some(g)
        },
        'V' | 'v' => {
            let g: [&'static str; 3] = ["V V", "V V", " V "];
            proof {
                reveal_strlit("V V");
                reveal_strlit("V V");
                reveal_strlit(" V ");
                vstd::string::is_ascii_spec_bytes("V V");
                vstd::string::is_ascii_spec_bytes("V V");
                vstd::string::is_ascii_spec_bytes(" V ");
                assert(g@ =~= seq!["V V", "V V", " V "]);
            }
            Some(g)
        },
        'W' | 'w' => {
            let g: [&'static str; 3] = ["W W", "WWW", "W W"];
            proof {
                reveal_strlit("W W");
                reveal_strlit("WWW");
                reveal_strlit("W W");
                vstd::string::is_ascii_spec_bytes("W W");
                vstd::string::is_ascii_spec_bytes("WWW");
                vstd::string::is_ascii_spec_bytes("W W");
                assert(g@ =~= seq!["W W", "WWW", "W W"]);
            }
            Some(g)
        },
        'X' | 'x' => {
            let g: [&'static str; 3] = ["X X", " X ", "X X"];
            proof {
                reveal_strlit("X X");
                reveal_strlit(" X ");
                reveal_strlit("X X");
                vstd::string::is_ascii_spec_bytes("X X");
                vstd::string::is_ascii_spec_bytes(" X ");
                vstd::string::is_ascii_spec_bytes("X X");
                assert(g@ =~= seq!["X X", " X ", "X X"]);
            }
            Some(g)
        },
        'Y' | 'y' => {
            let g: [&'static str; 3] = ["Y Y", " Y ", " Y "];
            proof {
                reveal_strlit("Y Y");
                reveal_strlit(" Y ");
                reveal_strlit(" Y ");
                vstd::string::is_ascii_spec_bytes("Y Y");
                vstd::string::is_ascii_spec_bytes(" Y ");
                vstd::string::is_ascii_spec_bytes(" Y ");
                assert(g@ =~= seq!["Y Y", " Y ", " Y "]);
            }
            Some(g)
        },
        'Z' | 'z' => {
            let g: [&'static str; 3] = ["ZZZ", " Z ", "ZZZ"];
            proof {
                reveal_strlit("ZZZ");
                reveal_strlit(" Z ");
                reveal_strlit("ZZZ");
                vstd::string::is_ascii_spec_bytes("ZZZ");
                vstd::string::is_ascii_spec_bytes(" Z ");
                vstd::string::is_ascii_spec_bytes("ZZZ");
                assert(g@ =~= seq!["ZZZ", " Z ", "ZZZ"]);
            }
            Some(g)
        },
        '0' => {
            let g: [&'static str; 3] = [" 0 ", "0 0", " 0 "];
            proof {
                reveal_strlit(" 0 ");
                reveal_strlit("0 0");
                reveal_strlit(" 0 ");
                vstd::string::is_ascii_spec_bytes(" 0 ");
                vstd::string::is_ascii_spec_bytes("0 0");
                vstd::string::is_ascii_spec_bytes(" 0 ");
                assert(g@ =~= seq![" 0 ", "0 0", " 0 "]);
            }
            Some(g)
        },
        '1' => {
            let g: [&'static str; 3] = [" 1 ", " 1 ", " 1 "];
            proof {
                reveal_strlit(" 1 ");
                reveal_strlit(" 1 ");
                reveal_strlit(" 1 ");
                vstd::string::is_ascii_spec_bytes(" 1 ");
                vstd::string::is_ascii_spec_bytes(" 1 ");
                vstd::string::is_ascii_spec_bytes(" 1 ");
                assert(g@ =~= seq![" 1 ", " 1 ", " 1 "]);
            }
            Some(g)
        },
        '2' => {
            let g: [&'static str; 3] = ["22 ", " 2 ", "222"];
            proof {
                reveal_strlit("22 ");
                reveal_strlit(" 2 ");
                reveal_strlit("222");
                vstd::string::is_ascii_spec_bytes("22 ");
                vstd::string::is_ascii_spec_bytes(" 2 ");
                vstd::string::is_ascii_spec_bytes("222");
                assert(g@ =~= seq!["22 ", " 2 ", "222"]);
            }
            Some(g)
        },
        '3' => {
            let g: [&'static str; 3] = ["33 ", " 33", "33 "];
            proof {
                reveal_strlit("33 ");
                reveal_strlit(" 33");
                reveal_strlit("33 ");
                vstd::string::is_ascii_spec_bytes("33 ");
                vstd::string::is_ascii_spec_bytes(" 33");
                vstd::string::is_ascii_spec_bytes("33 ");
                assert(g@ =~= seq!["33 ", " 33", "33 "]);
            }
            Some(g)
        },
        '4' => {
            let g: [&'static str; 3] = ["4 4", "444", "  4"];
            proof {
                reveal_strlit("4 4");
                reveal_strlit("444");
                reveal_strlit("  4");
                vstd::string::is_ascii_spec_bytes("4 4");
                vstd::string::is_ascii_spec_bytes("444");
                vstd::string::is_ascii_spec_bytes("  4");
                assert(g@ =~= seq!["4 4", "444", "  4"]);
            }
            Some(g)
        },
        '5' => {
            let g: [&'static str; 3] = ["555", "55 ", " 55"];
            proof {
                reveal_strlit("555");
                reveal_strlit("55 ");
                reveal_strlit(" 55");
                vstd::string::is_ascii_spec_bytes("555");
                vstd::string::is_ascii_spec_bytes("55 ");
                vstd::string::is_ascii_spec_bytes(" 55");
                assert(g@ =~= seq!["555", "55 ", " 55"]);
            }
            Some(g)
        },
        '6' => {
            let g: [&'static str; 3] = [" 66", "66 ", "666"];
            proof {
                reveal_strlit(" 66");
                reveal_strlit("66 ");
                reveal_strlit("666");
                vstd::string::is_ascii_spec_bytes(" 66");
                vstd::string::is_ascii_spec_bytes("66 ");
                vstd::string::is_ascii_spec_bytes("666");
                assert(g@ =~= seq![" 66", "66 ", "666"]);
            }
            Some(g)
        },
        '7' => {
            let g: [&'static str; 3] = ["777", "  7", "  7"];
            proof {
                reveal_strlit("777");
                reveal_strlit("  7");
                reveal_strlit("  7");
                vstd::string::is_ascii_spec_bytes("777");
                vstd::string::is_ascii_spec_bytes("  7");
                vstd::string::is_ascii_spec_bytes("  7");
                assert(g@ =~= seq!["777", "  7", "  7"]);
            }
            Some(g)
        },
        '8' => {
            let g: [&'static str; 3] = [" 8 ", "8 8", " 8 "];
            proof {
                reveal_strlit(" 8 ");
                reveal_strlit("8 8");
                reveal_strlit(" 8 ");
                vstd::string::is_ascii_spec_bytes(" 8 ");
                vstd::string::is_ascii_spec_bytes("8 8");
                vstd::string::is_ascii_spec_bytes(" 8 ");
                assert(g@ =~= seq![" 8 ", "8 8", " 8 "]);
            }
            Some(g)
        },
        '9' => {
            let g: [&'static str; 3] = ["999", " 99", " 99"];
            proof {
                reveal_strlit("999");
                reveal_strlit(" 99");
                reveal_strlit(" 99");
                vstd::string::is_ascii_spec_bytes("999");
                vstd::string::is_ascii_spec_bytes(" 99");
                vstd::string::is_ascii_spec_bytes(" 99");
                assert(g@ =~= seq!["999", " 99", " 99"]);
            }
            Some(g)
        },
        ' ' => {
            let g: [&'static str; 3] = ["   ", "   ", "   "];
            proof {
                reveal_strlit("   ");
                reveal_strlit("   ");
                reveal_strlit("   ");
                vstd::string::is_ascii_spec_bytes("   ");
                vstd::string::is_ascii_spec_bytes("   ");
                vstd::string::is_ascii_spec_bytes("   ");
                assert(g@ =~= seq!["   ", "   ", "   "]);
            }
            Some(g)
        },
        '-' => {
            let g: [&'static str; 3] = ["   ", "---", "   "];
            proof {
                reveal_strlit("   ");
                reveal_strlit("---");
                reveal_strlit("   ");
                vstd::string::is_ascii_spec_bytes("   ");
                vstd::string::is_ascii_spec_bytes("---");
                vstd::string::is_ascii_spec_bytes("   ");
                assert(g@ =~= seq!["   ", "---", "   "]);
            }
            Some(g)
        },
        '.' => {
            let g: [&'static str; 3] = ["   ", "   ", " . "];
            proof {
                reveal_strlit("   ");
                reveal_strlit("   ");
                reveal_strlit(" . ");
                vstd::string::is_ascii_spec_bytes("   ");
                vstd::string::is_ascii_spec_bytes("   ");
                vstd::string::is_ascii_spec_bytes(" . ");
                assert(g@ =~= seq!["   ", "   ", " . "]);
            }
            Some(g)
        },
        '!' => {
            let g: [&'static str; 3] = [" ! ", " ! ", " ! "];
            proof {
                reveal_strlit(" ! ");
                reveal_strlit(" ! ");
                reveal_strlit(" ! ");
                vstd::string::is_ascii_spec_bytes(" ! ");
                vstd::string::is_ascii_spec_bytes(" ! ");
                vstd::string::is_ascii_spec_bytes(" ! ");
                assert(g@ =~= seq![" ! ", " ! ", " ! "]);
            }
            Some(g)
        },
        '?' => {
            let g: [&'static str; 3] = ["?? ", " ? ", " ? "];
            proof {
                reveal_strlit("?? ");
                reveal_strlit(" ? ");
                reveal_strlit(" ? ");
                vstd::string::is_ascii_spec_bytes("?? ");
                vstd::string::is_ascii_spec_bytes(" ? ");
                vstd::string::is_ascii_spec_bytes(" ? ");
                assert(g@ =~= seq!["?? ", " ? ", " ? "]);
            }
            Some(g)
        },
        '\'' => {
            let g: [&'static str; 3] = [" ' ", "   ", "   "];
            proof {
                reveal_strlit(" ' ");
                reveal_strlit("   ");
                reveal_strlit("   ");
                vstd::string::is_ascii_spec_bytes(" ' ");
                vstd::string::is_ascii_spec_bytes("   ");
                vstd::string::is_ascii_spec_bytes("   ");
                assert(g@ =~= seq![" ' ", "   ", "   "]);
            }
            Some(g)
        },
        '(' => {
            let g: [&'static str; 3] = [" ( ", "(  ", " ( "];
            proof {
                reveal_strlit(" ( ");
                reveal_strlit("(  ");
                reveal_strlit(" ( ");
                vstd::string::is_ascii_spec_bytes(" ( ");
                vstd::string::is_ascii_spec_bytes("(  ");
                vstd::string::is_ascii_spec_bytes(" ( ");
                assert(g@ =~= seq![" ( ", "(  ", " ( "]);
            }
            Some(g)
        },
        ')' => {
            let g: [&'static str; 3] = [" ) ", "  )", " ) "];
            proof {
                reveal_strlit(" ) ");
                reveal_strlit("  )");
                reveal_strlit(" ) ");
                vstd::string::is_ascii_spec_bytes(" ) ");
                vstd::string::is_ascii_spec_bytes("  )");
                vstd::string::is_ascii_spec_bytes(" ) ");
                assert(g@ =~= seq![" ) ", "  )", " ) "]);
            }
            Some(g)
        },
        '"' => {
            let g: [&'static str; 3] = ["\" \"", "   ", "   "];
            proof {
                reveal_strlit("\" \"");
                reveal_strlit("   ");
                vstd::string::is_ascii_spec_bytes("\" \"");
                vstd::string::is_ascii_spec_bytes("   ");
                assert(g@ =~= seq!["\" \"", "   ", "   "]);
            }
            Some(g)
        },
        '&' => {
            let g: [&'static str; 3] = [" & ", "& &", " &&"];
            proof {
                reveal_strlit(" & ");
                reveal_strlit("& &");
                reveal_strlit(" &&");
                vstd::string::is_ascii_spec_bytes(" & ");
                vstd::string::is_ascii_spec_bytes("& &");
                vstd::string::is_ascii_spec_bytes(" &&");
                assert(g@ =~= seq![" & ", "& &", " &&"]);
            }
            Some(g)
        },
        _ => Option::None,
    }
}

/// The 5-row banner glyph of a character; letters match
/// case-insensitively. `None` for characters the font does not cover.
pub fn get_figlet_char(c: char) -> (r: Option<[&'static str; 5]>)
    ensures
        r matches Some(g) ==> g@.len() == 5 && (forall|k: int|
            0 <= k < 5 ==> (#[trigger] g@[k])@.len() == g@[k].spec_bytes().len() && g@[
                k
            ].spec_bytes().len() <= 16),
{
    match c {
        'A' | 'a' => {
            let g: [&'static str; 5] = ["  _   ", " / \\  ", "/ _ \\ ", "| |_| |", "|_| |_|"];
            proof {
                reveal_strlit("  _   ");
                reveal_strlit(" / \\  ");
                reveal_strlit("/ _ \\ ");
                reveal_strlit("| |_| |");
                reveal_strlit("|_| |_|");
                vstd::string::is_ascii_spec_bytes("  _   ");
                vstd::string::is_ascii_spec_bytes(" / \\  ");
                vstd::string::is_ascii_spec_bytes("/ _ \\ ");
                vstd::string::is_ascii_spec_bytes("| |_| |");
                vstd::string::is_ascii_spec_bytes("|_| |_|");
                assert(g@ =~= seq!["  _   ", " / \\  ", "/ _ \\ ", "| |_| |", "|_| |_|"]);
            }
            Some(g)
        },
        'B' | 'b' => {
            let g: [&'static str; 5] = [" ___  ", "| _ ) ", "| _ \\ ", "|___/ ", "      "];
            proof {
                reveal_strlit(" ___  ");
                reveal_strlit("| _ ) ");
                reveal_strlit("| _ \\ ");
                reveal_strlit("|___/ ");
                reveal_strlit("      ");
                vstd::string::is_ascii_spec_bytes(" ___  ");
                vstd::string::is_ascii_spec_bytes("| _ ) ");
                vstd::string::is_ascii_spec_bytes("| _ \\ ");
                vstd::string::is_ascii_spec_bytes("|___/ ");
                vstd::string::is_ascii_spec_bytes("      ");
                assert(g@ =~= seq![" ___  ", "| _ ) ", "| _ \\ ", "|___/ ", "      "]);
            }
            Some(g)
        },
        'C' | 'c' => {
            let g: [&'static str; 5] = ["  ___ ", " / __|", "| (__ ", " \\___|", "      "];
            proof {
                reveal_strlit("  ___ ");
                reveal_strlit(" / __|");
                reveal_strlit("| (__ ");
                reveal_strlit(" \\___|");
                reveal_strlit("      ");
                vstd::string::is_ascii_spec_bytes("  ___ ");
                vstd::string::is_ascii_spec_bytes(" / __|");
                vstd::string::is_ascii_spec_bytes("| (__ ");
                vstd::string::is_ascii_spec_bytes(" \\___|");
                vstd::string::is_ascii_spec_bytes("      ");
                assert(g@ =~= seq!["  ___ ", " / __|", "| (__ ", " \\___|", "      "]);
            }
            Some(g)
        },
        'D' | 'd' => {
            let g: [&'static str; 5] = [" ___  ", "|   \\ ", "| |) |", "|___/ ", "      "];
            proof {
                reveal_strlit(" ___  ");
                reveal_strlit("|   \\ ");
                reveal_strlit("| |) |");
                reveal_strlit("|___/ ");
                reveal_strlit("      ");
                vstd::string::is_ascii_spec_bytes(" ___  ");
                vstd::string::is_ascii_spec_bytes("|   \\ ");
                vstd::string::is_ascii_spec_bytes("| |) |");
                vstd::string::is_ascii_spec_bytes("|___/ ");
                vstd::string::is_ascii_spec_bytes("      ");
                assert(g@ =~= seq![" ___  ", "|   \\ ", "| |) |", "|___/ ", "      "]);
            }
            Some(g)
        },
        'E' | 'e' => {
            let g: [&'static str; 5] = [" ___ ", "| __|", "| _| ", "|___|", "     "];
            proof {
                reveal_strlit(" ___ ");
                reveal_strlit("| __|");
                reveal_strlit("| _| ");
                reveal_strlit("|___|");
                reveal_strlit("     ");
                vstd::string::is_ascii_spec_bytes(" ___ ");
                vstd::string::is_ascii_spec_bytes("| __|");
                vstd::string::is_ascii_spec_bytes("| _| ");
                vstd::string::is_ascii_spec_bytes("|___|");
                vstd::string::is_ascii_spec_bytes("     ");
                assert(g@ =~= seq![" ___ ", "| __|", "| _| ", "|___|", "     "]);
            }
            Some(g)
        },
        'F' | 'f' => {
            let g: [&'static str; 5] = [" ___ ", "| __|", "| _| ", "|_|  ", "     "];
            proof {
                reveal_strlit(" ___ ");
                reveal_strlit("| __|");
                reveal_strlit("| _| ");
                reveal_strlit("|_|  ");
                reveal_strlit("     ");
                vstd::string::is_ascii_spec_bytes(" ___ ");
                vstd::string::is_ascii_spec_bytes("| __|");
                vstd::string::is_ascii_spec_bytes("| _| ");
                vstd::string::is_ascii_spec_bytes("|_|  ");
                vstd::string::is_ascii_spec_bytes("     ");
                assert(g@ =~= seq![" ___ ", "| __|", "| _| ", "|_|  ", "     "]);
            }
            Some(g)
        },
        'G' | 'g' => {
            let g: [&'static str; 5] = ["  ___ ", " / __|", "| (_ |", " \\___|", "      "];
            proof {
                reveal_strlit("  ___ ");
                reveal_strlit(" / __|");
                reveal_strlit("| (_ |");
                reveal_strlit(" \\___|");
                reveal_strlit("      ");
                vstd::string::is_ascii_spec_bytes("  ___ ");
                vstd::string::is_ascii_spec_bytes(" / __|");
                vstd::string::is_ascii_spec_bytes("| (_ |");
                vstd::string::is_ascii_spec_bytes(" \\___|");
                vstd::string::is_ascii_spec_bytes("      ");
                assert(g@ =~= seq!["  ___ ", " / __|", "| (_ |", " \\___|", "      "]);
            }
            Some(g)
        },
        'H' | 'h' => {
            let g: [&'static str; 5] = [" _  _ ", "| || |", "| __ |", "|_||_|", "      "];
            proof {
                reveal_strlit(" _  _ ");
                reveal_strlit("| || |");
                reveal_strlit("| __ |");
                reveal_strlit("|_||_|");
                reveal_strlit("      ");
                vstd::string::is_ascii_spec_bytes(" _  _ ");
                vstd::string::is_ascii_spec_bytes("| || |");
                vstd::string::is_ascii_spec_bytes("| __ |");
                vstd::string::is_ascii_spec_bytes("|_||_|");
                vstd::string::is_ascii_spec_bytes("      ");
                assert(g@ =~= seq![" _  _ ", "| || |", "| __ |", "|_||_|", "      "]);
            }
            Some(g)
        },
        'I' | 'i' => {
            let g: [&'static str; 5] = [" ___ ", "|_ _|", " | | ", "|___|", "     "];
            proof {
                reveal_strlit(" ___ ");
                reveal_strlit("|_ _|");
                reveal_strlit(" | | ");
                reveal_strlit("|___|");
                reveal_strlit("     ");
                vstd::string::is_ascii_spec_bytes(" ___ ");
                vstd::string::is_ascii_spec_bytes("|_ _|");
                vstd::string::is_ascii_spec_bytes(" | | ");
                vstd::string::is_ascii_spec_bytes("|___|");
                vstd::string::is_ascii_spec_bytes("     ");
                assert(g@ =~= seq![" ___ ", "|_ _|", " | | ", "|___|", "     "]);
            }
            Some(g)
        },
        'J' | 'j' => {
            let g: [&'static str; 5] = ["    _ ", " _ | |", "| || |", " \\__/ ", "      "];
            proof {
                reveal_strlit("    _ ");
                reveal_strlit(" _ | |");
                reveal_strlit("| || |");
                reveal_strlit(" \\__/ ");
                reveal_strlit("      ");
                vstd::string::is_ascii_spec_bytes("    _ ");
                vstd::string::is_ascii_spec_bytes(" _ | |");
                vstd::string::is_ascii_spec_bytes("| || |");
                vstd::string::is_ascii_spec_bytes(" \\__/ ");
                vstd::string::is_ascii_spec_bytes("      ");
                assert(g@ =~= seq!["    _ ", " _ | |", "| || |", " \\__/ ", "      "]);
            }
            Some(g)
        },
        'K' | 'k' => {
            let g: [&'static str; 5] = [" _  __", "| |/ /", "| ' < ", "|_|\\_\\", "      "];
            proof {
                reveal_strlit(" _  __");
                reveal_strlit("| |/ /");
                reveal_strlit("| ' < ");
                reveal_strlit("|_|\\_\\");
                reveal_strlit("      ");
                vstd::string::is_ascii_spec_bytes(" _  __");
                vstd::string::is_ascii_spec_bytes("| |/ /");
                vstd::string::is_ascii_spec_bytes("| ' < ");
                vstd::string::is_ascii_spec_bytes("|_|\\_\\");
                vstd::string::is_ascii_spec_bytes("      ");
                assert(g@ =~= seq![" _  __", "| |/ /", "| ' < ", "|_|\\_\\", "      "]);
            }
            Some(g)
        },
        'L' | 'l' => {
            let g: [&'static str; 5] = [" _    ", "| |   ", "| |__ ", "|____|", "      "];
            proof {
                reveal_strlit(" _    ");
                reveal_strlit("| |   ");
                reveal_strlit("| |__ ");
                reveal_strlit("|____|");
                reveal_strlit("      ");
                vstd::string::is_ascii_spec_bytes(" _    ");
                vstd::string::is_ascii_spec_bytes("| |   ");
                vstd::string::is_ascii_spec_bytes("| |__ ");
                vstd::string::is_ascii_spec_bytes("|____|");
                vstd::string::is_ascii_spec_bytes("      ");
                assert(g@ =~= seq![" _    ", "| |   ", "| |__ ", "|____|", "      "]);
            }
            Some(g)
        },
        'M' | 'm' => {
            let g: [&'static str; 5] = [" __  __ ", "|  \\/  |", "| |\\/| |", "|_|  |_|", "        "];
            proof {
                reveal_strlit(" __  __ ");
                reveal_strlit("|  \\/  |");
                reveal_strlit("| |\\/| |");
                reveal_strlit("|_|  |_|");
                reveal_strlit("        ");
                vstd::string::is_ascii_spec_bytes(" __  __ ");
                vstd::string::is_ascii_spec_bytes("|  \\/  |");
                vstd::string::is_ascii_spec_bytes("| |\\/| |");
                vstd::string::is_ascii_spec_bytes("|_|  |_|");
                vstd::string::is_ascii_spec_bytes("        ");
                assert(g@ =~= seq![" __  __ ", "|  \\/  |", "| |\\/| |", "|_|  |_|", "        "]);
            }
            Some(g)
        },
        'N' | 'n' => {
            let g: [&'static str; 5] = [" _  _ ", "| \\| |", "| .` |", "|_|\\_|", "      "];
            proof {
                reveal_strlit(" _  _ ");
                reveal_strlit("| \\| |");
                reveal_strlit("| .` |");
                reveal_strlit("|_|\\_|");
                reveal_strlit("      ");
                vstd::string::is_ascii_spec_bytes(" _  _ ");
                vstd::string::is_ascii_spec_bytes("| \\| |");
                vstd::string::is_ascii_spec_bytes("| .` |");
                vstd::string::is_ascii_spec_bytes("|_|\\_|");
                vstd::string::is_ascii_spec_bytes("      ");
                assert(g@ =~= seq![" _  _ ", "| \\| |", "| .` |", "|_|\\_|", "      "]);
            }
            Some(g)
        },
        'O' | 'o' => {
            let g: [&'static str; 5] = ["  ___  ", " / _ \\ ", "| (_) |", " \\___/ ", "       "];
            proof {
                reveal_strlit("  ___  ");
                reveal_strlit(" / _ \\ ");
                reveal_strlit("| (_) |");
                reveal_strlit(" \\___/ ");
                reveal_strlit("       ");
                vstd::string::is_ascii_spec_bytes("  ___  ");
                vstd::string::is_ascii_spec_bytes(" / _ \\ ");
                vstd::string::is_ascii_spec_bytes("| (_) |");
                vstd::string::is_ascii_spec_bytes(" \\___/ ");
                vstd::string::is_ascii_spec_bytes("       ");
                assert(g@ =~= seq!["  ___  ", " / _ \\ ", "| (_) |", " \\___/ ", "       "]);
            }
            Some(g)
        },
        'P' | 'p' => {
            let g: [&'static str; 5] = [" ___ ", "| _ \\", "|  _/", "|_|  ", "     "];
            proof {
                reveal_strlit(" ___ ");
                reveal_strlit("| _ \\");
                reveal_strlit("|  _/");
                reveal_strlit("|_|  ");
                reveal_strlit("     ");
                vstd::string::is_ascii_spec_bytes(" ___ ");
                vstd::string::is_ascii_spec_bytes("| _ \\");
                vstd::string::is_ascii_spec_bytes("|  _/");
                vstd::string::is_ascii_spec_bytes("|_|  ");
                vstd::string::is_ascii_spec_bytes("     ");
                assert(g@ =~= seq![" ___ ", "| _ \\", "|  _/", "|_|  ", "     "]);
            }
            Some(g)
        },
        'Q' | 'q' => {
            let g: [&'static str; 5] = ["  ___  ", " / _ \\ ", "| (_) |", " \\__\\_\\", "       "];
            proof {
                reveal_strlit("  ___  ");
                reveal_strlit(" / _ \\ ");
                reveal_strlit("| (_) |");
                reveal_strlit(" \\__\\_\\");
                reveal_strlit("       ");
                vstd::string::is_ascii_spec_bytes("  ___  ");
                vstd::string::is_ascii_spec_bytes(" / _ \\ ");
                vstd::string::is_ascii_spec_bytes("| (_) |");
                vstd::string::is_ascii_spec_bytes(" \\__\\_\\");
                vstd::string::is_ascii_spec_bytes("       ");
                assert(g@ =~= seq!["  ___  ", " / _ \\ ", "| (_) |", " \\__\\_\\", "       "]);
            }
            Some(g)
        },
        'R' | 'r' => {
            let g: [&'static str; 5] = [" ___ ", "| _ \\", "|   /", "|_|_\\", "     "];
            proof {
                reveal_strlit(" ___ ");
                reveal_strlit("| _ \\");
                reveal_strlit("|   /");
                reveal_strlit("|_|_\\");
                reveal_strlit("     ");
                vstd::string::is_ascii_spec_bytes(" ___ ");
                vstd::string::is_ascii_spec_bytes("| _ \\");
                vstd::string::is_ascii_spec_bytes("|   /");
                vstd::string::is_ascii_spec_bytes("|_|_\\");
                vstd::string::is_ascii_spec_bytes("     ");
                assert(g@ =~= seq![" ___ ", "| _ \\", "|   /", "|_|_\\", "     "]);
            }
            Some(g)
        },
        'S' | 's' => {
            let g: [&'static str; 5] = [" ___ ", "/ __|", "\\__ \\", "|___/", "     "];
            proof {
                reveal_strlit(" ___ ");
                reveal_strlit("/ __|");
                reveal_strlit("\\__ \\");
                reveal_strlit("|___/");
                reveal_strlit("     ");
                vstd::string::is_ascii_spec_bytes(" ___ ");
                vstd::string::is_ascii_spec_bytes("/ __|");
                vstd::string::is_ascii_spec_bytes("\\__ \\");
                vstd::string::is_ascii_spec_bytes("|___/");
                vstd::string::is_ascii_spec_bytes("     ");
                assert(g@ =~= seq![" ___ ", "/ __|", "\\__ \\", "|___/", "     "]);
            }
            Some(g)
        },
        'T' | 't' => {
            let g: [&'static str; 5] = [" _____ ", "|_   _|", "  | |  ", "  |_|  ", "       "];
            proof {
                reveal_strlit(" _____ ");
                reveal_strlit("|_   _|");
                reveal_strlit("  | |  ");
                reveal_strlit("  |_|  ");
                reveal_strlit("       ");
                vstd::string::is_ascii_spec_bytes(" _____ ");
                vstd::string::is_ascii_spec_bytes("|_   _|");
                vstd::string::is_ascii_spec_bytes("  | |  ");
                vstd::string::is_ascii_spec_bytes("  |_|  ");
                vstd::string::is_ascii_spec_bytes("       ");
                assert(g@ =~= seq![" _____ ", "|_   _|", "  | |  ", "  |_|  ", "       "]);
            }
            Some(g)
        },
        'U' | 'u' => {
            let g: [&'static str; 5] = [" _   _ ", "| | | |", "| |_| |", " \\___/ ", "       "];
            proof {
                reveal_strlit(" _   _ ");
                reveal_strlit("| | | |");
                reveal_strlit("| |_| |");
                reveal_strlit(" \\___/ ");
                reveal_strlit("       ");
                vstd::string::is_ascii_spec_bytes(" _   _ ");
                vstd::string::is_ascii_spec_bytes("| | | |");
                vstd::string::is_ascii_spec_bytes("| |_| |");
                vstd::string::is_ascii_spec_bytes(" \\___/ ");
                vstd::string::is_ascii_spec_bytes("       ");
                assert(g@ =~= seq![" _   _ ", "| | | |", "| |_| |", " \\___/ ", "       "]);
            }
            Some(g)
        },
        'V' | 'v' => {
            let g: [&'static str; 5] = ["__   __", "\\ \\ / /", " \\ V / ", "  \\_/  ", "       "];
            proof {
                reveal_strlit("__   __");
                reveal_strlit("\\ \\ / /");
                reveal_strlit(" \\ V / ");
                reveal_strlit("  \\_/  ");
                reveal_strlit("       ");
                vstd::string::is_ascii_spec_bytes("__   __");
                vstd::string::is_ascii_spec_bytes("\\ \\ / /");
                vstd::string::is_ascii_spec_bytes(" \\ V / ");
                vstd::string::is_ascii_spec_bytes("  \\_/  ");
                vstd::string::is_ascii_spec_bytes("       ");
                assert(g@ =~= seq!["__   __", "\\ \\ / /", " \\ V / ", "  \\_/  ", "       "]);
            }
            Some(g)
        },
        'W' | 'w' => {
            let g: [&'static str; 5] = ["__      __", "\\ \\    / /", " \\ \\/\\/ / ", "  \\_/\\_/  ", "          "];
            proof {
                reveal_strlit("__      __");
                reveal_strlit("\\ \\    / /");
                reveal_strlit(" \\ \\/\\/ / ");
                reveal_strlit("  \\_/\\_/  ");
                reveal_strlit("          ");
                vstd::string::is_ascii_spec_bytes("__      __");
                vstd::string::is_ascii_spec_bytes("\\ \\    / /");
                vstd::string::is_ascii_spec_bytes(" \\ \\/\\/ / ");
                vstd::string::is_ascii_spec_bytes("  \\_/\\_/  ");
                vstd::string::is_ascii_spec_bytes("          ");
                assert(g@ =~= seq!["__      __", "\\ \\    / /", " \\ \\/\\/ / ", "  \\_/\\_/  ", "          "]);
            }
            Some(g)
        },
        'X' | 'x' => {
            let g: [&'static str; 5] = ["__  __", "\\ \\/ /", " >  < ", "/_/\\_\\", "      "];
            proof {
                reveal_strlit("__  __");
                reveal_strlit("\\ \\/ /");
                reveal_strlit(" >  < ");
                reveal_strlit("/_/\\_\\");
                reveal_strlit("      ");
                vstd::string::is_ascii_spec_bytes("__  __");
                vstd::string::is_ascii_spec_bytes("\\ \\/ /");
                vstd::string::is_ascii_spec_bytes(" >  < ");
                vstd::string::is_ascii_spec_bytes("/_/\\_\\");
                vstd::string::is_ascii_spec_bytes("      ");
                assert(g@ =~= seq!["__  __", "\\ \\/ /", " >  < ", "/_/\\_\\", "      "]);
            }
            Some(g)
        },
        'Y' | 'y' => {
            let g: [&'static str; 5] = ["__   __", "\\ \\ / /", " \\ V / ", "  |_|  ", "       "];
            proof {
                reveal_strlit("__   __");
                reveal_strlit("\\ \\ / /");
                reveal_strlit(" \\ V / ");
                reveal_strlit("  |_|  ");
                reveal_strlit("       ");
                vstd::string::is_ascii_spec_bytes("__   __");
                vstd::string::is_ascii_spec_bytes("\\ \\ / /");
                vstd::string::is_ascii_spec_bytes(" \\ V / ");
                vstd::string::is_ascii_spec_bytes("  |_|  ");
                vstd::string::is_ascii_spec_bytes("       ");
                assert(g@ =~= seq!["__   __", "\\ \\ / /", " \\ V / ", "  |_|  ", "       "]);
            }
            Some(g)
        },
        'Z' | 'z' => {
            let g: [&'static str; 5] = [" ____", "|_  /", " / / ", "/___|", "     "];
            proof {
                reveal_strlit(" ____");
                reveal_strlit("|_  /");
                reveal_strlit(" / / ");
                reveal_strlit("/___|");
                reveal_strlit("     ");
                vstd::string::is_ascii_spec_bytes(" ____");
                vstd::string::is_ascii_spec_bytes("|_  /");
                vstd::string::is_ascii_spec_bytes(" / / ");
                vstd::string::is_ascii_spec_bytes("/___|");
                vstd::string::is_ascii_spec_bytes("     ");
                assert(g@ =~= seq![" ____", "|_  /", " / / ", "/___|", "     "]);
            }
            Some(g)
        },
        '0' => {
            let g: [&'static str; 5] = ["  __  ", " /  \\ ", "| () |", " \\__/ ", "      "];
            proof {
                reveal_strlit("  __  ");
                reveal_strlit(" /  \\ ");
                reveal_strlit("| () |");
                reveal_strlit(" \\__/ ");
                reveal_strlit("      ");
                vstd::string::is_ascii_spec_bytes("  __  ");
                vstd::string::is_ascii_spec_bytes(" /  \\ ");
                vstd::string::is_ascii_spec_bytes("| () |");
                vstd::string::is_ascii_spec_bytes(" \\__/ ");
                vstd::string::is_ascii_spec_bytes("      ");
                assert(g@ =~= seq!["  __  ", " /  \\ ", "| () |", " \\__/ ", "      "]);
            }
            Some(g)
        },
        '1' => {
            let g: [&'static str; 5] = [" _ ", "/ |", "| |", "|_|", "   "];
            proof {
                reveal_strlit(" _ ");
                reveal_strlit("/ |");
                reveal_strlit("| |");
                reveal_strlit("|_|");
                reveal_strlit("   ");
                vstd::string::is_ascii_spec_bytes(" _ ");
                vstd::string::is_ascii_spec_bytes("/ |");
                vstd::string::is_ascii_spec_bytes("| |");
                vstd::string::is_ascii_spec_bytes("|_|");
                vstd::string::is_ascii_spec_bytes("   ");
                assert(g@ =~= seq![" _ ", "/ |", "| |", "|_|", "   "]);
            }
            Some(g)
        },
        '2' => {
            let g: [&'static str; 5] = [" ___ ", "|_  )", " / / ", "/___|", "     "];
            proof {
                reveal_strlit(" ___ ");
                reveal_strlit("|_  )");
                reveal_strlit(" / / ");
                reveal_strlit("/___|");
                reveal_strlit("     ");
                vstd::string::is_ascii_spec_bytes(" ___ ");
                vstd::string::is_ascii_spec_bytes("|_  )");
                vstd::string::is_ascii_spec_bytes(" / / ");
                vstd::string::is_ascii_spec_bytes("/___|");
                vstd::string::is_ascii_spec_bytes("     ");
                assert(g@ =~= seq![" ___ ", "|_  )", " / / ", "/___|", "     "]);
            }
            Some(g)
        },
        '3' => {
            let g: [&'static str; 5] = [" ____", "|__ /", " |_ \\", "|___/", "     "];
            proof {
                reveal_strlit(" ____");
                reveal_strlit("|__ /");
                reveal_strlit(" |_ \\");
                reveal_strlit("|___/");
                reveal_strlit("     ");
                vstd::string::is_ascii_spec_bytes(" ____");
                vstd::string::is_ascii_spec_bytes("|__ /");
                vstd::string::is_ascii_spec_bytes(" |_ \\");
                vstd::string::is_ascii_spec_bytes("|___/");
                vstd::string::is_ascii_spec_bytes("     ");
                assert(g@ =~= seq![" ____", "|__ /", " |_ \\", "|___/", "     "]);
            }
            Some(g)
        },
        '4' => {
            let g: [&'static str; 5] = [" _ _  ", "| | | ", "|_  _|", "  |_| ", "      "];
            proof {
                reveal_strlit(" _ _  ");
                reveal_strlit("| | | ");
                reveal_strlit("|_  _|");
                reveal_strlit("  |_| ");
                reveal_strlit("      ");
                vstd::string::is_ascii_spec_bytes(" _ _  ");
                vstd::string::is_ascii_spec_bytes("| | | ");
                vstd::string::is_ascii_spec_bytes("|_  _|");
                vstd::string::is_ascii_spec_bytes("  |_| ");
                vstd::string::is_ascii_spec_bytes("      ");
                assert(g@ =~= seq![" _ _  ", "| | | ", "|_  _|", "  |_| ", "      "]);
            }
            Some(g)
        },
        '5' => {
            let g: [&'static str; 5] = [" ___ ", "| __|", "|__ \\", "|___/", "     "];
            proof {
                reveal_strlit(" ___ ");
                reveal_strlit("| __|");
                reveal_strlit("|__ \\");
                reveal_strlit("|___/");
                reveal_strlit("     ");
                vstd::string::is_ascii_spec_bytes(" ___ ");
                vstd::string::is_ascii_spec_bytes("| __|");
                vstd::string::is_ascii_spec_bytes("|__ \\");
                vstd::string::is_ascii_spec_bytes("|___/");
                vstd::string::is_ascii_spec_bytes("     ");
                assert(g@ =~= seq![" ___ ", "| __|", "|__ \\", "|___/", "     "]);
            }
            Some(g)
        },
        '6' => {
            let g: [&'static str; 5] = ["  __ ", " / / ", "/ _ \\", "\\___/", "     "];
            proof {
                reveal_strlit("  __ ");
                reveal_strlit(" / / ");
                reveal_strlit("/ _ \\");
                reveal_strlit("\\___/");
                reveal_strlit("     ");
                vstd::string::is_ascii_spec_bytes("  __ ");
                vstd::string::is_ascii_spec_bytes(" / / ");
                vstd::string::is_ascii_spec_bytes("/ _ \\");
                vstd::string::is_ascii_spec_bytes("\\___/");
                vstd::string::is_ascii_spec_bytes("     ");
                assert(g@ =~= seq!["  __ ", " / / ", "/ _ \\", "\\___/", "     "]);
            }
            Some(g)
        },
        '7' => {
            let g: [&'static str; 5] = [" ____ ", "|__  |", "  / / ", " /_/  ", "      "];
            proof {
                reveal_strlit(" ____ ");
                reveal_strlit("|__  |");
                reveal_strlit("  / / ");
                reveal_strlit(" /_/  ");
                reveal_strlit("      ");
                vstd::string::is_ascii_spec_bytes(" ____ ");
                vstd::string::is_ascii_spec_bytes("|__  |");
                vstd::string::is_ascii_spec_bytes("  / / ");
                vstd::string::is_ascii_spec_bytes(" /_/  ");
                vstd::string::is_ascii_spec_bytes("      ");
                assert(g@ =~= seq![" ____ ", "|__  |", "  / / ", " /_/  ", "      "]);
            }
            Some(g)
        },
        '8' => {
            let g: [&'static str; 5] = [" ___ ", "( _ )", "/ _ \\", "\\___/", "     "];
            proof {
                reveal_strlit(" ___ ");
                reveal_strlit("( _ )");
                reveal_strlit("/ _ \\");
                reveal_strlit("\\___/");
                reveal_strlit("     ");
                vstd::string::is_ascii_spec_bytes(" ___ ");
                vstd::string::is_ascii_spec_bytes("( _ )");
                vstd::string::is_ascii_spec_bytes("/ _ \\");
                vstd::string::is_ascii_spec_bytes("\\___/");
                vstd::string::is_ascii_spec_bytes("     ");
                assert(g@ =~= seq![" ___ ", "( _ )", "/ _ \\", "\\___/", "     "]);
            }
            Some(g)
        },
        '9' => {
            let g: [&'static str; 5] = [" ___ ", "/ _ \\", "\\_, /", " /_/ ", "     "];
            proof {
                reveal_strlit(" ___ ");
                reveal_strlit("/ _ \\");
                reveal_strlit("\\_, /");
                reveal_strlit(" /_/ ");
                reveal_strlit("     ");
                vstd::string::is_ascii_spec_bytes(" ___ ");
                vstd::string::is_ascii_spec_bytes("/ _ \\");
                vstd::string::is_ascii_spec_bytes("\\_, /");
                vstd::string::is_ascii_spec_bytes(" /_/ ");
                vstd::string::is_ascii_spec_bytes("     ");
                assert(g@ =~= seq![" ___ ", "/ _ \\", "\\_, /", " /_/ ", "     "]);
            }
            Some(g)
        },
        ' ' => {
            let g: [&'static str; 5] = ["    ", "    ", "    ", "    ", "    "];
            proof {
                reveal_strlit("    ");
                reveal_strlit("    ");
                reveal_strlit("    ");
                reveal_strlit("    ");
                reveal_strlit("    ");
                vstd::string::is_ascii_spec_bytes("    ");
                vstd::string::is_ascii_spec_bytes("    ");
                vstd::string::is_ascii_spec_bytes("    ");
                vstd::string::is_ascii_spec_bytes("    ");
                vstd::string::is_ascii_spec_bytes("    ");
                assert(g@ =~= seq!["    ", "    ", "    ", "    ", "    "]);
            }
            Some(g)
        },
        '-' => {
            let g: [&'static str; 5] = ["     ", "     ", " ___ ", "|___|", "     "];
            proof {
                reveal_strlit("     ");
                reveal_strlit("     ");
                reveal_strlit(" ___ ");
                reveal_strlit("|___|");
                reveal_strlit("     ");
                vstd::string::is_ascii_spec_bytes("     ");
                vstd::string::is_ascii_spec_bytes("     ");
                vstd::string::is_ascii_spec_bytes(" ___ ");
                vstd::string::is_ascii_spec_bytes("|___|");
                vstd::string::is_ascii_spec_bytes("     ");
                assert(g@ =~= seq!["     ", "     ", " ___ ", "|___|", "     "]);
            }
            Some(g)
        },
        '.' => {
            let g: [&'static str; 5] = ["   ", "   ", " _ ", "(_)", "   "];
            proof {
                reveal_strlit("   ");
                reveal_strlit("   ");
                reveal_strlit(" _ ");
                reveal_strlit("(_)");
                reveal_strlit("   ");
                vstd::string::is_ascii_spec_bytes("   ");
                vstd::string::is_ascii_spec_bytes("   ");
                vstd::string::is_ascii_spec_bytes(" _ ");
                vstd::string::is_ascii_spec_bytes("(_)");
                vstd::string::is_ascii_spec_bytes("   ");
                assert(g@ =~= seq!["   ", "   ", " _ ", "(_)", "   "]);
            }
            Some(g)
        },
        '!' => {
            let g: [&'static str; 5] = [" _ ", "| |", "|_|", "(_)", "   "];
            proof {
                reveal_strlit(" _ ");
                reveal_strlit("| |");
                reveal_strlit("|_|");
                reveal_strlit("(_)");
                reveal_strlit("   ");
                vstd::string::is_ascii_spec_bytes(" _ ");
                vstd::string::is_ascii_spec_bytes("| |");
                vstd::string::is_ascii_spec_bytes("|_|");
                vstd::string::is_ascii_spec_bytes("(_)");
                vstd::string::is_ascii_spec_bytes("   ");
                assert(g@ =~= seq![" _ ", "| |", "|_|", "(_)", "   "]);
            }
            Some(g)
        },
        '?' => {
            let g: [&'static str; 5] = [" ___ ", "|__ \\", "  /_/", " (_) ", "     "];
            proof {
                reveal_strlit(" ___ ");
                reveal_strlit("|__ \\");
                reveal_strlit("  /_/");
                reveal_strlit(" (_) ");
                reveal_strlit("     ");
                vstd::string::is_ascii_spec_bytes(" ___ ");
                vstd::string::is_ascii_spec_bytes("|__ \\");
                vstd::string::is_ascii_spec_bytes("  /_/");
                vstd::string::is_ascii_spec_bytes(" (_) ");
                vstd::string::is_ascii_spec_bytes("     ");
                assert(g@ =~= seq![" ___ ", "|__ \\", "  /_/", " (_) ", "     "]);
            }
            Some(g)
        },
        '\'' => {
            let g: [&'static str; 5] = [" _ ", "( )", "|/ ", "   ", "   "];
            proof {
                reveal_strlit(" _ ");
                reveal_strlit("( )");
                reveal_strlit("|/ ");
                reveal_strlit("   ");
                reveal_strlit("   ");
                vstd::string::is_ascii_spec_bytes(" _ ");
                vstd::string::is_ascii_spec_bytes("( )");
                vstd::string::is_ascii_spec_bytes("|/ ");
                vstd::string::is_ascii_spec_bytes("   ");
                vstd::string::is_ascii_spec_bytes("   ");
                assert(g@ =~= seq![" _ ", "( )", "|/ ", "   ", "   "]);
            }
            Some(g)
        },
        _ => Option::None,
    }
}

/// Render a string in the block style: 3 rows of text cells, glyphs laid
/// side by side — every row is exactly three characters per input byte;
/// bytes without a glyph (or outside ASCII) become blanks.
pub fn render_ascii(text: &str) -> (rows: Vec<String>)
    ensures
        rows.len() == 3,
        forall|k: int|
            0 <= k < 3 ==> (#[trigger] rows@[k])@.len() == 3 * text.spec_bytes().len(),
{
    let bytes = text.as_bytes();
    let mut rows: Vec<String> = Vec::new();
    let mut r: usize = 0;
    while r < 3
        invariant
            bytes@ == text.spec_bytes(),
            rows.len() == r,
            forall|k: int|
                0 <= k < r ==> (#[trigger] rows@[k])@.len() == 3 * text.spec_bytes().len(),
            r <= 3,
        decreases 3 - r,
    {
        let mut row = String::new();
        let mut i: usize = 0;
        while i < bytes.len()
            invariant
                bytes@ == text.spec_bytes(),
                row@.len() == 3 * i,
                i <= bytes.len(),
                r < 3,
            decreases bytes.len() - i,
        {
            match get_ascii_char(bytes[i] as char) {
                Some(glyph) => {
                    row.append(glyph[r]);
                },
                _ => {
                    proof {
                        reveal_strlit("   ");
                    }
                    row.append("   ");
                },
            }
            i += 1;
        }
        rows.push(row);
        r += 1;
    }
    rows
}

/// Sum of the first `n` glyph widths.
pub open spec fn spec_width_sum(ws: Seq<usize>, n: int) -> int
    decreases n,
{
    if n <= 0 {
        0
    } else {
        spec_width_sum(ws, n - 1) + (if n - 1 < ws.len() {
            ws[n - 1] as int
        } else {
            0
        })
    }
}

/// Render a string in the banner style: 5 rows of text cells, each glyph
/// padded to its widest row so all five rows come out the same width;
/// bytes without a glyph become blanks.
pub fn render_figlet(text: &str) -> (rows: Vec<String>)
    ensures
        rows.len() == 5,
        forall|k: int|
            0 <= k < 5 ==> (#[trigger] rows@[k])@.len() == rows@[0]@.len(),
{
    let bytes = text.as_bytes();
    // Look every glyph up once, recording each one's padded width.
    let mut glyphs: Vec<Option<[&'static str; 5]>> = Vec::new();
    let mut widths: Vec<usize> = Vec::new();
    let mut i: usize = 0;
    while i < bytes.len()
        invariant
            glyphs.len() == i,
            widths.len() == i,
            i <= bytes.len(),
            forall|t: int|
                0 <= t < i ==> match #[trigger] glyphs@[t] {
                    Some(g) => forall|k: int|
                        0 <= k < 5 ==> (#[trigger] g@[k])@.len() == g@[k].spec_bytes().len()
                            && g@[k].spec_bytes().len() <= widths@[t] && g@[k].spec_bytes().len()
                            <= 16,
                    Option::None => widths@[t] == 4,
                },
        decreases bytes.len() - i,
    {
        match get_figlet_char(bytes[i] as char) {
            Some(glyph) => {
                let mut max_width: usize = 0;
                let mut g: usize = 0;
                while g < 5
                    invariant
                        g <= 5,
                        forall|k: int|
                            0 <= k < 5 ==> (#[trigger] glyph@[k])@.len() == glyph@[
                                k
                            ].spec_bytes().len() && glyph@[k].spec_bytes().len() <= 16,
                        forall|k: int|
                            0 <= k < g ==> #[trigger] glyph@[k].spec_bytes().len() <= max_width,
                    decreases 5 - g,
                {
                    let w = glyph[g].len();
                    proof {
                        assert(w == glyph@[g as int].spec_bytes().len());
                    }
                    if w > max_width {
                        max_width = w;
                    }
                    proof {
                        assert(glyph@[g as int].spec_bytes().len() <= max_width);
                    }
                    g += 1;
                }
                glyphs.push(Some(glyph));
                widths.push(max_width);
            },
            _ => {
                glyphs.push(None);
                widths.push(4);
            },
        }
        i += 1;
    }
    // Assemble the rows: every glyph contributes exactly its width to
    // every row, so the rows stay aligned.
    let mut rows: Vec<String> = Vec::new();
    let mut r: usize = 0;
    while r < 5
        invariant
            rows.len() == r,
            r <= 5,
            glyphs.len() == widths.len(),
            forall|t: int|
                0 <= t < glyphs.len() ==> match #[trigger] glyphs@[t] {
                    Some(g) => forall|k: int|
                        0 <= k < 5 ==> (#[trigger] g@[k])@.len() == g@[k].spec_bytes().len()
                            && g@[k].spec_bytes().len() <= widths@[t] && g@[
                            k
                        ].spec_bytes().len() <= 16,
                    Option::None => widths@[t] == 4,
                },
            forall|k: int|
                0 <= k < r ==> (#[trigger] rows@[k])@.len() == spec_width_sum(
                    widths@,
                    widths@.len() as int,
                ),
        decreases 5 - r,
    {
        let mut row = String::new();
        let mut t: usize = 0;
        while t < glyphs.len()
            invariant
                glyphs.len() == widths.len(),
                t <= glyphs.len(),
                r < 5,
                forall|u: int|
                    0 <= u < glyphs.len() ==> match #[trigger] glyphs@[u] {
                        Some(g) => forall|k: int|
                            0 <= k < 5 ==> (#[trigger] g@[k])@.len() == g@[k].spec_bytes().len()
                                && g@[k].spec_bytes().len() <= widths@[u] && g@[
                                k
                            ].spec_bytes().len() <= 16,
                        Option::None => widths@[u] == 4,
                    },
                row@.len() == spec_width_sum(widths@, t as int),
            decreases glyphs.len() - t,
        {
            match glyphs[t] {
                Some(glyph) => {
                    row.append(glyph[r]);
                    let mut pad: usize = glyph[r].len();
                    while pad < widths[t]
                        invariant
                            t < widths.len(),
                            r < 5,
                            glyphs.len() == widths.len(),
                            glyphs@[t as int] matches Some(g) && pad >= g[r as int].spec_bytes().len(),
                            row@.len() == spec_width_sum(widths@, t as int) + pad - (
                            glyphs@[t as int]->0)[r as int].spec_bytes().len() + (
                            glyphs@[t as int]->0)[r as int]@.len(),
                            pad <= widths@[t as int],
                        decreases widths@[t as int] - pad,
                    {
                        proof {
                            reveal_strlit(" ");
                        }
                        row.append(" ");
                        pad += 1;
                    }
                    proof {
                        assert(pad == widths@[t as int]);
                        assert(row@.len() == spec_width_sum(widths@, t as int) + widths@[
                            t as int
                        ]);
                    }
                },
                _ => {
                    proof {
                        reveal_strlit("    ");
                        assert(("    ")@.len() == 4);
                    }
                    row.append("    ");
                    proof {
                        assert(widths@[t as int] == 4);
                        assert(row@.len() == spec_width_sum(widths@, t as int) + widths@[
                            t as int
                        ]);
                    }
                },
            }
            proof {
                assert(spec_width_sum(widths@, t as int + 1) == spec_width_sum(widths@, t as int)
                    + widths@[t as int]);
            }
            t += 1;
        }
        rows.push(row);
        r += 1;
    }
    rows
}

/// Width in text cells of a string rendered in the block style: three
/// cells per input byte (saturating at the machine limit).
pub fn ascii_width(text: &str) -> (w: usize)
    ensures
        w == if 3 * (text.spec_bytes().len() as int) <= usize::MAX {
            3 * (text.spec_bytes().len() as int)
        } else {
            usize::MAX as int
        },
{
    let bytes = text.as_bytes();
    let mut total: usize = 0;
    let mut i: usize = 0;
    while i < bytes.len()
        invariant
            bytes@ == text.spec_bytes(),
            i <= bytes.len(),
            total == if 3 * i <= usize::MAX {
                3 * i
            } else {
                usize::MAX as int
            },
        decreases bytes.len() - i,
    {
        let cw: usize = match get_ascii_char(bytes[i] as char) {
            Some(glyph) => glyph[0].len(),
            _ => 3,
        };
        total = if total <= usize::MAX - cw {
            total + cw
        } else {
            usize::MAX
        };
        i += 1;
    }
    total
}

/// Width in text cells of a string rendered in the banner style.
pub fn figlet_width(text: &str) -> (w: usize)
{
    let bytes = text.as_bytes();
    let mut total: usize = 0;
    let mut i: usize = 0;
    while i < bytes.len()
        decreases bytes.len() - i,
    {
        let cw: usize = match get_figlet_char(bytes[i] as char) {
            Some(glyph) => {
                let mut max_width: usize = 0;
                let mut g: usize = 0;
                while g < 5
                    invariant
                        max_width <= usize::MAX,
                    decreases 5 - g,
                {
                    let w = glyph[g].len();
                    if w > max_width {
                        max_width = w;
                    }
                    g += 1;
                }
                max_width
            },
            _ => 4,
        };
        total = if total <= usize::MAX - cw {
            total + cw
        } else {
            usize::MAX
        };
        i += 1;
    }
    total
}


} // verus!
