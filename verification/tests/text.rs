//! Name and path handling: UTF-16 decoding, short-name trimming, and
//! path splitting, through the directory and volume layers.

use kurumi::directory::{decode_directories, LongFileName};
use kurumi::text::{chars_eq, chars_to_string, short_name_chars, split_slash, str_chars, utf16_chars};

#[test]
fn plain_utf16_units_decode_to_their_characters() {
    let units: Vec<u16> = "kernel".encode_utf16().collect();
    let chars = utf16_chars(&units);
    let text: String = chars.iter().collect();
    assert_eq!(text, "kernel");
}

#[test]
fn surrogate_pairs_combine() {
    let units: Vec<u16> = "a\u{1F600}b".encode_utf16().collect();
    assert_eq!(units.len(), 4);
    let chars = utf16_chars(&units);
    let text: String = chars.iter().collect();
    assert_eq!(text, "a\u{1F600}b");
}

#[test]
fn a_lone_surrogate_becomes_the_replacement_character() {
    let units: Vec<u16> = vec![0x0061, 0xD800, 0x0062];
    let chars = utf16_chars(&units);
    let text: String = chars.iter().collect();
    assert_eq!(text, "a\u{FFFD}b");
}

#[test]
fn short_names_lose_their_padding_on_both_sides() {
    assert_eq!(collect(short_name_chars(&b"README     ".to_vec())), "README");
    assert_eq!(collect(short_name_chars(&b"  MID  ".to_vec())), "MID");
    assert_eq!(collect(short_name_chars(&b"       ".to_vec())), "");
    assert_eq!(collect(short_name_chars(&b"A B".to_vec())), "A B");
}

fn collect(chars: Vec<char>) -> String {
    chars.iter().collect()
}

#[test]
fn paths_split_at_every_slash() {
    let segments = split_slash(&str_chars("DOCS/README"));
    assert_eq!(segments.len(), 2);
    assert_eq!(collect(segments[0].clone()), "DOCS");
    assert_eq!(collect(segments[1].clone()), "README");

    let segments = split_slash(&str_chars("A//B/"));
    assert_eq!(segments.len(), 4);
    assert_eq!(collect(segments[0].clone()), "A");
    assert_eq!(collect(segments[1].clone()), "");
    assert_eq!(collect(segments[2].clone()), "B");
    assert_eq!(collect(segments[3].clone()), "");

    let segments = split_slash(&str_chars(""));
    assert_eq!(segments.len(), 1);
    assert_eq!(collect(segments[0].clone()), "");
}

#[test]
fn character_comparison_is_exact() {
    assert!(chars_eq(&str_chars("DOCS"), &str_chars("DOCS")));
    assert!(!chars_eq(&str_chars("DOCS"), &str_chars("docs")));
    assert!(!chars_eq(&str_chars("DOCS"), &str_chars("DOC")));
}

#[test]
fn chars_collect_back_into_the_same_string() {
    let text = "mixed \u{00E9}\u{1F600} text";
    assert_eq!(chars_to_string(&str_chars(text)), text);
}

#[test]
fn a_long_name_slot_yields_its_fragment() {
    let mut bytes = vec![0u8; 32];
    bytes[0] = 0x01;
    bytes[11] = 0x0F;
    let unit_offsets = [1, 3, 5, 7, 9, 14, 16, 18, 20, 22, 24, 28, 30];
    let units: Vec<u16> = "World.txt".encode_utf16().collect();
    for (k, &off) in unit_offsets.iter().enumerate() {
        let unit = if k < units.len() {
            units[k]
        } else if k == units.len() {
            0x0000
        } else {
            0xFFFF
        };
        bytes[off] = unit as u8;
        bytes[off + 1] = (unit >> 8) as u8;
    }
    let lfn = LongFileName::parse(&bytes, 0);
    assert_eq!(lfn.get_name(), "World.txt");
}

#[test]
fn a_fragment_with_no_terminator_uses_all_thirteen_units() {
    let mut bytes = vec![0u8; 32];
    bytes[0] = 0x01;
    bytes[11] = 0x0F;
    let unit_offsets = [1, 3, 5, 7, 9, 14, 16, 18, 20, 22, 24, 28, 30];
    let units: Vec<u16> = "THIRTEENCHAR!".encode_utf16().collect();
    assert_eq!(units.len(), 13);
    for (k, &off) in unit_offsets.iter().enumerate() {
        bytes[off] = units[k] as u8;
        bytes[off + 1] = (units[k] >> 8) as u8;
    }
    let lfn = LongFileName::parse(&bytes, 0);
    assert_eq!(lfn.get_name(), "THIRTEENCHAR!");
}

#[test]
fn decoding_an_empty_region_yields_nothing() {
    let bytes: Vec<u8> = Vec::new();
    let mut dirs = Vec::new();
    decode_directories(&bytes, &mut dirs);
    assert!(dirs.is_empty());
}
