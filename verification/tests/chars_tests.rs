//! Lookups in the character-name table.

use pixel_caster::chars::CharTable;
use pixel_caster::chars::default_chars;
use pixel_caster::chars::find_key_for_value;

#[test]
fn hashmap_test() {
    let chars: CharTable = default_chars();
    assert_eq!(find_key_for_value(&chars, 'a'), Some("LATIN SMALL LETTER A".to_string()));
    assert_eq!(find_key_for_value(&chars, 'A'), Some("LATIN CAPITAL LETTER A".to_string()));

    assert_eq!(chars.get_char_by_char_name_with_default("DIGIT ZERO"), '0');
    assert_eq!(chars.get_char_by_char_name_with_default("banana"), '█');
}

#[test]
fn char_name_round_trip() {
    let chars: CharTable = default_chars();
    let name = chars.get_char_name_by_char('7').unwrap();
    assert_eq!(name, "DIGIT SEVEN".to_string());
    assert_eq!(chars.get_char_by_char_name_with_default(&name), '7');
    assert_eq!(chars.get_char_name_by_char('\u{2588}'), None);
}
