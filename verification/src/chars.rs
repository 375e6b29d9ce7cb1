//! The read-only table tying character names to characters.
//!
//! Glyphs exported to files are named by character names such as
//! `LATIN SMALL LETTER A`, and a directory of such files is read back by
//! looking the names up here.  The table is plain configuration data: a
//! list of name/character pairs searched front to back, with a fixed
//! fallback character for names it does not hold.  The listing itself
//! is pinned, entry by entry, by [`default_pair`], so contracts
//! downstream (a glyph's display name, the name round trip) rest on the
//! table's actual content rather than on whatever a builder produced.

use vstd::prelude::*;
use vstd::string::StringExecFns;

verus! {

/// A list of name/character pairs, searched in order; the first match
/// wins, so duplicate names or characters are harmless.
pub struct CharTable {
    /// The pairs, in lookup order.
    pub entries: Vec<(String, char)>,
}

/// How many entries the stock table holds.
pub open spec fn default_len() -> int {
    97
}

/// Entry `i` of the stock table: the basic Latin letters under their
/// Unicode names, the ten digits, and the punctuation the glyph sheets
/// use.  Indexing the listing keeps both the builder's contract and
/// the lookup lemma cheap to state.
pub open spec fn default_pair(i: int) -> (Seq<char>, char) {
    if i == 0 {
        ("LATIN CAPITAL LETTER A"@, 'A')
    } else if i == 1 {
        ("LATIN CAPITAL LETTER B"@, 'B')
    } else if i == 2 {
        ("LATIN CAPITAL LETTER C"@, 'C')
    } else if i == 3 {
        ("LATIN CAPITAL LETTER D"@, 'D')
    } else if i == 4 {
        ("LATIN CAPITAL LETTER E"@, 'E')
    } else if i == 5 {
        ("LATIN CAPITAL LETTER F"@, 'F')
    } else if i == 6 {
        ("LATIN CAPITAL LETTER G"@, 'G')
    } else if i == 7 {
        ("LATIN CAPITAL LETTER H"@, 'H')
    } else if i == 8 {
        ("LATIN CAPITAL LETTER I"@, 'I')
    } else if i == 9 {
        ("LATIN CAPITAL LETTER J"@, 'J')
    } else if i == 10 {
        ("LATIN CAPITAL LETTER K"@, 'K')
    } else if i == 11 {
        ("LATIN CAPITAL LETTER L"@, 'L')
    } else if i == 12 {
        ("LATIN CAPITAL LETTER M"@, 'M')
    } else if i == 13 {
        ("LATIN CAPITAL LETTER N"@, 'N')
    } else if i == 14 {
        ("LATIN CAPITAL LETTER O"@, 'O')
    } else if i == 15 {
        ("LATIN CAPITAL LETTER P"@, 'P')
    } else if i == 16 {
        ("LATIN CAPITAL LETTER Q"@, 'Q')
    } else if i == 17 {
        ("LATIN CAPITAL LETTER R"@, 'R')
    } else if i == 18 {
        ("LATIN CAPITAL LETTER S"@, 'S')
    } else if i == 19 {
        ("LATIN CAPITAL LETTER T"@, 'T')
    } else if i == 20 {
        ("LATIN CAPITAL LETTER U"@, 'U')
    } else if i == 21 {
        ("LATIN CAPITAL LETTER V"@, 'V')
    } else if i == 22 {
        ("LATIN CAPITAL LETTER W"@, 'W')
    } else if i == 23 {
        ("LATIN CAPITAL LETTER X"@, 'X')
    } else if i == 24 {
        ("LATIN CAPITAL LETTER Y"@, 'Y')
    } else if i == 25 {
        ("LATIN CAPITAL LETTER Z"@, 'Z')
    } else if i == 26 {
        ("LATIN SMALL LETTER A"@, 'a')
    } else if i == 27 {
        ("LATIN SMALL LETTER B"@, 'b')
    } else if i == 28 {
        ("LATIN SMALL LETTER C"@, 'c')
    } else if i == 29 {
        ("LATIN SMALL LETTER D"@, 'd')
    } else if i == 30 {
        ("LATIN SMALL LETTER E"@, 'e')
    } else if i == 31 {
        ("LATIN SMALL LETTER F"@, 'f')
    } else if i == 32 {
        ("LATIN SMALL LETTER G"@, 'g')
    } else if i == 33 {
        ("LATIN SMALL LETTER H"@, 'h')
    } else if i == 34 {
        ("LATIN SMALL LETTER I"@, 'i')
    } else if i == 35 {
        ("LATIN SMALL LETTER J"@, 'j')
    } else if i == 36 {
        ("LATIN SMALL LETTER K"@, 'k')
    } else if i == 37 {
        ("LATIN SMALL LETTER L"@, 'l')
    } else if i == 38 {
        ("LATIN SMALL LETTER M"@, 'm')
    } else if i == 39 {
        ("LATIN SMALL LETTER N"@, 'n')
    } else if i == 40 {
        ("LATIN SMALL LETTER O"@, 'o')
    } else if i == 41 {
        ("LATIN SMALL LETTER P"@, 'p')
    } else if i == 42 {
        ("LATIN SMALL LETTER Q"@, 'q')
    } else if i == 43 {
        ("LATIN SMALL LETTER R"@, 'r')
    } else if i == 44 {
        ("LATIN SMALL LETTER S"@, 's')
    } else if i == 45 {
        ("LATIN SMALL LETTER T"@, 't')
    } else if i == 46 {
        ("LATIN SMALL LETTER U"@, 'u')
    } else if i == 47 {
        ("LATIN SMALL LETTER V"@, 'v')
    } else if i == 48 {
        ("LATIN SMALL LETTER W"@, 'w')
    } else if i == 49 {
        ("LATIN SMALL LETTER X"@, 'x')
    } else if i == 50 {
        ("LATIN SMALL LETTER Y"@, 'y')
    } else if i == 51 {
        ("LATIN SMALL LETTER Z"@, 'z')
    } else if i == 52 {
        ("DIGIT ZERO"@, '0')
    } else if i == 53 {
        ("DIGIT ONE"@, '1')
    } else if i == 54 {
        ("DIGIT TWO"@, '2')
    } else if i == 55 {
        ("DIGIT THREE"@, '3')
    } else if i == 56 {
        ("DIGIT FOUR"@, '4')
    } else if i == 57 {
        ("DIGIT FIVE"@, '5')
    } else if i == 58 {
        ("DIGIT SIX"@, '6')
    } else if i == 59 {
        ("DIGIT SEVEN"@, '7')
    } else if i == 60 {
        ("DIGIT EIGHT"@, '8')
    } else if i == 61 {
        ("DIGIT NINE"@, '9')
    } else if i == 62 {
        ("AMPERSAND"@, '&')
    } else if i == 63 {
        ("CIRCUMFLEX ACCENT"@, '^')
    } else if i == 64 {
        ("ASTERISK"@, '*')
    } else if i == 65 {
        ("REVERSE SOLIDUS"@, '\\')
    } else if i == 66 {
        ("VERTICAL LINE"@, '|')
    } else if i == 67 {
        ("LEFT CURLY BRACKET"@, '{')
    } else if i == 68 {
        ("RIGHT CURLY BRACKET"@, '}')
    } else if i == 69 {
        ("LEFT SQUARE BRACKET"@, '[')
    } else if i == 70 {
        ("RIGHT SQUARE BRACKET"@, ']')
    } else if i == 71 {
        ("COLON"@, ':')
    } else if i == 72 {
        ("COMMA"@, ',')
    } else if i == 73 {
        ("DEGREE SIGN"@, '°')
    } else if i == 74 {
        ("DIVISION SIGN"@, '÷')
    } else if i == 75 {
        ("EQUALS SIGN"@, '=')
    } else if i == 76 {
        ("PERCENT SIGN"@, '%')
    } else if i == 77 {
        ("EXCLAMATION MARK"@, '!')
    } else if i == 78 {
        ("GREATER-THAN SIGN"@, '>')
    } else if i == 79 {
        ("LESS-THAN SIGN"@, '<')
    } else if i == 80 {
        ("HYPHEN-MINUS"@, '-')
    } else if i == 81 {
        ("LEFT PARENTHESIS"@, '(')
    } else if i == 82 {
        ("RIGHT PARENTHESIS"@, ')')
    } else if i == 83 {
        ("FULL STOP"@, '.')
    } else if i == 84 {
        ("PLUS SIGN"@, '+')
    } else if i == 85 {
        ("QUESTION MARK"@, '?')
    } else if i == 86 {
        ("QUOTATION MARK"@, '"')
    } else if i == 87 {
        ("APOSTROPHE"@, '\'')
    } else if i == 88 {
        ("SEMICOLON"@, ';')
    } else if i == 89 {
        ("SOLIDUS"@, '/')
    } else if i == 90 {
        ("SPACE"@, ' ')
    } else if i == 91 {
        ("LOW LINE"@, '_')
    } else if i == 92 {
        ("COMMERCIAL AT"@, '@')
    } else if i == 93 {
        ("NUMBER SIGN"@, '#')
    } else if i == 94 {
        ("POUND SIGN"@, '£')
    } else if i == 95 {
        ("DOLLAR SIGN"@, '$')
    } else if i == 96 {
        ("EURO SIGN"@, '€')
    } else {
        (Seq::empty(), ' ')
    }
}

/// Whether a table's entries are, name for name and character for
/// character, the stock listing.
pub open spec fn table_is_default(es: Seq<(String, char)>) -> bool {
    &&& es.len() == default_len()
    &&& forall|i: int|
        0 <= i < default_len() ==> (#[trigger] es[i]).0@ == default_pair(i).0 && es[i].1
            == default_pair(i).1
}

/// The first index at or after `i` whose entry bears the given name, or
/// -1 when there is none.
pub open spec fn name_index_from(entries: Seq<(String, char)>, name: Seq<char>, i: int) -> int
    decreases entries.len() - i,
{
    if i < 0 || i >= entries.len() {
        -1
    } else if entries[i].0@ == name {
        i
    } else {
        name_index_from(entries, name, i + 1)
    }
}

/// The first index at or after `i` whose entry holds the given
/// character, or -1 when there is none.
pub open spec fn char_index_from(entries: Seq<(String, char)>, c: char, i: int) -> int
    decreases entries.len() - i,
{
    if i < 0 || i >= entries.len() {
        -1
    } else if entries[i].1 == c {
        i
    } else {
        char_index_from(entries, c, i + 1)
    }
}

/// The first index at or after `i` of the stock listing holding the
/// given character, or -1 when there is none.
pub open spec fn default_char_index_from(c: char, i: int) -> int
    decreases default_len() - i,
{
    if i < 0 || i >= default_len() {
        -1
    } else if default_pair(i).1 == c {
        i
    } else {
        default_char_index_from(c, i + 1)
    }
}

/// Over a table whose entries are the stock listing, the first match
/// by character agrees with the listing's own first match, and a found
/// index lies inside the listing.
pub proof fn lemma_char_index_matches_default(es: Seq<(String, char)>, c: char, i: int)
    requires
        table_is_default(es),
        0 <= i,
    ensures
        char_index_from(es, c, i) == default_char_index_from(c, i),
        default_char_index_from(c, i) == -1 || i <= default_char_index_from(c, i)
            < default_len(),
    decreases default_len() - i,
{
    if i < es.len() && es[i].1 != c {
        lemma_char_index_matches_default(es, c, i + 1);
    }
}

/// The display name a sheet-cut glyph gets for the character `c`: the
/// stock table's first name for it, or, for a character the table
/// lacks, the character itself as a one-character string.
pub open spec fn sheet_glyph_name(c: char) -> Seq<char> {
    let i = default_char_index_from(c, 0);
    if i >= 0 {
        default_pair(i).0
    } else {
        seq![c]
    }
}

impl CharTable {
    /// The character going by the given name, or the block character
    /// `'█'` when the table holds no entry of that name.
    pub fn get_char_by_char_name_with_default(&self, char_name: &str) -> (r: char)
        ensures
            ({
                let i = name_index_from(self.entries@, char_name@, 0);
                if i >= 0 {
                    r == self.entries@[i].1
                } else {
                    r == '█'
                }
            }),
    {
        let key: String = char_name.to_owned();
        let n: usize = self.entries.len();
        let mut q: usize = 0;
        while q < n
            invariant
                q <= n,
                n == self.entries@.len(),
                key@ == char_name@,
                name_index_from(self.entries@, char_name@, 0) == name_index_from(
                    self.entries@,
                    char_name@,
                    q as int,
                ),
            decreases n - q,
        {
            if self.entries[q].0 == key {
                return self.entries[q].1;
            }
            q = q + 1;
        }
        '█'
    }

    /// The name of the first entry holding the given character, if the
    /// table holds one.
    pub fn get_char_name_by_char(&self, c: char) -> (r: Option<String>)
        ensures
            ({
                let i = char_index_from(self.entries@, c, 0);
                match r {
                    Some(name) => i >= 0 && name@ == self.entries@[i].0@,
                    None => i == -1,
                }
            }),
    {
        find_key_for_value(self, c)
    }
}

/// Returns the name of the first entry of the table holding the given
/// character, if the table holds one.
pub fn find_key_for_value(map: &CharTable, value: char) -> (r: Option<String>)
    ensures
        ({
            let i = char_index_from(map.entries@, value, 0);
            match r {
                Some(name) => i >= 0 && name@ == map.entries@[i].0@,
                None => i == -1,
            }
        }),
{
    let n: usize = map.entries.len();
    let mut q: usize = 0;
    while q < n
        invariant
            q <= n,
            n == map.entries@.len(),
            char_index_from(map.entries@, value, 0) == char_index_from(
                map.entries@,
                value,
                q as int,
            ),
        decreases n - q,
    {
        if map.entries[q].1 == value {
            let name: String = map.entries[q].0.clone();
            return Some(name);
        }
        q = q + 1;
    }
    None
}

/// Builds the stock table, whose entries are exactly the listing of
/// [`default_pair`].
#[verifier::rlimit(100)]
pub fn default_chars() -> (r: CharTable)
    ensures
        table_is_default(r.entries@),
{
    let mut entries: Vec<(String, char)> = Vec::new();
    entries.push((String::from_str("LATIN CAPITAL LETTER A"), 'A'));
    entries.push((String::from_str("LATIN CAPITAL LETTER B"), 'B'));
    entries.push((String::from_str("LATIN CAPITAL LETTER C"), 'C'));
    entries.push((String::from_str("LATIN CAPITAL LETTER D"), 'D'));
    entries.push((String::from_str("LATIN CAPITAL LETTER E"), 'E'));
    entries.push((String::from_str("LATIN CAPITAL LETTER F"), 'F'));
    entries.push((String::from_str("LATIN CAPITAL LETTER G"), 'G'));
    entries.push((String::from_str("LATIN CAPITAL LETTER H"), 'H'));
    entries.push((String::from_str("LATIN CAPITAL LETTER I"), 'I'));
    entries.push((String::from_str("LATIN CAPITAL LETTER J"), 'J'));
    entries.push((String::from_str("LATIN CAPITAL LETTER K"), 'K'));
    entries.push((String::from_str("LATIN CAPITAL LETTER L"), 'L'));
    entries.push((String::from_str("LATIN CAPITAL LETTER M"), 'M'));
    entries.push((String::from_str("LATIN CAPITAL LETTER N"), 'N'));
    entries.push((String::from_str("LATIN CAPITAL LETTER O"), 'O'));
    entries.push((String::from_str("LATIN CAPITAL LETTER P"), 'P'));
    entries.push((String::from_str("LATIN CAPITAL LETTER Q"), 'Q'));
    entries.push((String::from_str("LATIN CAPITAL LETTER R"), 'R'));
    entries.push((String::from_str("LATIN CAPITAL LETTER S"), 'S'));
    entries.push((String::from_str("LATIN CAPITAL LETTER T"), 'T'));
    entries.push((String::from_str("LATIN CAPITAL LETTER U"), 'U'));
    entries.push((String::from_str("LATIN CAPITAL LETTER V"), 'V'));
    entries.push((String::from_str("LATIN CAPITAL LETTER W"), 'W'));
    entries.push((String::from_str("LATIN CAPITAL LETTER X"), 'X'));
    entries.push((String::from_str("LATIN CAPITAL LETTER Y"), 'Y'));
    entries.push((String::from_str("LATIN CAPITAL LETTER Z"), 'Z'));
    entries.push((String::from_str("LATIN SMALL LETTER A"), 'a'));
    entries.push((String::from_str("LATIN SMALL LETTER B"), 'b'));
    entries.push((String::from_str("LATIN SMALL LETTER C"), 'c'));
    entries.push((String::from_str("LATIN SMALL LETTER D"), 'd'));
    entries.push((String::from_str("LATIN SMALL LETTER E"), 'e'));
    entries.push((String::from_str("LATIN SMALL LETTER F"), 'f'));
    entries.push((String::from_str("LATIN SMALL LETTER G"), 'g'));
    entries.push((String::from_str("LATIN SMALL LETTER H"), 'h'));
    entries.push((String::from_str("LATIN SMALL LETTER I"), 'i'));
    entries.push((String::from_str("LATIN SMALL LETTER J"), 'j'));
    entries.push((String::from_str("LATIN SMALL LETTER K"), 'k'));
    entries.push((String::from_str("LATIN SMALL LETTER L"), 'l'));
    entries.push((String::from_str("LATIN SMALL LETTER M"), 'm'));
    entries.push((String::from_str("LATIN SMALL LETTER N"), 'n'));
    entries.push((String::from_str("LATIN SMALL LETTER O"), 'o'));
    entries.push((String::from_str("LATIN SMALL LETTER P"), 'p'));
    entries.push((String::from_str("LATIN SMALL LETTER Q"), 'q'));
    entries.push((String::from_str("LATIN SMALL LETTER R"), 'r'));
    entries.push((String::from_str("LATIN SMALL LETTER S"), 's'));
    entries.push((String::from_str("LATIN SMALL LETTER T"), 't'));
    entries.push((String::from_str("LATIN SMALL LETTER U"), 'u'));
    entries.push((String::from_str("LATIN SMALL LETTER V"), 'v'));
    entries.push((String::from_str("LATIN SMALL LETTER W"), 'w'));
    entries.push((String::from_str("LATIN SMALL LETTER X"), 'x'));
    entries.push((String::from_str("LATIN SMALL LETTER Y"), 'y'));
    entries.push((String::from_str("LATIN SMALL LETTER Z"), 'z'));
    entries.push((String::from_str("DIGIT ZERO"), '0'));
    entries.push((String::from_str("DIGIT ONE"), '1'));
    entries.push((String::from_str("DIGIT TWO"), '2'));
    entries.push((String::from_str("DIGIT THREE"), '3'));
    entries.push((String::from_str("DIGIT FOUR"), '4'));
    entries.push((String::from_str("DIGIT FIVE"), '5'));
    entries.push((String::from_str("DIGIT SIX"), '6'));
    entries.push((String::from_str("DIGIT SEVEN"), '7'));
    entries.push((String::from_str("DIGIT EIGHT"), '8'));
    entries.push((String::from_str("DIGIT NINE"), '9'));
    entries.push((String::from_str("AMPERSAND"), '&'));
    entries.push((String::from_str("CIRCUMFLEX ACCENT"), '^'));
    entries.push((String::from_str("ASTERISK"), '*'));
    entries.push((String::from_str("REVERSE SOLIDUS"), '\\'));
    entries.push((String::from_str("VERTICAL LINE"), '|'));
    entries.push((String::from_str("LEFT CURLY BRACKET"), '{'));
    entries.push((String::from_str("RIGHT CURLY BRACKET"), '}'));
    entries.push((String::from_str("LEFT SQUARE BRACKET"), '['));
    entries.push((String::from_str("RIGHT SQUARE BRACKET"), ']'));
    entries.push((String::from_str("COLON"), ':'));
    entries.push((String::from_str("COMMA"), ','));
    entries.push((String::from_str("DEGREE SIGN"), '°'));
    entries.push((String::from_str("DIVISION SIGN"), '÷'));
    entries.push((String::from_str("EQUALS SIGN"), '='));
    entries.push((String::from_str("PERCENT SIGN"), '%'));
    entries.push((String::from_str("EXCLAMATION MARK"), '!'));
    entries.push((String::from_str("GREATER-THAN SIGN"), '>'));
    entries.push((String::from_str("LESS-THAN SIGN"), '<'));
    entries.push((String::from_str("HYPHEN-MINUS"), '-'));
    entries.push((String::from_str("LEFT PARENTHESIS"), '('));
    entries.push((String::from_str("RIGHT PARENTHESIS"), ')'));
    entries.push((String::from_str("FULL STOP"), '.'));
    entries.push((String::from_str("PLUS SIGN"), '+'));
    entries.push((String::from_str("QUESTION MARK"), '?'));
    entries.push((String::from_str("QUOTATION MARK"), '"'));
    entries.push((String::from_str("APOSTROPHE"), '\''));
    entries.push((String::from_str("SEMICOLON"), ';'));
    entries.push((String::from_str("SOLIDUS"), '/'));
    entries.push((String::from_str("SPACE"), ' '));
    entries.push((String::from_str("LOW LINE"), '_'));
    entries.push((String::from_str("COMMERCIAL AT"), '@'));
    entries.push((String::from_str("NUMBER SIGN"), '#'));
    entries.push((String::from_str("POUND SIGN"), '£'));
    entries.push((String::from_str("DOLLAR SIGN"), '$'));
    entries.push((String::from_str("EURO SIGN"), '€'));
    proof {
        assert(entries@[0].0@ == default_pair(0).0 && entries@[0].1 == default_pair(0).1);
        assert(entries@[1].0@ == default_pair(1).0 && entries@[1].1 == default_pair(1).1);
        assert(entries@[2].0@ == default_pair(2).0 && entries@[2].1 == default_pair(2).1);
        assert(entries@[3].0@ == default_pair(3).0 && entries@[3].1 == default_pair(3).1);
        assert(entries@[4].0@ == default_pair(4).0 && entries@[4].1 == default_pair(4).1);
        assert(entries@[5].0@ == default_pair(5).0 && entries@[5].1 == default_pair(5).1);
        assert(entries@[6].0@ == default_pair(6).0 && entries@[6].1 == default_pair(6).1);
        assert(entries@[7].0@ == default_pair(7).0 && entries@[7].1 == default_pair(7).1);
        assert(entries@[8].0@ == default_pair(8).0 && entries@[8].1 == default_pair(8).1);
        assert(entries@[9].0@ == default_pair(9).0 && entries@[9].1 == default_pair(9).1);
        assert(entries@[10].0@ == default_pair(10).0 && entries@[10].1 == default_pair(10).1);
        assert(entries@[11].0@ == default_pair(11).0 && entries@[11].1 == default_pair(11).1);
        assert(entries@[12].0@ == default_pair(12).0 && entries@[12].1 == default_pair(12).1);
        assert(entries@[13].0@ == default_pair(13).0 && entries@[13].1 == default_pair(13).1);
        assert(entries@[14].0@ == default_pair(14).0 && entries@[14].1 == default_pair(14).1);
        assert(entries@[15].0@ == default_pair(15).0 && entries@[15].1 == default_pair(15).1);
        assert(entries@[16].0@ == default_pair(16).0 && entries@[16].1 == default_pair(16).1);
        assert(entries@[17].0@ == default_pair(17).0 && entries@[17].1 == default_pair(17).1);
        assert(entries@[18].0@ == default_pair(18).0 && entries@[18].1 == default_pair(18).1);
        assert(entries@[19].0@ == default_pair(19).0 && entries@[19].1 == default_pair(19).1);
        assert(entries@[20].0@ == default_pair(20).0 && entries@[20].1 == default_pair(20).1);
        assert(entries@[21].0@ == default_pair(21).0 && entries@[21].1 == default_pair(21).1);
        assert(entries@[22].0@ == default_pair(22).0 && entries@[22].1 == default_pair(22).1);
        assert(entries@[23].0@ == default_pair(23).0 && entries@[23].1 == default_pair(23).1);
        assert(entries@[24].0@ == default_pair(24).0 && entries@[24].1 == default_pair(24).1);
        assert(entries@[25].0@ == default_pair(25).0 && entries@[25].1 == default_pair(25).1);
        assert(entries@[26].0@ == default_pair(26).0 && entries@[26].1 == default_pair(26).1);
        assert(entries@[27].0@ == default_pair(27).0 && entries@[27].1 == default_pair(27).1);
        assert(entries@[28].0@ == default_pair(28).0 && entries@[28].1 == default_pair(28).1);
        assert(entries@[29].0@ == default_pair(29).0 && entries@[29].1 == default_pair(29).1);
        assert(entries@[30].0@ == default_pair(30).0 && entries@[30].1 == default_pair(30).1);
        assert(entries@[31].0@ == default_pair(31).0 && entries@[31].1 == default_pair(31).1);
        assert(entries@[32].0@ == default_pair(32).0 && entries@[32].1 == default_pair(32).1);
        assert(entries@[33].0@ == default_pair(33).0 && entries@[33].1 == default_pair(33).1);
        assert(entries@[34].0@ == default_pair(34).0 && entries@[34].1 == default_pair(34).1);
        assert(entries@[35].0@ == default_pair(35).0 && entries@[35].1 == default_pair(35).1);
        assert(entries@[36].0@ == default_pair(36).0 && entries@[36].1 == default_pair(36).1);
        assert(entries@[37].0@ == default_pair(37).0 && entries@[37].1 == default_pair(37).1);
        assert(entries@[38].0@ == default_pair(38).0 && entries@[38].1 == default_pair(38).1);
        assert(entries@[39].0@ == default_pair(39).0 && entries@[39].1 == default_pair(39).1);
        assert(entries@[40].0@ == default_pair(40).0 && entries@[40].1 == default_pair(40).1);
        assert(entries@[41].0@ == default_pair(41).0 && entries@[41].1 == default_pair(41).1);
        assert(entries@[42].0@ == default_pair(42).0 && entries@[42].1 == default_pair(42).1);
        assert(entries@[43].0@ == default_pair(43).0 && entries@[43].1 == default_pair(43).1);
        assert(entries@[44].0@ == default_pair(44).0 && entries@[44].1 == default_pair(44).1);
        assert(entries@[45].0@ == default_pair(45).0 && entries@[45].1 == default_pair(45).1);
        assert(entries@[46].0@ == default_pair(46).0 && entries@[46].1 == default_pair(46).1);
        assert(entries@[47].0@ == default_pair(47).0 && entries@[47].1 == default_pair(47).1);
        assert(entries@[48].0@ == default_pair(48).0 && entries@[48].1 == default_pair(48).1);
        assert(entries@[49].0@ == default_pair(49).0 && entries@[49].1 == default_pair(49).1);
        assert(entries@[50].0@ == default_pair(50).0 && entries@[50].1 == default_pair(50).1);
        assert(entries@[51].0@ == default_pair(51).0 && entries@[51].1 == default_pair(51).1);
        assert(entries@[52].0@ == default_pair(52).0 && entries@[52].1 == default_pair(52).1);
        assert(entries@[53].0@ == default_pair(53).0 && entries@[53].1 == default_pair(53).1);
        assert(entries@[54].0@ == default_pair(54).0 && entries@[54].1 == default_pair(54).1);
        assert(entries@[55].0@ == default_pair(55).0 && entries@[55].1 == default_pair(55).1);
        assert(entries@[56].0@ == default_pair(56).0 && entries@[56].1 == default_pair(56).1);
        assert(entries@[57].0@ == default_pair(57).0 && entries@[57].1 == default_pair(57).1);
        assert(entries@[58].0@ == default_pair(58).0 && entries@[58].1 == default_pair(58).1);
        assert(entries@[59].0@ == default_pair(59).0 && entries@[59].1 == default_pair(59).1);
        assert(entries@[60].0@ == default_pair(60).0 && entries@[60].1 == default_pair(60).1);
        assert(entries@[61].0@ == default_pair(61).0 && entries@[61].1 == default_pair(61).1);
        assert(entries@[62].0@ == default_pair(62).0 && entries@[62].1 == default_pair(62).1);
        assert(entries@[63].0@ == default_pair(63).0 && entries@[63].1 == default_pair(63).1);
        assert(entries@[64].0@ == default_pair(64).0 && entries@[64].1 == default_pair(64).1);
        assert(entries@[65].0@ == default_pair(65).0 && entries@[65].1 == default_pair(65).1);
        assert(entries@[66].0@ == default_pair(66).0 && entries@[66].1 == default_pair(66).1);
        assert(entries@[67].0@ == default_pair(67).0 && entries@[67].1 == default_pair(67).1);
        assert(entries@[68].0@ == default_pair(68).0 && entries@[68].1 == default_pair(68).1);
        assert(entries@[69].0@ == default_pair(69).0 && entries@[69].1 == default_pair(69).1);
        assert(entries@[70].0@ == default_pair(70).0 && entries@[70].1 == default_pair(70).1);
        assert(entries@[71].0@ == default_pair(71).0 && entries@[71].1 == default_pair(71).1);
        assert(entries@[72].0@ == default_pair(72).0 && entries@[72].1 == default_pair(72).1);
        assert(entries@[73].0@ == default_pair(73).0 && entries@[73].1 == default_pair(73).1);
        assert(entries@[74].0@ == default_pair(74).0 && entries@[74].1 == default_pair(74).1);
        assert(entries@[75].0@ == default_pair(75).0 && entries@[75].1 == default_pair(75).1);
        assert(entries@[76].0@ == default_pair(76).0 && entries@[76].1 == default_pair(76).1);
        assert(entries@[77].0@ == default_pair(77).0 && entries@[77].1 == default_pair(77).1);
        assert(entries@[78].0@ == default_pair(78).0 && entries@[78].1 == default_pair(78).1);
        assert(entries@[79].0@ == default_pair(79).0 && entries@[79].1 == default_pair(79).1);
        assert(entries@[80].0@ == default_pair(80).0 && entries@[80].1 == default_pair(80).1);
        assert(entries@[81].0@ == default_pair(81).0 && entries@[81].1 == default_pair(81).1);
        assert(entries@[82].0@ == default_pair(82).0 && entries@[82].1 == default_pair(82).1);
        assert(entries@[83].0@ == default_pair(83).0 && entries@[83].1 == default_pair(83).1);
        assert(entries@[84].0@ == default_pair(84).0 && entries@[84].1 == default_pair(84).1);
        assert(entries@[85].0@ == default_pair(85).0 && entries@[85].1 == default_pair(85).1);
        assert(entries@[86].0@ == default_pair(86).0 && entries@[86].1 == default_pair(86).1);
        assert(entries@[87].0@ == default_pair(87).0 && entries@[87].1 == default_pair(87).1);
        assert(entries@[88].0@ == default_pair(88).0 && entries@[88].1 == default_pair(88).1);
        assert(entries@[89].0@ == default_pair(89).0 && entries@[89].1 == default_pair(89).1);
        assert(entries@[90].0@ == default_pair(90).0 && entries@[90].1 == default_pair(90).1);
        assert(entries@[91].0@ == default_pair(91).0 && entries@[91].1 == default_pair(91).1);
        assert(entries@[92].0@ == default_pair(92).0 && entries@[92].1 == default_pair(92).1);
        assert(entries@[93].0@ == default_pair(93).0 && entries@[93].1 == default_pair(93).1);
        assert(entries@[94].0@ == default_pair(94).0 && entries@[94].1 == default_pair(94).1);
        assert(entries@[95].0@ == default_pair(95).0 && entries@[95].1 == default_pair(95).1);
        assert(entries@[96].0@ == default_pair(96).0 && entries@[96].1 == default_pair(96).1);
        assert forall|i: int|
            0 <= i < default_len() implies (#[trigger] entries@[i]).0@ == default_pair(i).0
            && entries@[i].1 == default_pair(i).1 by {}
    }
    CharTable { entries }
}

} // verus!
