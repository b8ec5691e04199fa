//! Plain domain enums and records shared by the rest of the library.

use vstd::prelude::*;
use vstd::arithmetic::div_mod::{lemma_fundamental_div_mod, lemma_hoist_over_denominator};
use crate::number::{
    Magnitude, Special, decimal_scaled, is_negative, parse_scaled, read_magnitude, read_special,
    scaled_magnitude, special_of, well_formed_decimal,
};
use crate::error::Error;
use crate::text::{chars_of, concat, lower_of, lowercase, same_text, scan_chars, string_of, word_at};

verus! {

/// Type of a note
#[derive(Copy, Clone, Debug, PartialEq, Eq, Hash, Structural)]
pub enum NoteType {
    Tap,
    HoldHead,
    HoldTail,
    Mine,
    Lift,
    Keysound,
    Fake,
}

/// The note type that the service encodes as `code`.
pub open spec fn note_type_of_code(code: int) -> Option<NoteType> {
    if code == 1 {
        Some(NoteType::Tap)
    } else if code == 2 {
        Some(NoteType::HoldHead)
    } else if code == 3 {
        Some(NoteType::HoldTail)
    } else if code == 4 {
        Some(NoteType::Mine)
    } else if code == 5 {
        Some(NoteType::Lift)
    } else if code == 6 {
        Some(NoteType::Keysound)
    } else if code == 7 {
        Some(NoteType::Fake)
    } else {
        None
    }
}

impl NoteType {
    /// Decodes the service's integer code of a note type (1 to 7).
    pub fn from_code(code: i64) -> (r: Option<NoteType>)
        ensures
            r == note_type_of_code(code as int),
    {
        match code {
            1 => Some(NoteType::Tap),
            2 => Some(NoteType::HoldHead),
            3 => Some(NoteType::HoldTail),
            4 => Some(NoteType::Mine),
            5 => Some(NoteType::Lift),
            6 => Some(NoteType::Keysound),
            7 => Some(NoteType::Fake),
            _ => None,
        }
    }
}

/// Chart difficulty enum
#[derive(Copy, Clone, Debug, PartialEq, Eq, Hash, PartialOrd, Ord, Structural)]
pub enum Difficulty {
    Beginner,
    Easy,
    Medium,
    Hard,
    Challenge,
    Edit,
}

/// The difficulty that a short name (as on the evaluation screen) stands for.
pub open spec fn difficulty_of_short(s: Seq<char>) -> Option<Difficulty> {
    if s == "BG"@ {
        Some(Difficulty::Beginner)
    } else if s == "EZ"@ {
        Some(Difficulty::Easy)
    } else if s == "NM"@ {
        Some(Difficulty::Medium)
    } else if s == "HD"@ {
        Some(Difficulty::Hard)
    } else if s == "IN"@ {
        Some(Difficulty::Challenge)
    } else if s == "ED"@ {
        Some(Difficulty::Edit)
    } else {
        None
    }
}

pub open spec fn short_of_difficulty(d: Difficulty) -> Seq<char> {
    match d {
        Difficulty::Beginner => "BG"@,
        Difficulty::Easy => "EZ"@,
        Difficulty::Medium => "NM"@,
        Difficulty::Hard => "HD"@,
        Difficulty::Challenge => "IN"@,
        Difficulty::Edit => "ED"@,
    }
}

/// The difficulty that a long name stands for, old names included.
pub open spec fn difficulty_of_long(s: Seq<char>) -> Option<Difficulty> {
    if s == "Beginner"@ || s == "Novice"@ {
        Some(Difficulty::Beginner)
    } else if s == "Easy"@ {
        Some(Difficulty::Easy)
    } else if s == "Medium"@ || s == "Normal"@ {
        Some(Difficulty::Medium)
    } else if s == "Hard"@ {
        Some(Difficulty::Hard)
    } else if s == "Challenge"@ || s == "Expert"@ || s == "Insane"@ {
        Some(Difficulty::Challenge)
    } else if s == "Edit"@ {
        Some(Difficulty::Edit)
    } else {
        None
    }
}

impl Difficulty {
    /// Parses a short difficulty string as found on the Etterna evaluation
    /// screen: BG, IN... The string must be given in uppercase letters
    pub fn from_short_string(string: &str) -> (r: Option<Self>)
        ensures
            r == difficulty_of_short(string@),
    {
        if same_text(string, "BG") {
            Some(Self::Beginner)
        } else if same_text(string, "EZ") {
            Some(Self::Easy)
        } else if same_text(string, "NM") {
            Some(Self::Medium)
        } else if same_text(string, "HD") {
            Some(Self::Hard)
        } else if same_text(string, "IN") {
            Some(Self::Challenge)
        } else if same_text(string, "ED") {
            Some(Self::Edit)
        } else {
            None
        }
    }

    /// Generate a short difficulty string as found on the Etterna evaluation screen.
    pub fn to_short_string(self) -> (r: &'static str)
        ensures
            r@ == short_of_difficulty(self),
    {
        match self {
            Self::Beginner => "BG",
            Self::Easy => "EZ",
            Self::Medium => "NM",
            Self::Hard => "HD",
            Self::Challenge => "IN",
            Self::Edit => "ED",
        }
    }

    /// Parses a long difficulty name, accepting the older names too.
    pub fn from_long_string(string: &str) -> (r: Option<Self>)
        ensures
            r == difficulty_of_long(string@),
    {
        if same_text(string, "Beginner") || same_text(string, "Novice") {
            Some(Self::Beginner)
        } else if same_text(string, "Easy") {
            Some(Self::Easy)
        } else if same_text(string, "Medium") || same_text(string, "Normal") {
            Some(Self::Medium)
        } else if same_text(string, "Hard") {
            Some(Self::Hard)
        } else if same_text(string, "Challenge") || same_text(string, "Expert") || same_text(
            string,
            "Insane",
        ) {
            Some(Self::Challenge)
        } else if same_text(string, "Edit") {
            Some(Self::Edit)
        } else {
            None
        }
    }
}

/// The difficulty named exactly as the service's current API names it.
pub open spec fn difficulty_of_api_name(s: Seq<char>) -> Option<Difficulty> {
    if s == "Beginner"@ {
        Some(Difficulty::Beginner)
    } else if s == "Easy"@ {
        Some(Difficulty::Easy)
    } else if s == "Medium"@ {
        Some(Difficulty::Medium)
    } else if s == "Hard"@ {
        Some(Difficulty::Hard)
    } else if s == "Challenge"@ {
        Some(Difficulty::Challenge)
    } else if s == "Edit"@ {
        Some(Difficulty::Edit)
    } else {
        None
    }
}

impl Difficulty {
    /// Reads a difficulty as the service's current API names it; any other
    /// name is a payload of unexpected shape.
    pub fn from_api_name(string: &str) -> (r: Result<Self, Error>)
        ensures
            match difficulty_of_api_name(string@) {
                Some(d) => r matches Ok(x) && x == d,
                None => r matches Err(Error::InvalidDataStructure(_)),
            },
    {
        if same_text(string, "Beginner") {
            Ok(Self::Beginner)
        } else if same_text(string, "Easy") {
            Ok(Self::Easy)
        } else if same_text(string, "Medium") {
            Ok(Self::Medium)
        } else if same_text(string, "Hard") {
            Ok(Self::Hard)
        } else if same_text(string, "Challenge") {
            Ok(Self::Challenge)
        } else if same_text(string, "Edit") {
            Ok(Self::Edit)
        } else {
            Err(Error::InvalidDataStructure(concat("Unexpected difficulty name ", string)))
        }
    }
}

/// Number of judgements on a score
#[derive(Clone, Debug, PartialEq, Eq, Hash, Default)]
pub struct Judgements {
    pub marvelouses: u32,
    pub perfects: u32,
    pub greats: u32,
    pub goods: u32,
    pub bads: u32,
    pub misses: u32,
    pub hit_mines: u32,
    pub held_holds: u32,
    pub let_go_holds: u32,
    pub missed_holds: u32,
}

/// Global ranks in each skillset category
#[derive(Clone, Debug, PartialEq, Eq, Hash)]
pub struct UserRank {
    pub overall: u32,
    pub stream: u32,
    pub jumpstream: u32,
    pub handstream: u32,
    pub stamina: u32,
    pub jackspeed: u32,
    pub chordjack: u32,
    pub technical: u32,
}

/// A music rate. Rates are multiples of 0.05, so this holds 20 times the rate.
#[derive(Copy, Clone, Debug, PartialEq, Eq, Hash, PartialOrd, Ord, Structural)]
pub struct Rate {
    x20: u32,
}

/// One second, one unit, in the nine decimal places that rates are read with.
pub const NANO: i64 = 1000000000;

/// 20 times the rate written in `s`, rounded to the nearest whole number (half
/// away from zero) and capped at `u32::MAX`; `None` when `s` is no number, or
/// the rate is negative, infinite or above 4294967296. Not-a-number reads as 0.
pub open spec fn rate_x20_of(s: Seq<char>) -> Option<u32> {
    match special_of(s) {
        Some(Special::NotANumber) => Some(0),
        Some(Special::Infinite { .. }) => None,
        None => finite_rate_x20_of(s),
    }
}

pub open spec fn finite_rate_x20_of(s: Seq<char>) -> Option<u32> {
    match decimal_scaled(s, 9) {
        Some(m) => if m < 0 || m > 4294967296 * NANO {
            None
        } else if (m * 20 + NANO / 2) / (NANO as int) > u32::MAX {
            Some(u32::MAX)
        } else {
            Some(((m * 20 + NANO / 2) / (NANO as int)) as u32)
        },
        None => None,
    }
}

impl Rate {
    pub closed spec fn spec_x20(&self) -> u32 {
        self.x20
    }

    /// Parses a rate such as `1.15`, rounding to the nearest multiple of 0.05.
    /// `None` when parsing failed, or the rate is negative or too large.
    pub fn from_string(string: &str) -> (r: Option<Self>)
        ensures
            match rate_x20_of(string@) {
                Some(x) => r matches Some(rate) && rate.spec_x20() == x,
                None => r is None,
            },
    {
        let chars = chars_of(string);
        match read_special(&chars) {
            Some(Special::NotANumber) => {
                return Some(Self { x20: 0 });
            },
            Some(Special::Infinite { .. }) => {
                return None;
            },
            None => {},
        }
        let m = match parse_scaled(&chars, 9) {
            Some(m) => m,
            None => {
                return None;
            },
        };
        if m < 0 || m as i128 > 4294967296i128 * NANO as i128 {
            return None;
        }
        let x: i128 = (m as i128 * 20 + (NANO / 2) as i128) / NANO as i128;
        if x > u32::MAX as i128 {
            Some(Self { x20: u32::MAX })
        } else {
            Some(Self { x20: x as u32 })
        }
    }

    /// Create a new rate from a value that is equal to the real rate
    /// multiplied by 20.
    pub fn from_x20(x20: u32) -> (r: Self)
        ensures
            r.spec_x20() == x20,
    {
        Self { x20 }
    }

    /// The rate multiplied by 20.
    pub fn x20(&self) -> (r: u32)
        ensures
            r == self.spec_x20(),
    {
        self.x20
    }
}

impl Default for Rate {
    /// The normal rate, 1.0x
    fn default() -> (r: Self)
        ensures
            r.spec_x20() == 20,
    {
        Self::from_x20(20)
    }
}

/// Represents a file size
#[derive(Copy, Clone, Debug, PartialEq, Eq, Hash, PartialOrd, Ord, Default, Structural)]
pub struct FileSize {
    bytes: u64,
}

/// Error returned from [`FileSize::parse`]
#[derive(Clone, Debug, PartialEq, Eq)]
pub enum FileSizeParseError {
    /// Given string was empty
    EmptyString,
    /// The number could not be read
    InvalidNumber,
    /// No KB/MB/... ending
    NoEnding,
    /// Unknown ending (the KB/MB/... part), lowercased
    UnexpectedEnding(String),
}

/// Bytes per unit of a lowercase size ending.
pub open spec fn multiplier_of(w: Seq<char>) -> Option<int> {
    if w == "b"@ {
        Some(1)
    } else if w == "kb"@ {
        Some(1000)
    } else if w == "kib"@ {
        Some(1024)
    } else if w == "mb"@ {
        Some(1000000)
    } else if w == "mib"@ {
        Some(1048576)
    } else if w == "gb"@ {
        Some(1000000000)
    } else if w == "gib"@ {
        Some(1073741824)
    } else if w == "tb"@ {
        Some(1000000000000)
    } else if w == "tib"@ {
        Some(1099511627776)
    } else {
        None
    }
}

/// One unit in the eighteen decimal places that sizes are read with.
pub const QUINTILLION: u128 = 1000000000000000000;

/// Bytes in the number `num` of units of `mult` bytes, cut down and held
/// within `u64`, as a float cast to `u64` would give: negative numbers and
/// not-a-number give 0, infinity gives `u64::MAX`. Digits past the
/// eighteenth decimal place are not read.
pub open spec fn bytes_of(num: Seq<char>, mult: int) -> int {
    match special_of(num) {
        Some(Special::Infinite { negative }) => if negative {
            0
        } else {
            u64::MAX as int
        },
        Some(Special::NotANumber) => 0,
        None => if is_negative(num) {
            0
        } else {
            let b = scaled_magnitude(num, 18) * mult / (QUINTILLION as int);
            if b > u64::MAX {
                u64::MAX as int
            } else {
                b
            }
        },
    }
}

/// What reading the lowercase size text `t` gives: the first word is the
/// number, the second the unit.
pub open spec fn is_size_result(t: Seq<char>, r: Result<FileSize, FileSizeParseError>) -> bool {
    let (a, b) = word_at(t, 0);
    let (c, d) = word_at(t, b);
    let num = t.subrange(a, b);
    if a >= t.len() {
        r matches Err(FileSizeParseError::EmptyString)
    } else if special_of(num) is None && !well_formed_decimal(num) {
        r matches Err(FileSizeParseError::InvalidNumber)
    } else if c >= t.len() {
        r matches Err(FileSizeParseError::NoEnding)
    } else {
        match multiplier_of(t.subrange(c, d)) {
            None => r matches Err(FileSizeParseError::UnexpectedEnding(e)) && e@ == t.subrange(c, d),
            Some(mult) => r matches Ok(f) && f.spec_bytes() == bytes_of(num, mult),
        }
    }
}

/// Bytes in `m` quintillionths of `mult` bytes, held within `u64`.
fn scaled_bytes(m: u128, mult: u64) -> (r: u64)
    requires
        m <= 20000000000000000000000000000000000000u128,
        1 <= mult <= 1099511627776u64,
    ensures
        r == (if m * mult / (QUINTILLION as int) > u64::MAX {
            u64::MAX as int
        } else {
            m * mult / (QUINTILLION as int)
        }),
{
    let q = m / QUINTILLION;
    let rem = m % QUINTILLION;
    proof {
        lemma_fundamental_div_mod(m as int, QUINTILLION as int);
        lemma_hoist_over_denominator((rem * mult) as int, (q * mult) as int, QUINTILLION as nat);
        assert(m * mult == rem * mult + (q * mult) * QUINTILLION) by (nonlinear_arith)
            requires
                m == QUINTILLION * q + rem,
        ;
        assert(q * mult <= 20000000000000000000u128 * 1099511627776u128) by (nonlinear_arith)
            requires
                q <= 20000000000000000000u128,
                mult <= 1099511627776u64,
        ;
        assert(rem * mult <= QUINTILLION * 1099511627776u128) by (nonlinear_arith)
            requires
                rem < QUINTILLION,
                mult <= 1099511627776u64,
        ;
    }
    let total: u128 = q * (mult as u128) + rem * (mult as u128) / QUINTILLION;
    if total > u64::MAX as u128 {
        u64::MAX
    } else {
        total as u64
    }
}

fn multiplier(w: &str) -> (r: Option<u64>)
    ensures
        match multiplier_of(w@) {
            Some(m) => r == Some(m as u64),
            None => r is None,
        },
{
    if same_text(w, "b") {
        Some(1)
    } else if same_text(w, "kb") {
        Some(1000)
    } else if same_text(w, "kib") {
        Some(1024)
    } else if same_text(w, "mb") {
        Some(1000000)
    } else if same_text(w, "mib") {
        Some(1048576)
    } else if same_text(w, "gb") {
        Some(1000000000)
    } else if same_text(w, "gib") {
        Some(1073741824)
    } else if same_text(w, "tb") {
        Some(1000000000000)
    } else if same_text(w, "tib") {
        Some(1099511627776)
    } else {
        None
    }
}

fn copy_chars(s: &Vec<char>, from: usize, to: usize) -> (r: Vec<char>)
    requires
        from <= to <= s.len(),
    ensures
        r@ == s@.subrange(from as int, to as int),
{
    let mut r: Vec<char> = Vec::new();
    let mut k = from;
    while k < to
        invariant
            from <= k <= to,
            to <= s.len(),
            r@ == s@.subrange(from as int, k as int),
        decreases to - k,
    {
        r.push(s[k]);
        k = k + 1;
    }
    r
}

impl std::str::FromStr for FileSize {
    type Err = FileSizeParseError;

    fn from_str(s: &str) -> Result<FileSize, FileSizeParseError> {
        FileSize::parse(s)
    }
}

impl FileSize {
    pub closed spec fn spec_bytes(&self) -> int {
        self.bytes as int
    }

    /// Create a new file size from the given number of bytes
    pub fn from_bytes(bytes: u64) -> (r: Self)
        ensures
            r.spec_bytes() == bytes,
    {
        Self { bytes }
    }

    /// Get the number of bytes
    pub fn bytes(self) -> (r: u64)
        ensures
            r == self.spec_bytes(),
    {
        self.bytes
    }

    /// Get the number of kilobytes, rounded down
    pub fn kb(self) -> (r: u64)
        ensures
            r == self.spec_bytes() / 1000,
    {
        self.bytes / 1000
    }

    /// Get the number of megabytes, rounded down
    pub fn mb(self) -> (r: u64)
        ensures
            r == self.spec_bytes() / 1000000,
    {
        self.bytes / 1000000
    }

    /// Get the number of gigabytes, rounded down
    pub fn gb(self) -> (r: u64)
        ensures
            r == self.spec_bytes() / 1000000000,
    {
        self.bytes / 1000000000
    }

    /// Get the number of terabytes, rounded down
    pub fn tb(self) -> (r: u64)
        ensures
            r == self.spec_bytes() / 1000000000000,
    {
        self.bytes / 1000000000000
    }

    /// Reads a size such as `1.5 MiB`: a number, whitespace, and a unit among
    /// b, kb, kib, mb, mib, gb, gib, tb and tib, in any case. Words after the
    /// unit are ignored. The byte count is cut down to a whole number.
    pub fn parse(s: &str) -> (r: Result<FileSize, FileSizeParseError>)
        ensures
            is_size_result(lower_of(s@), r),
    {
        let lower = lowercase(s);
        Self::parse_lowercase(lower.as_str())
    }

    /// Like [`FileSize::parse`], on text already in lower case.
    pub fn parse_lowercase(text: &str) -> (r: Result<FileSize, FileSizeParseError>)
        ensures
            is_size_result(text@, r),
    {
        let t = chars_of(text);
        let a = scan_chars(&t, 0, false);
        let b = scan_chars(&t, a, true);
        if a >= t.len() {
            return Err(FileSizeParseError::EmptyString);
        }
        let num = copy_chars(&t, a, b);
        let special = read_special(&num);
        let magnitude = read_magnitude(&num, 18, 20000000000000000000000000000000000000u128);
        if special.is_none() && matches!(magnitude, Magnitude::Malformed) {
            return Err(FileSizeParseError::InvalidNumber);
        }
        let c = scan_chars(&t, b, false);
        let d = scan_chars(&t, c, true);
        if c >= t.len() {
            return Err(FileSizeParseError::NoEnding);
        }
        let ending = string_of(&copy_chars(&t, c, d));
        let mult = match multiplier(ending.as_str()) {
            Some(x) => x,
            None => {
                return Err(FileSizeParseError::UnexpectedEnding(ending));
            },
        };
        let bytes: u64 = match special {
            Some(Special::Infinite { negative }) => if negative {
                0
            } else {
                u64::MAX
            },
            Some(Special::NotANumber) => 0,
            None => match magnitude {
                Magnitude::Within { negative, value } => if negative {
                    0
                } else {
                    scaled_bytes(value, mult)
                },
                Magnitude::TooLarge { negative } => {
                    if !negative {
                        proof {
                            let m = scaled_magnitude(num@, 18);
                            assert(m * mult / (QUINTILLION as int) > u64::MAX) by (nonlinear_arith)
                                requires
                                    m > 20000000000000000000000000000000000000int,
                                    mult >= 1,
                                    QUINTILLION == 1000000000000000000int,
                            ;
                        }
                        u64::MAX
                    } else {
                        0
                    }
                },
                Magnitude::Malformed => 0,
            },
        };
        Ok(FileSize { bytes })
    }
}

} // verus!
