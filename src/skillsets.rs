//! Skillset categories and how users name them.

use vstd::prelude::*;
use crate::text::{lower_of, lowercase, same_text};

verus! {

/// Skillsets enum, excluding overall
#[derive(Copy, Clone, Debug, PartialEq, Eq, Hash, PartialOrd, Ord, Structural)]
pub enum Skillset7 {
    Stream,
    Jumpstream,
    Handstream,
    Stamina,
    Jackspeed,
    Chordjack,
    Technical,
}

/// Skillsets enum, including overall
#[derive(Copy, Clone, Debug, PartialEq, Eq, Hash, PartialOrd, Ord, Structural)]
pub enum Skillset8 {
    Overall,
    Stream,
    Jumpstream,
    Handstream,
    Stamina,
    Jackspeed,
    Chordjack,
    Technical,
}

/// Skillsets enum of the older API, excluding overall
#[derive(Copy, Clone, Debug, PartialEq, Eq, Hash, PartialOrd, Ord, Structural)]
pub enum Skillset {
    Stream,
    Jumpstream,
    Handstream,
    Stamina,
    Jackspeed,
    Chordjack,
    Technical,
}

/// The skillset that a lowercase word names, among the community's spellings.
pub open spec fn skillset8_of_word(w: Seq<char>) -> Option<Skillset8> {
    if w == "overall"@ {
        Some(Skillset8::Overall)
    } else if w == "stream"@ {
        Some(Skillset8::Stream)
    } else if w == "js"@ || w == "jumpstream"@ {
        Some(Skillset8::Jumpstream)
    } else if w == "hs"@ || w == "handstream"@ {
        Some(Skillset8::Handstream)
    } else if w == "stam"@ || w == "stamina"@ {
        Some(Skillset8::Stamina)
    } else if w == "jack"@ || w == "jacks"@ || w == "jackspeed"@ {
        Some(Skillset8::Jackspeed)
    } else if w == "cj"@ || w == "chordjack"@ || w == "chordjacks"@ {
        Some(Skillset8::Chordjack)
    } else if w == "tech"@ || w == "technical"@ {
        Some(Skillset8::Technical)
    } else {
        None
    }
}

pub open spec fn skillset7_of_8(s: Skillset8) -> Option<Skillset7> {
    match s {
        Skillset8::Overall => None,
        Skillset8::Stream => Some(Skillset7::Stream),
        Skillset8::Jumpstream => Some(Skillset7::Jumpstream),
        Skillset8::Handstream => Some(Skillset7::Handstream),
        Skillset8::Stamina => Some(Skillset7::Stamina),
        Skillset8::Jackspeed => Some(Skillset7::Jackspeed),
        Skillset8::Chordjack => Some(Skillset7::Chordjack),
        Skillset8::Technical => Some(Skillset7::Technical),
    }
}

pub open spec fn skillset8_of_7(s: Skillset7) -> Skillset8 {
    match s {
        Skillset7::Stream => Skillset8::Stream,
        Skillset7::Jumpstream => Skillset8::Jumpstream,
        Skillset7::Handstream => Skillset8::Handstream,
        Skillset7::Stamina => Skillset8::Stamina,
        Skillset7::Jackspeed => Skillset8::Jackspeed,
        Skillset7::Chordjack => Skillset8::Chordjack,
        Skillset7::Technical => Skillset8::Technical,
    }
}

pub open spec fn skillset7_of_word(w: Seq<char>) -> Option<Skillset7> {
    match skillset8_of_word(w) {
        Some(s) => skillset7_of_8(s),
        None => None,
    }
}

pub open spec fn skillset_of_7(s: Skillset7) -> Skillset {
    match s {
        Skillset7::Stream => Skillset::Stream,
        Skillset7::Jumpstream => Skillset::Jumpstream,
        Skillset7::Handstream => Skillset::Handstream,
        Skillset7::Stamina => Skillset::Stamina,
        Skillset7::Jackspeed => Skillset::Jackspeed,
        Skillset7::Chordjack => Skillset::Chordjack,
        Skillset7::Technical => Skillset::Technical,
    }
}

pub open spec fn skillset_of_word(w: Seq<char>) -> Option<Skillset> {
    match skillset7_of_word(w) {
        Some(s) => Some(skillset_of_7(s)),
        None => None,
    }
}

pub open spec fn api_name_of(s: Skillset7) -> Seq<char> {
    match s {
        Skillset7::Stream => "Stream"@,
        Skillset7::Jumpstream => "Jumpstream"@,
        Skillset7::Handstream => "Handstream"@,
        Skillset7::Stamina => "Stamina"@,
        Skillset7::Jackspeed => "JackSpeed"@,
        Skillset7::Chordjack => "Chordjack"@,
        Skillset7::Technical => "Technical"@,
    }
}

impl Skillset8 {
    /// Reads a lowercase word as a skillset, accepting the community's spellings.
    pub fn from_lowercase(word: &str) -> (r: Option<Self>)
        ensures
            r == skillset8_of_word(word@),
    {
        if same_text(word, "overall") {
            Some(Self::Overall)
        } else if same_text(word, "stream") {
            Some(Self::Stream)
        } else if same_text(word, "js") || same_text(word, "jumpstream") {
            Some(Self::Jumpstream)
        } else if same_text(word, "hs") || same_text(word, "handstream") {
            Some(Self::Handstream)
        } else if same_text(word, "stam") || same_text(word, "stamina") {
            Some(Self::Stamina)
        } else if same_text(word, "jack") || same_text(word, "jacks") || same_text(
            word,
            "jackspeed",
        ) {
            Some(Self::Jackspeed)
        } else if same_text(word, "cj") || same_text(word, "chordjack") || same_text(
            word,
            "chordjacks",
        ) {
            Some(Self::Chordjack)
        } else if same_text(word, "tech") || same_text(word, "technical") {
            Some(Self::Technical)
        } else {
            None
        }
    }

    /// Converts user input into a skillset variant, case-insensitively.
    /// `None` if the input names no skillset.
    pub fn from_user_input(input: &str) -> (r: Option<Self>)
        ensures
            r == skillset8_of_word(lower_of(input@)),
    {
        let lower = lowercase(input);
        Self::from_lowercase(lower.as_str())
    }

    /// All skillsets, overall first
    pub fn iter() -> (r: Vec<Self>)
        ensures
            r@ == seq![
                Skillset8::Overall,
                Skillset8::Stream,
                Skillset8::Jumpstream,
                Skillset8::Handstream,
                Skillset8::Stamina,
                Skillset8::Jackspeed,
                Skillset8::Chordjack,
                Skillset8::Technical,
            ],
    {
        let r = vec![
            Self::Overall,
            Self::Stream,
            Self::Jumpstream,
            Self::Handstream,
            Self::Stamina,
            Self::Jackspeed,
            Self::Chordjack,
            Self::Technical,
        ];
        assert(r@ =~= seq![
            Skillset8::Overall,
            Skillset8::Stream,
            Skillset8::Jumpstream,
            Skillset8::Handstream,
            Skillset8::Stamina,
            Skillset8::Jackspeed,
            Skillset8::Chordjack,
            Skillset8::Technical,
        ]);
        r
    }

    /// The same skillset without overall; `None` for overall.
    pub fn into_skillset7(self) -> (r: Option<Skillset7>)
        ensures
            r == skillset7_of_8(self),
    {
        match self {
            Self::Overall => None,
            Self::Stream => Some(Skillset7::Stream),
            Self::Jumpstream => Some(Skillset7::Jumpstream),
            Self::Handstream => Some(Skillset7::Handstream),
            Self::Stamina => Some(Skillset7::Stamina),
            Self::Jackspeed => Some(Skillset7::Jackspeed),
            Self::Chordjack => Some(Skillset7::Chordjack),
            Self::Technical => Some(Skillset7::Technical),
        }
    }
}

impl Skillset7 {
    /// Same as [`Skillset8::from_user_input`], with overall read as no skillset.
    pub fn from_user_input(input: &str) -> (r: Option<Self>)
        ensures
            r == skillset7_of_word(lower_of(input@)),
    {
        match Skillset8::from_user_input(input) {
            Some(s) => s.into_skillset7(),
            None => None,
        }
    }

    /// All skillsets
    pub fn iter() -> (r: Vec<Self>)
        ensures
            r@ == seq![
                Skillset7::Stream,
                Skillset7::Jumpstream,
                Skillset7::Handstream,
                Skillset7::Stamina,
                Skillset7::Jackspeed,
                Skillset7::Chordjack,
                Skillset7::Technical,
            ],
    {
        let r = vec![
            Self::Stream,
            Self::Jumpstream,
            Self::Handstream,
            Self::Stamina,
            Self::Jackspeed,
            Self::Chordjack,
            Self::Technical,
        ];
        assert(r@ =~= seq![
            Skillset7::Stream,
            Skillset7::Jumpstream,
            Skillset7::Handstream,
            Skillset7::Stamina,
            Skillset7::Jackspeed,
            Skillset7::Chordjack,
            Skillset7::Technical,
        ]);
        r
    }

    /// The name the service gives this skillset.
    pub fn api_name(self) -> (r: &'static str)
        ensures
            r@ == api_name_of(self),
    {
        match self {
            Self::Stream => "Stream",
            Self::Jumpstream => "Jumpstream",
            Self::Handstream => "Handstream",
            Self::Stamina => "Stamina",
            Self::Jackspeed => "JackSpeed",
            Self::Chordjack => "Chordjack",
            Self::Technical => "Technical",
        }
    }

    /// The same skillset among those with overall
    pub fn into_skillset8(self) -> (r: Skillset8)
        ensures
            r == skillset8_of_7(self),
    {
        match self {
            Self::Stream => Skillset8::Stream,
            Self::Jumpstream => Skillset8::Jumpstream,
            Self::Handstream => Skillset8::Handstream,
            Self::Stamina => Skillset8::Stamina,
            Self::Jackspeed => Skillset8::Jackspeed,
            Self::Chordjack => Skillset8::Chordjack,
            Self::Technical => Skillset8::Technical,
        }
    }
}

impl From<Skillset7> for Skillset8 {
    fn from(ss: Skillset7) -> (r: Skillset8) {
        ss.into_skillset8()
    }
}

impl vstd::std_specs::convert::FromSpecImpl<Skillset7> for Skillset8 {
    open spec fn obeys_from_spec() -> bool {
        true
    }

    open spec fn from_spec(ss: Skillset7) -> Skillset8 {
        skillset8_of_7(ss)
    }
}

impl Skillset {
    /// Converts user input into a skillset variant, case-insensitively.
    /// `None` if the input names no skillset (overall included).
    pub fn from_user_input(input: &str) -> (r: Option<Self>)
        ensures
            r == skillset_of_word(lower_of(input@)),
    {
        match Skillset7::from_user_input(input) {
            Some(Skillset7::Stream) => Some(Skillset::Stream),
            Some(Skillset7::Jumpstream) => Some(Skillset::Jumpstream),
            Some(Skillset7::Handstream) => Some(Skillset::Handstream),
            Some(Skillset7::Stamina) => Some(Skillset::Stamina),
            Some(Skillset7::Jackspeed) => Some(Skillset::Jackspeed),
            Some(Skillset7::Chordjack) => Some(Skillset::Chordjack),
            Some(Skillset7::Technical) => Some(Skillset::Technical),
            None => None,
        }
    }
}

/// Every skillset but overall survives the round trip through the type with
/// overall, and overall is the one skillset with no counterpart.
pub proof fn lemma_skillset_round_trip(s: Skillset7, t: Skillset8)
    ensures
        skillset7_of_8(skillset8_of_7(s)) == Some(s),
        skillset7_of_8(t) is None <==> t == Skillset8::Overall,
        skillset7_of_8(t) matches Some(u) ==> skillset8_of_7(u) == t,
{
}

} // verus!
