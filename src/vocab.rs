//! The closed vocabularies of a run's category.
use vstd::prelude::*;
use crate::error::ParseError;
use crate::text::chars_of;

verus! {

/// Whether the word `w` is exactly the literal `lit`.
pub(crate) fn is_word(w: &Vec<char>, lit: &str) -> (r: bool)
    ensures
        r == (w@ == lit@),
{
    let l = chars_of(lit);
    if w.len() != l.len() {
        return false;
    }
    let mut i: usize = 0;
    while i < w.len()
        invariant
            w@.len() == l@.len(),
            l@ == lit@,
            i <= w.len(),
            forall|k: int| 0 <= k < i ==> w@[k] == l@[k],
        decreases w.len() - i,
    {
        if w[i] != l[i] {
            return false;
        }
        i = i + 1;
    }
    assert(w@ =~= l@);
    true
}

#[derive(Clone, Copy, Debug, PartialEq, Eq, Structural)]
pub enum Character {
    Ironclad,
    Silent,
    Defect,
    Watcher,
    Four,
}

pub open spec fn character_of(w: Seq<char>) -> Result<Character, ParseError> {
    if w == "Ironclad"@ {
        Ok(Character::Ironclad)
    } else if w == "Silent"@ {
        Ok(Character::Silent)
    } else if w == "Defect"@ {
        Ok(Character::Defect)
    } else if w == "Watcher"@ {
        Ok(Character::Watcher)
    } else if w == "4-Character"@ {
        Ok(Character::Four)
    } else {
        Err(ParseError::InvalidCharacter)
    }
}

impl Character {
    /// The character that the word names, case-sensitively.
    pub fn from_chars(w: &Vec<char>) -> (r: Result<Character, ParseError>)
        ensures
            r == character_of(w@),
    {
        if is_word(w, "Ironclad") {
            Ok(Character::Ironclad)
        } else if is_word(w, "Silent") {
            Ok(Character::Silent)
        } else if is_word(w, "Defect") {
            Ok(Character::Defect)
        } else if is_word(w, "Watcher") {
            Ok(Character::Watcher)
        } else if is_word(w, "4-Character") {
            Ok(Character::Four)
        } else {
            Err(ParseError::InvalidCharacter)
        }
    }
}

#[derive(Clone, Copy, Debug, PartialEq, Eq, Structural)]
pub enum Difficulty {
    Any,
    A20,
}

pub open spec fn difficulty_of(w: Seq<char>) -> Result<Difficulty, ParseError> {
    if w == "Any%"@ {
        Ok(Difficulty::Any)
    } else if w == "Ascension-20"@ {
        Ok(Difficulty::A20)
    } else {
        Err(ParseError::InvalidDifficulty)
    }
}

impl Difficulty {
    /// The difficulty that the word names, case-sensitively.
    pub fn from_chars(w: &Vec<char>) -> (r: Result<Difficulty, ParseError>)
        ensures
            r == difficulty_of(w@),
    {
        if is_word(w, "Any%") {
            Ok(Difficulty::Any)
        } else if is_word(w, "Ascension-20") {
            Ok(Difficulty::A20)
        } else {
            Err(ParseError::InvalidDifficulty)
        }
    }
}

#[derive(Clone, Copy, Debug, PartialEq, Eq, Structural)]
pub enum Seeding {
    Seeded,
    Unseeded,
}

pub open spec fn seeding_of(w: Seq<char>) -> Result<Seeding, ParseError> {
    if w == "Unseeded"@ {
        Ok(Seeding::Unseeded)
    } else if w == "Seeded"@ {
        Ok(Seeding::Seeded)
    } else {
        Err(ParseError::InvalidSeeding)
    }
}

impl Seeding {
    /// The seeding mode that the word names, case-sensitively.
    pub fn from_chars(w: &Vec<char>) -> (r: Result<Seeding, ParseError>)
        ensures
            r == seeding_of(w@),
    {
        if is_word(w, "Unseeded") {
            Ok(Seeding::Unseeded)
        } else if is_word(w, "Seeded") {
            Ok(Seeding::Seeded)
        } else {
            Err(ParseError::InvalidSeeding)
        }
    }
}

#[derive(Clone, Copy, Debug, PartialEq, Eq, Structural)]
pub enum Glitching {
    Glitchless,
    Glitched,
}

pub open spec fn glitching_of(w: Seq<char>) -> Result<Glitching, ParseError> {
    if w == "Glitchless"@ {
        Ok(Glitching::Glitchless)
    } else if w == "Glitched"@ {
        Ok(Glitching::Glitched)
    } else {
        Err(ParseError::InvalidGlitching)
    }
}

impl Glitching {
    /// The glitch mode that the word names, case-sensitively.
    pub fn from_chars(w: &Vec<char>) -> (r: Result<Glitching, ParseError>)
        ensures
            r == glitching_of(w@),
    {
        if is_word(w, "Glitchless") {
            Ok(Glitching::Glitchless)
        } else if is_word(w, "Glitched") {
            Ok(Glitching::Glitched)
        } else {
            Err(ParseError::InvalidGlitching)
        }
    }
}

} // verus!
