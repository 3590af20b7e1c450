//! The thirteen face values of a playing card, their canonical index,
//! their per-discipline order key, and their text form.

use vstd::prelude::*;

use crate::game::AceRanking;

verus! {

/// One of the 13 face values, ordered `Deuce < … < Ace` under the default
/// (high-ace) convention. Alternate orderings are a property of the ranking
/// discipline, not of `Kind` itself.
#[derive(Clone, Copy, Debug, PartialEq, Eq, Structural, Hash)]
pub enum Kind {
    Deuce,
    Three,
    Four,
    Five,
    Six,
    Seven,
    Eight,
    Nine,
    Ten,
    Jack,
    Queen,
    King,
    Ace,
}

/// Canonical 0-based index of a face value: `Deuce = 0` up to `Ace = 12`.
pub open spec fn kind_index(k: Kind) -> int {
    match k {
        Kind::Deuce => 0,
        Kind::Three => 1,
        Kind::Four => 2,
        Kind::Five => 3,
        Kind::Six => 4,
        Kind::Seven => 5,
        Kind::Eight => 6,
        Kind::Nine => 7,
        Kind::Ten => 8,
        Kind::Jack => 9,
        Kind::Queen => 10,
        Kind::King => 11,
        Kind::Ace => 12,
    }
}

/// The face value with the given canonical index; indices outside `0..13`
/// map to `Ace`.
pub open spec fn kind_of_index(i: int) -> Kind {
    if i == 0 {
        Kind::Deuce
    } else if i == 1 {
        Kind::Three
    } else if i == 2 {
        Kind::Four
    } else if i == 3 {
        Kind::Five
    } else if i == 4 {
        Kind::Six
    } else if i == 5 {
        Kind::Seven
    } else if i == 6 {
        Kind::Eight
    } else if i == 7 {
        Kind::Nine
    } else if i == 8 {
        Kind::Ten
    } else if i == 9 {
        Kind::Jack
    } else if i == 10 {
        Kind::Queen
    } else if i == 11 {
        Kind::King
    } else {
        Kind::Ace
    }
}

/// Numeric rank of a face value under a ranking discipline. High-hand and
/// deuce-to-seven keep the ace on top; the ace-low disciplines map the ace
/// to the lowest key and shift the rest up by one.
pub open spec fn spec_kind_key(k: Kind, r: AceRanking) -> int {
    match r {
        AceRanking::High => kind_index(k),
        AceRanking::DeuceToSeven => kind_index(k),
        _ => if k == Kind::Ace {
            0
        } else {
            kind_index(k) + 1
        },
    }
}

/// Uppercase rank character of a face value, as used in card tokens.
pub open spec fn kind_char(k: Kind) -> char {
    match k {
        Kind::Deuce => '2',
        Kind::Three => '3',
        Kind::Four => '4',
        Kind::Five => '5',
        Kind::Six => '6',
        Kind::Seven => '7',
        Kind::Eight => '8',
        Kind::Nine => '9',
        Kind::Ten => 'T',
        Kind::Jack => 'J',
        Kind::Queen => 'Q',
        Kind::King => 'K',
        Kind::Ace => 'A',
    }
}

/// Face value denoted by a rank character, case-insensitively; `None` for
/// any other character.
pub open spec fn kind_of_char(c: char) -> Option<Kind> {
    if c == '2' {
        Some(Kind::Deuce)
    } else if c == '3' {
        Some(Kind::Three)
    } else if c == '4' {
        Some(Kind::Four)
    } else if c == '5' {
        Some(Kind::Five)
    } else if c == '6' {
        Some(Kind::Six)
    } else if c == '7' {
        Some(Kind::Seven)
    } else if c == '8' {
        Some(Kind::Eight)
    } else if c == '9' {
        Some(Kind::Nine)
    } else if c == 'T' || c == 't' {
        Some(Kind::Ten)
    } else if c == 'J' || c == 'j' {
        Some(Kind::Jack)
    } else if c == 'Q' || c == 'q' {
        Some(Kind::Queen)
    } else if c == 'K' || c == 'k' {
        Some(Kind::King)
    } else if c == 'A' || c == 'a' {
        Some(Kind::Ace)
    } else {
        None
    }
}

impl Kind {
    /// Canonical 0-based index, `Deuce = 0` up to `Ace = 12`.
    pub fn index(&self) -> (r: u8)
        ensures
            r as int == kind_index(*self),
    {
        match self {
            Kind::Deuce => 0,
            Kind::Three => 1,
            Kind::Four => 2,
            Kind::Five => 3,
            Kind::Six => 4,
            Kind::Seven => 5,
            Kind::Eight => 6,
            Kind::Nine => 7,
            Kind::Ten => 8,
            Kind::Jack => 9,
            Kind::Queen => 10,
            Kind::King => 11,
            Kind::Ace => 12,
        }
    }

    /// The face value with the given canonical index.
    pub fn from_index(i: u8) -> (r: Kind)
        requires
            i < 13,
        ensures
            r == kind_of_index(i as int),
    {
        if i == 0 {
            Kind::Deuce
        } else if i == 1 {
            Kind::Three
        } else if i == 2 {
            Kind::Four
        } else if i == 3 {
            Kind::Five
        } else if i == 4 {
            Kind::Six
        } else if i == 5 {
            Kind::Seven
        } else if i == 6 {
            Kind::Eight
        } else if i == 7 {
            Kind::Nine
        } else if i == 8 {
            Kind::Ten
        } else if i == 9 {
            Kind::Jack
        } else if i == 10 {
            Kind::Queen
        } else if i == 11 {
            Kind::King
        } else {
            Kind::Ace
        }
    }

    /// Numeric rank under the given discipline.
    pub fn order_key(&self, r: AceRanking) -> (k: u8)
        ensures
            k as int == spec_kind_key(*self, r),
            k <= 12,
    {
        match r {
            AceRanking::High => self.index(),
            AceRanking::DeuceToSeven => self.index(),
            _ => {
                if *self == Kind::Ace {
                    0
                } else {
                    self.index() + 1
                }
            },
        }
    }

    /// One-character uppercase name, as used in card tokens.
    pub fn short_name(&self) -> (r: &str)
        ensures
            r@.len() == 1,
            r@[0] == kind_char(*self),
    {
        proof {
            reveal_strlit("2");
            reveal_strlit("3");
            reveal_strlit("4");
            reveal_strlit("5");
            reveal_strlit("6");
            reveal_strlit("7");
            reveal_strlit("8");
            reveal_strlit("9");
            reveal_strlit("T");
            reveal_strlit("J");
            reveal_strlit("Q");
            reveal_strlit("K");
            reveal_strlit("A");
        }
        match self {
            Kind::Deuce => "2",
            Kind::Three => "3",
            Kind::Four => "4",
            Kind::Five => "5",
            Kind::Six => "6",
            Kind::Seven => "7",
            Kind::Eight => "8",
            Kind::Nine => "9",
            Kind::Ten => "T",
            Kind::Jack => "J",
            Kind::Queen => "Q",
            Kind::King => "K",
            Kind::Ace => "A",
        }
    }

    /// Full lowercase English name of the face value.
    pub fn full_name(&self) -> (r: &str)
        ensures
            r@ == spec_full_name(*self),
    {
        match self {
            Kind::Deuce => "deuce",
            Kind::Three => "three",
            Kind::Four => "four",
            Kind::Five => "five",
            Kind::Six => "six",
            Kind::Seven => "seven",
            Kind::Eight => "eight",
            Kind::Nine => "nine",
            Kind::Ten => "ten",
            Kind::Jack => "jack",
            Kind::Queen => "queen",
            Kind::King => "king",
            Kind::Ace => "ace",
        }
    }

    /// Face value denoted by a character, case-insensitively.
    pub fn from_char(c: char) -> (r: Option<Kind>)
        ensures
            r == kind_of_char(c),
    {
        if c == '2' {
            Some(Kind::Deuce)
        } else if c == '3' {
            Some(Kind::Three)
        } else if c == '4' {
            Some(Kind::Four)
        } else if c == '5' {
            Some(Kind::Five)
        } else if c == '6' {
            Some(Kind::Six)
        } else if c == '7' {
            Some(Kind::Seven)
        } else if c == '8' {
            Some(Kind::Eight)
        } else if c == '9' {
            Some(Kind::Nine)
        } else if c == 'T' || c == 't' {
            Some(Kind::Ten)
        } else if c == 'J' || c == 'j' {
            Some(Kind::Jack)
        } else if c == 'Q' || c == 'q' {
            Some(Kind::Queen)
        } else if c == 'K' || c == 'k' {
            Some(Kind::King)
        } else if c == 'A' || c == 'a' {
            Some(Kind::Ace)
        } else {
            None
        }
    }
}

/// Full lowercase English name of a face value.
pub open spec fn spec_full_name(k: Kind) -> Seq<char> {
    match k {
        Kind::Deuce => "deuce"@,
        Kind::Three => "three"@,
        Kind::Four => "four"@,
        Kind::Five => "five"@,
        Kind::Six => "six"@,
        Kind::Seven => "seven"@,
        Kind::Eight => "eight"@,
        Kind::Nine => "nine"@,
        Kind::Ten => "ten"@,
        Kind::Jack => "jack"@,
        Kind::Queen => "queen"@,
        Kind::King => "king"@,
        Kind::Ace => "ace"@,
    }
}

impl Default for Kind {
    /// The default face value is the ace.
    fn default() -> (r: Self)
        ensures
            r == Kind::Ace,
    {
        Kind::Ace
    }
}

/// Face value denoted by a one-character string, case-insensitively;
/// `None` for the empty string, a longer string, or an unknown character.
pub fn from_str(s: &str) -> (r: Option<Kind>)
    ensures
        r == (if s@.len() == 1 {
            kind_of_char(s@[0])
        } else {
            None::<Kind>
        }),
{
    if s.unicode_len() == 1 {
        Kind::from_char(s.get_char(0))
    } else {
        None
    }
}

/// The canonical index and the character form of a face value invert each
/// other: re-parsing a kind's own rank character gives the kind back, and
/// so does parsing its lowercase variant.
pub proof fn lemma_kind_char_round_trip(k: Kind)
    ensures
        kind_of_char(kind_char(k)) == Some(k),
        kind_index(kind_of_index(kind_index(k))) == kind_index(k),
        kind_of_index(kind_index(k)) == k,
{
}

} // verus!
