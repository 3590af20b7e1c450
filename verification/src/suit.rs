//! The four suits, their canonical index, and their text form. Suits carry
//! no intrinsic order; they only matter for flush and badugi distinctness.

use vstd::prelude::*;

verus! {

/// One of the four suits of a playing card.
#[derive(Clone, Copy, Debug, PartialEq, Eq, Structural, Hash)]
pub enum Suit {
    Spade,
    Heart,
    Diamond,
    Club,
}

/// Arbitrary fixed 0-based index of a suit, used only to enumerate the
/// deck; it carries no ranking meaning.
pub open spec fn suit_index(s: Suit) -> int {
    match s {
        Suit::Spade => 0,
        Suit::Heart => 1,
        Suit::Diamond => 2,
        Suit::Club => 3,
    }
}

/// The suit with the given canonical index; indices outside `0..4` map to
/// `Club`.
pub open spec fn suit_of_index(i: int) -> Suit {
    if i == 0 {
        Suit::Spade
    } else if i == 1 {
        Suit::Heart
    } else if i == 2 {
        Suit::Diamond
    } else {
        Suit::Club
    }
}

/// Lowercase suit character of a suit, as used in card tokens.
pub open spec fn suit_char(s: Suit) -> char {
    match s {
        Suit::Spade => 's',
        Suit::Heart => 'h',
        Suit::Diamond => 'd',
        Suit::Club => 'c',
    }
}

/// Suit denoted by a suit character, case-insensitively; `None` for any
/// other character.
pub open spec fn suit_of_char(c: char) -> Option<Suit> {
    if c == 's' || c == 'S' {
        Some(Suit::Spade)
    } else if c == 'h' || c == 'H' {
        Some(Suit::Heart)
    } else if c == 'd' || c == 'D' {
        Some(Suit::Diamond)
    } else if c == 'c' || c == 'C' {
        Some(Suit::Club)
    } else {
        None
    }
}

impl Suit {
    /// Arbitrary fixed 0-based index, used only to enumerate the deck.
    pub fn index(&self) -> (r: u8)
        ensures
            r as int == suit_index(*self),
    {
        match self {
            Suit::Spade => 0,
            Suit::Heart => 1,
            Suit::Diamond => 2,
            Suit::Club => 3,
        }
    }

    /// The suit with the given canonical index.
    pub fn from_index(i: u8) -> (r: Suit)
        requires
            i < 4,
        ensures
            r == suit_of_index(i as int),
    {
        if i == 0 {
            Suit::Spade
        } else if i == 1 {
            Suit::Heart
        } else if i == 2 {
            Suit::Diamond
        } else {
            Suit::Club
        }
    }

    /// One-character lowercase name, as used in card tokens.
    pub fn short_name(&self) -> (r: &str)
        ensures
            r@.len() == 1,
            r@[0] == suit_char(*self),
    {
        proof {
            reveal_strlit("s");
            reveal_strlit("h");
            reveal_strlit("d");
            reveal_strlit("c");
        }
        match self {
            Suit::Spade => "s",
            Suit::Heart => "h",
            Suit::Diamond => "d",
            Suit::Club => "c",
        }
    }

    /// Full lowercase English name of the suit.
    pub fn full_name(&self) -> (r: &str)
        ensures
            r@ == spec_full_name(*self),
    {
        match self {
            Suit::Spade => "spade",
            Suit::Heart => "heart",
            Suit::Diamond => "diamond",
            Suit::Club => "club",
        }
    }

    /// Unicode symbol of the suit.
    pub fn symbol(&self) -> (r: &str)
        ensures
            r@ == spec_symbol(*self),
    {
        match self {
            Suit::Spade => "♠",
            Suit::Heart => "♥",
            Suit::Diamond => "♦",
            Suit::Club => "♣",
        }
    }

    /// Suit denoted by a character, case-insensitively.
    pub fn from_char(c: char) -> (r: Option<Suit>)
        ensures
            r == suit_of_char(c),
    {
        if c == 's' || c == 'S' {
            Some(Suit::Spade)
        } else if c == 'h' || c == 'H' {
            Some(Suit::Heart)
        } else if c == 'd' || c == 'D' {
            Some(Suit::Diamond)
        } else if c == 'c' || c == 'C' {
            Some(Suit::Club)
        } else {
            None
        }
    }
}

/// Full lowercase English name of a suit.
pub open spec fn spec_full_name(s: Suit) -> Seq<char> {
    match s {
        Suit::Spade => "spade"@,
        Suit::Heart => "heart"@,
        Suit::Diamond => "diamond"@,
        Suit::Club => "club"@,
    }
}

/// Unicode symbol of a suit.
pub open spec fn spec_symbol(s: Suit) -> Seq<char> {
    match s {
        Suit::Spade => "♠"@,
        Suit::Heart => "♥"@,
        Suit::Diamond => "♦"@,
        Suit::Club => "♣"@,
    }
}

impl Default for Suit {
    /// The default suit is hearts.
    fn default() -> (r: Self)
        ensures
            r == Suit::Heart,
    {
        Suit::Heart
    }
}

/// Suit denoted by a one-character string, case-insensitively; `None` for
/// the empty string, a longer string, or an unknown character.
pub fn from_str(s: &str) -> (r: Option<Suit>)
    ensures
        r == (if s@.len() == 1 {
            suit_of_char(s@[0])
        } else {
            None::<Suit>
        }),
{
    if s.unicode_len() == 1 {
        Suit::from_char(s.get_char(0))
    } else {
        None
    }
}

/// Re-parsing a suit's own character gives the suit back, and the two
/// canonical index maps invert each other.
pub proof fn lemma_suit_char_round_trip(s: Suit)
    ensures
        suit_of_char(suit_char(s)) == Some(s),
        suit_of_index(suit_index(s)) == s,
{
}

} // verus!
