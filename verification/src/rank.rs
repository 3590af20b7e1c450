//! Hand categories. Each ranking discipline has its own category
//! enumeration, and `Rank` tags a category with its discipline so that a
//! category can never be read under the wrong discipline.

use vstd::prelude::*;

verus! {

/// High-hand categories, weakest to strongest.
#[derive(Clone, Copy, Debug, PartialEq, Eq, Structural)]
pub enum High {
    HighCard,
    OnePair,
    TwoPair,
    ThreeKind,
    Straight,
    Flush,
    FullHouse,
    FourKind,
    StraightFlush,
}

/// Badugi categories: the size of the best rainbow subset. A larger
/// badugi always beats a smaller one.
#[derive(Clone, Copy, Debug, PartialEq, Eq, Structural)]
pub enum Badugi {
    BadugiOne,
    BadugiTwo,
    BadugiThree,
    BadugiFour,
}

/// Lowball categories: a complete low has five distinct face values; any
/// paired or undersized hand is incomplete.
#[derive(Clone, Copy, Debug, PartialEq, Eq, Structural)]
pub enum Low {
    CompleteLow,
    IncompleteLow,
}

/// A hand category tagged with its discipline. A `Rank` is meaningful
/// only when compared against another `Rank` of the same discipline.
#[derive(Clone, Copy, Debug, PartialEq, Eq, Structural)]
pub enum Rank {
    High(High),
    Low(Low),
    Badugi(Badugi),
}

/// Numeric strength of a high-hand category within its discipline.
pub open spec fn high_index(h: High) -> int {
    match h {
        High::HighCard => 0,
        High::OnePair => 1,
        High::TwoPair => 2,
        High::ThreeKind => 3,
        High::Straight => 4,
        High::Flush => 5,
        High::FullHouse => 6,
        High::FourKind => 7,
        High::StraightFlush => 8,
    }
}

/// Numeric strength of a badugi category within its discipline.
pub open spec fn badugi_index(b: Badugi) -> int {
    match b {
        Badugi::BadugiOne => 0,
        Badugi::BadugiTwo => 1,
        Badugi::BadugiThree => 2,
        Badugi::BadugiFour => 3,
    }
}

/// Numeric strength of a lowball category within its discipline.
pub open spec fn low_index(l: Low) -> int {
    match l {
        Low::IncompleteLow => 0,
        Low::CompleteLow => 1,
    }
}

/// Numeric strength of a category within its own discipline. Comparing
/// these numbers across disciplines is meaningless.
pub open spec fn cat_index(r: Rank) -> int {
    match r {
        Rank::High(h) => high_index(h),
        Rank::Low(l) => low_index(l),
        Rank::Badugi(b) => badugi_index(b),
    }
}

/// Whether two ranks belong to the same discipline; only then is their
/// comparison defined.
pub open spec fn same_discipline(a: Rank, b: Rank) -> bool {
    match (a, b) {
        (Rank::High(_), Rank::High(_)) => true,
        (Rank::Low(_), Rank::Low(_)) => true,
        (Rank::Badugi(_), Rank::Badugi(_)) => true,
        _ => false,
    }
}

impl High {
    /// Hyphenated lowercase name of the category.
    pub fn name(&self) -> (r: &str)
        ensures
            r@ == spec_high_name(*self),
    {
        match self {
            High::HighCard => "high-card",
            High::OnePair => "one-pair",
            High::TwoPair => "two-pair",
            High::ThreeKind => "three-kind",
            High::Straight => "straight",
            High::Flush => "flush",
            High::FullHouse => "full-house",
            High::FourKind => "four-kind",
            High::StraightFlush => "straight-flush",
        }
    }

    /// Numeric strength of the category within the high discipline.
    pub fn index(&self) -> (r: u8)
        ensures
            r as int == high_index(*self),
    {
        match self {
            High::HighCard => 0,
            High::OnePair => 1,
            High::TwoPair => 2,
            High::ThreeKind => 3,
            High::Straight => 4,
            High::Flush => 5,
            High::FullHouse => 6,
            High::FourKind => 7,
            High::StraightFlush => 8,
        }
    }
}

/// Hyphenated lowercase name of a high-hand category.
pub open spec fn spec_high_name(h: High) -> Seq<char> {
    match h {
        High::HighCard => "high-card"@,
        High::OnePair => "one-pair"@,
        High::TwoPair => "two-pair"@,
        High::ThreeKind => "three-kind"@,
        High::Straight => "straight"@,
        High::Flush => "flush"@,
        High::FullHouse => "full-house"@,
        High::FourKind => "four-kind"@,
        High::StraightFlush => "straight-flush"@,
    }
}

impl Badugi {
    /// Hyphenated lowercase name of the category.
    pub fn name(&self) -> (r: &str)
        ensures
            r@ == spec_badugi_name(*self),
    {
        match self {
            Badugi::BadugiOne => "badugi-one",
            Badugi::BadugiTwo => "badugi-two",
            Badugi::BadugiThree => "badugi-three",
            Badugi::BadugiFour => "badugi-four",
        }
    }

    /// Numeric strength of the category within the badugi discipline.
    pub fn index(&self) -> (r: u8)
        ensures
            r as int == badugi_index(*self),
    {
        match self {
            Badugi::BadugiOne => 0,
            Badugi::BadugiTwo => 1,
            Badugi::BadugiThree => 2,
            Badugi::BadugiFour => 3,
        }
    }

    /// The badugi category for a rainbow subset of the given size.
    pub fn of_size(n: usize) -> (r: Badugi)
        requires
            1 <= n <= 4,
        ensures
            badugi_index(r) == n - 1,
    {
        if n == 1 {
            Badugi::BadugiOne
        } else if n == 2 {
            Badugi::BadugiTwo
        } else if n == 3 {
            Badugi::BadugiThree
        } else {
            Badugi::BadugiFour
        }
    }
}

/// Hyphenated lowercase name of a badugi category.
pub open spec fn spec_badugi_name(b: Badugi) -> Seq<char> {
    match b {
        Badugi::BadugiOne => "badugi-one"@,
        Badugi::BadugiTwo => "badugi-two"@,
        Badugi::BadugiThree => "badugi-three"@,
        Badugi::BadugiFour => "badugi-four"@,
    }
}

impl Low {
    /// Hyphenated lowercase name of the category.
    pub fn name(&self) -> (r: &str)
        ensures
            r@ == spec_low_name(*self),
    {
        match self {
            Low::CompleteLow => "complete-low",
            Low::IncompleteLow => "incomplete-low",
        }
    }

    /// Numeric strength of the category within the lowball disciplines.
    pub fn index(&self) -> (r: u8)
        ensures
            r as int == low_index(*self),
    {
        match self {
            Low::IncompleteLow => 0,
            Low::CompleteLow => 1,
        }
    }
}

/// Hyphenated lowercase name of a lowball category.
pub open spec fn spec_low_name(l: Low) -> Seq<char> {
    match l {
        Low::CompleteLow => "complete-low"@,
        Low::IncompleteLow => "incomplete-low"@,
    }
}

impl Rank {
    /// Numeric strength of the category within its own discipline.
    pub fn category_index(&self) -> (r: u8)
        ensures
            r as int == cat_index(*self),
    {
        match self {
            Rank::High(h) => h.index(),
            Rank::Low(l) => l.index(),
            Rank::Badugi(b) => b.index(),
        }
    }
}

/// The strongest high-hand rank.
pub fn straight_flush() -> (r: Rank)
    ensures
        r == Rank::High(High::StraightFlush),
{
    Rank::High(High::StraightFlush)
}

/// The second-strongest high-hand rank.
pub fn four_kind() -> (r: Rank)
    ensures
        r == Rank::High(High::FourKind),
{
    Rank::High(High::FourKind)
}

} // verus!
