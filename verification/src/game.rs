//! Game variants, their options, stakes, streets, and the rotation of
//! mixed games.

use vstd::prelude::*;

use crate::bet::Action;
use crate::deck::Deck;
use crate::locale::Currency;
use crate::table::Table;

verus! {

/// A named ranking convention: which kind ordering applies and which
/// category set a classifier uses.
#[derive(Clone, Copy, Debug, PartialEq, Eq, Structural)]
pub enum AceRanking {
    High,
    Low,
    AceToFive,
    AceToFive8,
    AceToSix,
    DeuceToSeven,
    Badugi,
}

/// The betting limit structure of a game.
#[derive(Clone, Copy, Debug, PartialEq, Eq, Structural)]
pub enum Limit {
    FixedLimit,
    PotLimit,
    NoLimit,
}

impl Default for Limit {
    /// The default limit structure is fixed limit.
    fn default() -> (r: Self)
        ensures
            r == Limit::FixedLimit,
    {
        Limit::FixedLimit
    }
}

/// Full English name of a limit structure.
pub open spec fn spec_limit_full_name(l: Limit) -> Seq<char> {
    match l {
        Limit::FixedLimit => "Fixed Limit"@,
        Limit::PotLimit => "Pot Limit"@,
        Limit::NoLimit => "No Limit"@,
    }
}

/// Two-letter abbreviation of a limit structure.
pub open spec fn spec_limit_short_name(l: Limit) -> Seq<char> {
    match l {
        Limit::FixedLimit => "FL"@,
        Limit::PotLimit => "PL"@,
        Limit::NoLimit => "NL"@,
    }
}

impl Limit {
    /// Full English name of the limit structure.
    pub fn full_name(&self) -> (r: &str)
        ensures
            r@ == spec_limit_full_name(*self),
    {
        match self {
            Limit::FixedLimit => "Fixed Limit",
            Limit::PotLimit => "Pot Limit",
            Limit::NoLimit => "No Limit",
        }
    }

    /// Two-letter abbreviation of the limit structure.
    pub fn short_name(&self) -> (r: &str)
        ensures
            r@ == spec_limit_short_name(*self),
    {
        match self {
            Limit::FixedLimit => "FL",
            Limit::PotLimit => "PL",
            Limit::NoLimit => "NL",
        }
    }
}

/// A poker variant the platform can deal.
#[derive(Clone, Copy, Debug, PartialEq, Eq, Structural)]
pub enum Name {
    Texas,
    Omaha,
    Omaha8,
    Stud,
    Stud8,
    Razz,
    London,
    FiveCard,
    Single27,
    Triple27,
    Badugi,
}

impl Default for Name {
    /// The default variant is Texas Hold'em.
    fn default() -> (r: Self)
        ensures
            r == Name::Texas,
    {
        Name::Texas
    }
}

/// Human-readable name of a variant.
pub open spec fn spec_human_readable_name(n: Name) -> Seq<char> {
    match n {
        Name::Texas => "Texas Hold'em"@,
        Name::Omaha => "Omaha"@,
        Name::Omaha8 => "Omaha Hi/Lo"@,
        Name::Stud => "Stud"@,
        Name::Stud8 => "Stud Hi/Lo"@,
        Name::Razz => "Razz"@,
        Name::London => "London"@,
        Name::FiveCard => "5-card Draw"@,
        Name::Single27 => "Single 2-7 Draw"@,
        Name::Triple27 => "Triple 2-7 Draw"@,
        Name::Badugi => "Badugi"@,
    }
}

impl Name {
    /// Human-readable name of the variant.
    pub fn human_readable_name(&self) -> (r: &str)
        ensures
            r@ == spec_human_readable_name(*self),
    {
        match self {
            Name::Texas => "Texas Hold'em",
            Name::Omaha => "Omaha",
            Name::Omaha8 => "Omaha Hi/Lo",
            Name::Stud => "Stud",
            Name::Stud8 => "Stud Hi/Lo",
            Name::Razz => "Razz",
            Name::London => "London",
            Name::FiveCard => "5-card Draw",
            Name::Single27 => "Single 2-7 Draw",
            Name::Triple27 => "Triple 2-7 Draw",
            Name::Badugi => "Badugi",
        }
    }
}

/// A game in a mix: a variant and the limit it is played at.
pub type GameType = (Name, Limit);

/// A rotation of games played in turn.
#[derive(Clone, Copy, Debug, PartialEq, Eq, Structural)]
pub enum Mix {
    EightGame,
    Horse,
}

impl Default for Mix {
    /// The default mix is the eight-game rotation.
    fn default() -> (r: Self)
        ensures
            r == Mix::EightGame,
    {
        Mix::EightGame
    }
}

/// The ordered rotation of a mix.
pub open spec fn spec_mix_games(m: Mix) -> Seq<GameType> {
    match m {
        Mix::EightGame => seq![
            (Name::Triple27, Limit::FixedLimit),
            (Name::Texas, Limit::FixedLimit),
            (Name::Omaha8, Limit::FixedLimit),
            (Name::Razz, Limit::FixedLimit),
            (Name::Stud, Limit::FixedLimit),
            (Name::Stud8, Limit::FixedLimit),
            (Name::Texas, Limit::NoLimit),
            (Name::Omaha, Limit::PotLimit),
        ],
        Mix::Horse => seq![
            (Name::Texas, Limit::FixedLimit),
            (Name::Omaha8, Limit::FixedLimit),
            (Name::Razz, Limit::FixedLimit),
            (Name::Stud, Limit::FixedLimit),
            (Name::Stud8, Limit::FixedLimit),
        ],
    }
}

impl Mix {
    /// The ordered rotation of this mix.
    pub fn games(&self) -> (r: Vec<GameType>)
        ensures
            r@ == spec_mix_games(*self),
            r@.len() > 0,
    {
        let r: Vec<GameType> = match self {
            Mix::EightGame => vec![
                (Name::Triple27, Limit::FixedLimit),
                (Name::Texas, Limit::FixedLimit),
                (Name::Omaha8, Limit::FixedLimit),
                (Name::Razz, Limit::FixedLimit),
                (Name::Stud, Limit::FixedLimit),
                (Name::Stud8, Limit::FixedLimit),
                (Name::Texas, Limit::NoLimit),
                (Name::Omaha, Limit::PotLimit),
            ],
            Mix::Horse => vec![
                (Name::Texas, Limit::FixedLimit),
                (Name::Omaha8, Limit::FixedLimit),
                (Name::Razz, Limit::FixedLimit),
                (Name::Stud, Limit::FixedLimit),
                (Name::Stud8, Limit::FixedLimit),
            ],
        };
        proof {
            assert(r@ =~= spec_mix_games(*self));
        }
        r
    }

    /// The game the rotation opens with.
    pub fn first(&self) -> (r: GameType)
        ensures
            r == spec_mix_games(*self)[0],
    {
        let games = self.games();
        games[0]
    }

    /// The game that follows the given one in the rotation, wrapping from
    /// the last game back to the first; `None` if the given game is not
    /// part of the rotation.
    pub fn next(&self, name: Name, limit: Limit) -> (r: Option<GameType>)
        ensures
            match r {
                Some(t) => exists|i: int|
                    {
                        &&& 0 <= i < spec_mix_games(*self).len()
                        &&& #[trigger] spec_mix_games(*self)[i] == (name, limit)
                        &&& forall|j: int| 0 <= j < i ==> spec_mix_games(*self)[j] != (name, limit)
                        &&& t == (if i + 1 < spec_mix_games(*self).len() {
                            spec_mix_games(*self)[i + 1]
                        } else {
                            spec_mix_games(*self)[0]
                        })
                    },
                None => forall|i: int|
                    0 <= i < spec_mix_games(*self).len() ==> #[trigger] spec_mix_games(*self)[i]
                        != (name, limit),
            },
    {
        let games = self.games();
        let mut i: usize = 0;
        while i < games.len()
            invariant
                i <= games@.len(),
                games@ == spec_mix_games(*self),
                games@.len() > 0,
                forall|j: int| 0 <= j < i ==> #[trigger] games@[j] != (name, limit),
            decreases games@.len() - i,
        {
            let (gn, gl) = games[i];
            if gn == name && gl == limit {
                if i + 1 < games.len() {
                    return Some(games[i + 1]);
                } else {
                    return Some(games[0]);
                }
            }
            i += 1;
        }
        None
    }
}

/// The dealing structure of a variant.
#[derive(Clone, Copy, Debug, PartialEq, Eq, Structural)]
pub enum Variant {
    Holdem,
    SevenCard,
    SingleDraw,
    TripleDraw,
}

impl Default for Variant {
    /// The default dealing structure is hold'em.
    fn default() -> (r: Self)
        ensures
            r == Variant::Holdem,
    {
        Variant::Holdem
    }
}

/// The full dealing configuration of one variant.
#[derive(Clone, Copy, Debug, PartialEq, Eq, Structural)]
pub struct Options {
    pub variant: Variant,
    pub blinds: bool,
    pub ante: bool,
    pub bring_in: bool,
    pub board: bool,
    pub vela: bool,
    pub discards: bool,
    pub reshuffle: bool,
    pub max_table_size: usize,
    pub pocket_cards_size: usize,
    pub streets_num: usize,
    pub hi_ranking: Option<AceRanking>,
    pub lo_ranking: Option<AceRanking>,
    pub default_limit: Limit,
}

/// The dealing configuration of each variant.
pub open spec fn spec_options(n: Name) -> Options {
    match n {
        Name::Texas => Options {
            variant: Variant::Holdem,
            board: true,
            blinds: true,
            max_table_size: 10,
            hi_ranking: Some(AceRanking::High),
            pocket_cards_size: 2,
            default_limit: Limit::NoLimit,
            ante: false,
            bring_in: false,
            vela: false,
            discards: false,
            reshuffle: false,
            streets_num: 4,
            lo_ranking: None,
        },
        Name::Omaha => Options {
            variant: Variant::Holdem,
            board: true,
            blinds: true,
            max_table_size: 10,
            pocket_cards_size: 4,
            hi_ranking: Some(AceRanking::High),
            default_limit: Limit::PotLimit,
            ante: false,
            bring_in: false,
            vela: false,
            discards: false,
            reshuffle: false,
            streets_num: 4,
            lo_ranking: None,
        },
        Name::Omaha8 => Options {
            variant: Variant::Holdem,
            board: true,
            blinds: true,
            max_table_size: 10,
            pocket_cards_size: 4,
            hi_ranking: Some(AceRanking::High),
            lo_ranking: Some(AceRanking::AceToFive8),
            default_limit: Limit::PotLimit,
            ante: false,
            bring_in: false,
            vela: false,
            discards: false,
            reshuffle: false,
            streets_num: 4,
        },
        Name::Stud => Options {
            variant: Variant::SevenCard,
            ante: true,
            bring_in: true,
            vela: true,
            max_table_size: 8,
            pocket_cards_size: 7,
            hi_ranking: Some(AceRanking::High),
            default_limit: Limit::FixedLimit,
            blinds: false,
            board: false,
            discards: false,
            reshuffle: false,
            streets_num: 6,
            lo_ranking: None,
        },
        Name::Stud8 => Options {
            variant: Variant::SevenCard,
            ante: true,
            bring_in: true,
            vela: true,
            max_table_size: 8,
            pocket_cards_size: 7,
            hi_ranking: Some(AceRanking::High),
            lo_ranking: Some(AceRanking::AceToFive8),
            default_limit: Limit::FixedLimit,
            blinds: false,
            board: false,
            discards: false,
            reshuffle: false,
            streets_num: 6,
        },
        Name::Razz => Options {
            variant: Variant::SevenCard,
            ante: true,
            bring_in: true,
            vela: true,
            max_table_size: 8,
            pocket_cards_size: 7,
            hi_ranking: Some(AceRanking::AceToFive),
            default_limit: Limit::FixedLimit,
            blinds: false,
            board: false,
            discards: false,
            reshuffle: false,
            streets_num: 6,
            lo_ranking: None,
        },
        Name::London => Options {
            variant: Variant::SevenCard,
            ante: true,
            bring_in: true,
            vela: true,
            max_table_size: 8,
            pocket_cards_size: 7,
            hi_ranking: Some(AceRanking::AceToSix),
            default_limit: Limit::FixedLimit,
            blinds: false,
            board: false,
            discards: false,
            reshuffle: false,
            streets_num: 6,
            lo_ranking: None,
        },
        Name::FiveCard => Options {
            variant: Variant::SingleDraw,
            blinds: true,
            discards: true,
            reshuffle: true,
            max_table_size: 6,
            pocket_cards_size: 5,
            streets_num: 1,
            hi_ranking: Some(AceRanking::High),
            default_limit: Limit::FixedLimit,
            ante: false,
            bring_in: false,
            board: false,
            vela: false,
            lo_ranking: None,
        },
        Name::Single27 => Options {
            variant: Variant::SingleDraw,
            blinds: true,
            discards: true,
            reshuffle: true,
            max_table_size: 6,
            pocket_cards_size: 5,
            streets_num: 1,
            hi_ranking: Some(AceRanking::DeuceToSeven),
            default_limit: Limit::FixedLimit,
            ante: false,
            bring_in: false,
            board: false,
            vela: false,
            lo_ranking: None,
        },
        Name::Triple27 => Options {
            variant: Variant::TripleDraw,
            blinds: true,
            discards: true,
            reshuffle: true,
            max_table_size: 6,
            pocket_cards_size: 5,
            streets_num: 3,
            hi_ranking: Some(AceRanking::DeuceToSeven),
            default_limit: Limit::FixedLimit,
            ante: false,
            bring_in: false,
            board: false,
            vela: false,
            lo_ranking: None,
        },
        Name::Badugi => Options {
            variant: Variant::TripleDraw,
            blinds: true,
            discards: true,
            reshuffle: true,
            max_table_size: 6,
            pocket_cards_size: 4,
            streets_num: 3,
            hi_ranking: Some(AceRanking::Badugi),
            default_limit: Limit::FixedLimit,
            ante: false,
            bring_in: false,
            board: false,
            vela: false,
            lo_ranking: None,
        },
    }
}

impl Name {
    /// The dealing configuration of this variant.
    pub fn options(&self) -> (r: Options)
        ensures
            r == spec_options(*self),
    {
        match self {
            Name::Texas => Options {
                variant: Variant::Holdem,
                board: true,
                blinds: true,
                max_table_size: 10,
                hi_ranking: Some(AceRanking::High),
                pocket_cards_size: 2,
                default_limit: Limit::NoLimit,
                ante: false,
                bring_in: false,
                vela: false,
                discards: false,
                reshuffle: false,
                streets_num: 4,
                lo_ranking: None,
            },
            Name::Omaha => Options {
                variant: Variant::Holdem,
                board: true,
                blinds: true,
                max_table_size: 10,
                pocket_cards_size: 4,
                hi_ranking: Some(AceRanking::High),
                default_limit: Limit::PotLimit,
                ante: false,
                bring_in: false,
                vela: false,
                discards: false,
                reshuffle: false,
                streets_num: 4,
                lo_ranking: None,
            },
            Name::Omaha8 => Options {
                variant: Variant::Holdem,
                board: true,
                blinds: true,
                max_table_size: 10,
                pocket_cards_size: 4,
                hi_ranking: Some(AceRanking::High),
                lo_ranking: Some(AceRanking::AceToFive8),
                default_limit: Limit::PotLimit,
                ante: false,
                bring_in: false,
                vela: false,
                discards: false,
                reshuffle: false,
                streets_num: 4,
            },
            Name::Stud => Options {
                variant: Variant::SevenCard,
                ante: true,
                bring_in: true,
                vela: true,
                max_table_size: 8,
                pocket_cards_size: 7,
                hi_ranking: Some(AceRanking::High),
                default_limit: Limit::FixedLimit,
                blinds: false,
                board: false,
                discards: false,
                reshuffle: false,
                streets_num: 6,
                lo_ranking: None,
            },
            Name::Stud8 => Options {
                variant: Variant::SevenCard,
                ante: true,
                bring_in: true,
                vela: true,
                max_table_size: 8,
                pocket_cards_size: 7,
                hi_ranking: Some(AceRanking::High),
                lo_ranking: Some(AceRanking::AceToFive8),
                default_limit: Limit::FixedLimit,
                blinds: false,
                board: false,
                discards: false,
                reshuffle: false,
                streets_num: 6,
            },
            Name::Razz => Options {
                variant: Variant::SevenCard,
                ante: true,
                bring_in: true,
                vela: true,
                max_table_size: 8,
                pocket_cards_size: 7,
                hi_ranking: Some(AceRanking::AceToFive),
                default_limit: Limit::FixedLimit,
                blinds: false,
                board: false,
                discards: false,
                reshuffle: false,
                streets_num: 6,
                lo_ranking: None,
            },
            Name::London => Options {
                variant: Variant::SevenCard,
                ante: true,
                bring_in: true,
                vela: true,
                max_table_size: 8,
                pocket_cards_size: 7,
                hi_ranking: Some(AceRanking::AceToSix),
                default_limit: Limit::FixedLimit,
                blinds: false,
                board: false,
                discards: false,
                reshuffle: false,
                streets_num: 6,
                lo_ranking: None,
            },
            Name::FiveCard => Options {
                variant: Variant::SingleDraw,
                blinds: true,
                discards: true,
                reshuffle: true,
                max_table_size: 6,
                pocket_cards_size: 5,
                streets_num: 1,
                hi_ranking: Some(AceRanking::High),
                default_limit: Limit::FixedLimit,
                ante: false,
                bring_in: false,
                board: false,
                vela: false,
                lo_ranking: None,
            },
            Name::Single27 => Options {
                variant: Variant::SingleDraw,
                blinds: true,
                discards: true,
                reshuffle: true,
                max_table_size: 6,
                pocket_cards_size: 5,
                streets_num: 1,
                hi_ranking: Some(AceRanking::DeuceToSeven),
                default_limit: Limit::FixedLimit,
                ante: false,
                bring_in: false,
                board: false,
                vela: false,
                lo_ranking: None,
            },
            Name::Triple27 => Options {
                variant: Variant::TripleDraw,
                blinds: true,
                discards: true,
                reshuffle: true,
                max_table_size: 6,
                pocket_cards_size: 5,
                streets_num: 3,
                hi_ranking: Some(AceRanking::DeuceToSeven),
                default_limit: Limit::FixedLimit,
                ante: false,
                bring_in: false,
                board: false,
                vela: false,
                lo_ranking: None,
            },
            Name::Badugi => Options {
                variant: Variant::TripleDraw,
                blinds: true,
                discards: true,
                reshuffle: true,
                max_table_size: 6,
                pocket_cards_size: 4,
                streets_num: 3,
                hi_ranking: Some(AceRanking::Badugi),
                default_limit: Limit::FixedLimit,
                ante: false,
                bring_in: false,
                board: false,
                vela: false,
                lo_ranking: None,
            },
        }
    }
}

/// The stakes of a table: blinds, buy-in bracket, forced bets, and the
/// currency they are denominated in, if real money is at play.
#[derive(Debug)]
pub struct Stake {
    pub small_blind: u16,
    pub big_blind: u16,
    pub buy_in: (u16, u16),
    pub ante: Option<u16>,
    pub bring_in: Option<u16>,
    pub currency: Option<Currency>,
}

impl Default for Stake {
    /// A zero stake: no blinds, no buy-in, no forced bets, play money.
    fn default() -> (r: Self)
        ensures
            r.small_blind == 0,
            r.big_blind == 0,
            r.buy_in == (0u16, 0u16),
            r.ante is None,
            r.bring_in is None,
            r.currency is None,
    {
        Stake {
            small_blind: 0,
            big_blind: 0,
            buy_in: (0, 0),
            ante: None,
            bring_in: None,
            currency: None,
        }
    }
}

impl Stake {
    /// A play-money stake: the small blind is half the big blind and the
    /// buy-in bracket is the default 20 to 100 big blinds.
    pub fn new(big_blind: u16) -> (r: Self)
        requires
            big_blind <= 655,
        ensures
            r.big_blind == big_blind,
            r.small_blind == big_blind / 2,
            r.buy_in == ((20 * big_blind) as u16, (100 * big_blind) as u16),
            r.ante is None,
            r.bring_in is None,
            r.currency is None,
    {
        let mut new_stake = Self::default();
        new_stake.big_blind = big_blind;
        new_stake.small_blind = new_stake.big_blind / 2;
        new_stake.default_stack()
    }

    /// Whether real money is at play.
    pub fn is_real_currency(self) -> (r: bool)
        ensures
            r == (self.currency is Some),
    {
        self.currency.is_some()
    }

    /// The same stake with an ante of a tenth of the big blind.
    pub fn with_ante(self) -> (r: Self)
        ensures
            r.ante == Some((self.big_blind / 10) as u16),
            r.big_blind == self.big_blind,
            r.small_blind == self.small_blind,
            r.buy_in == self.buy_in,
            r.bring_in == self.bring_in,
            r.currency == self.currency,
    {
        let mut s = self;
        s.ante = Some(s.big_blind / 10);
        s
    }

    /// The same stake with a bring-in of a quarter of the big blind.
    pub fn with_bring_in(self) -> (r: Self)
        ensures
            r.bring_in == Some((self.big_blind / 4) as u16),
            r.big_blind == self.big_blind,
            r.small_blind == self.small_blind,
            r.buy_in == self.buy_in,
            r.ante == self.ante,
            r.currency == self.currency,
    {
        let mut s = self;
        s.bring_in = Some(s.big_blind / 4);
        s
    }

    /// The same stake with the default buy-in bracket of 20 to 100 big
    /// blinds.
    pub fn default_stack(self) -> (r: Self)
        requires
            100 * self.big_blind <= u16::MAX,
        ensures
            r.buy_in == ((20 * self.big_blind) as u16, (100 * self.big_blind) as u16),
            r.big_blind == self.big_blind,
            r.small_blind == self.small_blind,
            r.ante == self.ante,
            r.bring_in == self.bring_in,
            r.currency == self.currency,
    {
        let mut s = self;
        s.buy_in = (20 * s.big_blind, 100 * s.big_blind);
        s
    }

    /// The same stake with the short buy-in bracket of 20 to 40 big
    /// blinds.
    pub fn short_stack(self) -> (r: Self)
        requires
            40 * self.big_blind <= u16::MAX,
        ensures
            r.buy_in == ((20 * self.big_blind) as u16, (40 * self.big_blind) as u16),
            r.big_blind == self.big_blind,
            r.small_blind == self.small_blind,
            r.ante == self.ante,
            r.bring_in == self.bring_in,
            r.currency == self.currency,
    {
        let mut s = self;
        s.buy_in = (20 * s.big_blind, 40 * s.big_blind);
        s
    }

    /// The same stake with the deep buy-in bracket of 100 to 250 big
    /// blinds.
    pub fn deep_stack(self) -> (r: Self)
        requires
            250 * self.big_blind <= u16::MAX,
        ensures
            r.buy_in == ((100 * self.big_blind) as u16, (250 * self.big_blind) as u16),
            r.big_blind == self.big_blind,
            r.small_blind == self.small_blind,
            r.ante == self.ante,
            r.bring_in == self.bring_in,
            r.currency == self.currency,
    {
        let mut s = self;
        s.buy_in = (100 * s.big_blind, 250 * s.big_blind);
        s
    }
}

/// The streets of a hold'em hand.
#[derive(Clone, Copy, Debug, PartialEq, Eq, Structural)]
pub enum Holdem {
    Preflop,
    Flop,
    Turn,
    River,
}

/// The streets of a seven-card stud hand.
#[derive(Clone, Copy, Debug, PartialEq, Eq, Structural)]
pub enum SevenCard {
    Second,
    Third,
    Fourth,
    Fifth,
    Sixth,
    Seventh,
}

/// The streets of a draw hand.
#[derive(Clone, Copy, Debug, PartialEq, Eq, Structural)]
pub enum Draw {
    Predraw,
    Draw,
    FirstDraw,
    SecondDraw,
    ThirdDraw,
}

/// One running game: its variant and limit, the mix it rotates in, its
/// stakes, table, deck, and action log.
#[derive(Debug)]
pub struct Game {
    pub game: Name,
    pub limit: Limit,
    pub mix: Option<Mix>,
    pub stake: Stake,
    pub table: Table,
    pub deck: Deck,
    pub actions: Vec<Action>,
}

impl Game {
    /// A fresh single-variant game with a new table and a full shuffled
    /// deck.
    pub fn new(name: Name, limit: Limit, stake: Stake, table_size: u8) -> (r: Self)
        ensures
            r.game == name,
            r.limit == limit,
            r.mix is None,
            r.table.size == table_size,
            r.deck.wf(),
            r.actions@.len() == 0,
    {
        Game {
            game: name,
            limit,
            mix: None,
            stake,
            table: Table::new(table_size),
            deck: Deck::new(),
            actions: Vec::new(),
        }
    }

    /// A fresh mixed game, opening with the first game of the rotation.
    pub fn mix(mix: Mix, stake: Stake, table_size: u8) -> (r: Self)
        ensures
            r.game == spec_mix_games(mix)[0].0,
            r.limit == spec_mix_games(mix)[0].1,
            r.mix == Some(mix),
            r.table.size == table_size,
            r.deck.wf(),
            r.actions@.len() == 0,
    {
        let first = mix.first();
        Game {
            game: first.0,
            limit: first.1,
            mix: Some(mix),
            stake,
            table: Table::new(table_size),
            deck: Deck::new(),
            actions: Vec::new(),
        }
    }

    /// Move a mixed game to the next game of its rotation, wrapping from
    /// the last back to the first; a single-variant game stays put and
    /// returns `None`. The current game must be part of the rotation.
    pub fn next_game(&mut self) -> (r: Option<GameType>)
        requires
            match old(self).mix {
                Some(mx) => exists|i: int|
                    0 <= i < spec_mix_games(mx).len() && #[trigger] spec_mix_games(mx)[i] == (
                        old(self).game,
                        old(self).limit,
                    ),
                None => true,
            },
        ensures
            match old(self).mix {
                Some(mx) => {
                    &&& r is Some
                    &&& final(self).game == r->Some_0.0
                    &&& final(self).limit == r->Some_0.1
                    &&& final(self).mix == old(self).mix
                },
                None => r is None && *final(self) == *old(self),
            },
    {
        match self.mix {
            Some(mix) => {
                let next = match mix.next(self.game, self.limit) {
                    Some(n) => n,
                    None => {
                        proof {
                            assert(false);
                        }
                        vstd::pervasive::unreached()
                    },
                };
                self.game = next.0;
                self.limit = next.1;
                Some(next)
            },
            None => None,
        }
    }

    /// Begin play. Turn order and betting are owned by the surrounding
    /// table layer; the engine records nothing for it yet.
    pub fn start(&self) {
    }
}

} // verus!
