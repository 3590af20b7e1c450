//! Currencies and the countries they are legal tender in.

use vstd::prelude::*;

verus! {

/// A currency a table's stakes can be denominated in.
#[derive(Debug, Clone, Copy, PartialEq, Eq, Structural)]
pub enum Currency {
    USD,
    EUR,
    JPY,
    GBP,
    CHF,
    AUD,
    CAD,
    CNY,
    HKD,
    SGD,
    MOP,
    MYR,
    RUB,
    BRL,
    INR,
    SEK,
    KRW,
    IDR,
    PHP,
    MXN,
    UAH,
    BYN,
    ZAR,
    KES,
    NGN,
}

/// A country a player can reside in.
#[derive(Debug, Clone, Copy, PartialEq, Eq, Structural)]
pub enum Country {
    USA,
    GBR,
    CAN,
    BRA,
    DEU,
    RUS,
    FRA,
    ESP,
    ITA,
    SWE,
    AUS,
    IND,
    JPN,
    KOR,
    CHN,
    HKG,
    MAC,
    SGP,
    MYS,
    CHE,
    IDN,
    PHL,
    MEX,
    UKR,
    BLR,
    AUT,
    NLD,
    ZAF,
    KEN,
    NGA,
}

/// The countries a currency is legal tender in.
pub open spec fn spec_countries(c: Currency) -> Seq<Country> {
    match c {
        Currency::USD => seq![Country::USA],
        Currency::EUR => seq![
            Country::NLD,
            Country::DEU,
            Country::FRA,
            Country::ESP,
            Country::ITA,
            Country::AUT,
        ],
        Currency::JPY => seq![Country::JPN],
        Currency::GBP => seq![Country::GBR],
        Currency::CHF => seq![Country::CHE],
        Currency::AUD => seq![Country::AUS],
        Currency::CAD => seq![Country::CAN],
        Currency::CNY => seq![Country::CHN],
        Currency::HKD => seq![Country::HKG],
        Currency::SGD => seq![Country::SGP],
        Currency::MOP => seq![Country::MAC],
        Currency::MYR => seq![Country::MYS],
        Currency::RUB => seq![Country::RUS],
        Currency::BRL => seq![Country::BRA],
        Currency::INR => seq![Country::IND],
        Currency::SEK => seq![Country::SWE],
        Currency::KRW => seq![Country::KOR],
        Currency::IDR => seq![Country::IDN],
        Currency::PHP => seq![Country::PHL],
        Currency::MXN => seq![Country::MEX],
        Currency::UAH => seq![Country::UKR],
        Currency::BYN => seq![Country::BLR],
        Currency::ZAR => seq![Country::ZAF],
        Currency::KES => seq![Country::KEN],
        Currency::NGN => seq![Country::NGA],
    }
}

impl Currency {
    /// The countries this currency is legal tender in.
    pub fn countries(&self) -> (r: Vec<Country>)
        ensures
            r@ == spec_countries(*self),
    {
        let r: Vec<Country> = match self {
            Currency::USD => vec![Country::USA],
            Currency::EUR => vec![
                Country::NLD,
                Country::DEU,
                Country::FRA,
                Country::ESP,
                Country::ITA,
                Country::AUT,
            ],
            Currency::JPY => vec![Country::JPN],
            Currency::GBP => vec![Country::GBR],
            Currency::CHF => vec![Country::CHE],
            Currency::AUD => vec![Country::AUS],
            Currency::CAD => vec![Country::CAN],
            Currency::CNY => vec![Country::CHN],
            Currency::HKD => vec![Country::HKG],
            Currency::SGD => vec![Country::SGP],
            Currency::MOP => vec![Country::MAC],
            Currency::MYR => vec![Country::MYS],
            Currency::RUB => vec![Country::RUS],
            Currency::BRL => vec![Country::BRA],
            Currency::INR => vec![Country::IND],
            Currency::SEK => vec![Country::SWE],
            Currency::KRW => vec![Country::KOR],
            Currency::IDR => vec![Country::IDN],
            Currency::PHP => vec![Country::PHL],
            Currency::MXN => vec![Country::MEX],
            Currency::UAH => vec![Country::UKR],
            Currency::BYN => vec![Country::BLR],
            Currency::ZAR => vec![Country::ZAF],
            Currency::KES => vec![Country::KEN],
            Currency::NGN => vec![Country::NGA],
        };
        proof {
            assert(r@ =~= spec_countries(*self));
        }
        r
    }
}

} // verus!
