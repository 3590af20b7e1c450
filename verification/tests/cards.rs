use poker_engine::bits;
use poker_engine::card;
use poker_engine::card::Card;
use poker_engine::error::EngineError;
use poker_engine::game::AceRanking;
use poker_engine::kind;
use poker_engine::kind::Kind;
use poker_engine::suit;
use poker_engine::suit::Suit;

#[test]
pub fn parse_cards() {
    let cards = card::parse("AhTd3s7c");
    println!("{:?}", cards);
    let cards = cards.unwrap();
    assert_eq!(cards.len(), 4);
    assert_eq!(cards[0], Card { kind: Kind::Ace, suit: Suit::Heart });
    assert_eq!(cards[1], Card { kind: Kind::Ten, suit: Suit::Diamond });
    assert_eq!(cards[2], Card { kind: Kind::Three, suit: Suit::Spade });
    assert_eq!(cards[3], Card { kind: Kind::Seven, suit: Suit::Club });
}

#[test]
fn parse_is_case_insensitive() {
    let lower = card::parse("ah").unwrap();
    let upper = card::parse("AH").unwrap();
    assert_eq!(lower, upper);
    let mixed = card::parse("aHtD3S7C").unwrap();
    let canon = card::parse("AhTd3s7c").unwrap();
    assert_eq!(mixed, canon);
}

#[test]
fn parse_rejects_malformed_tokens() {
    assert_eq!(card::parse("Ax"), Err(EngineError::ParseError));
    assert_eq!(card::parse("A"), Err(EngineError::ParseError));
    assert_eq!(card::parse("1h"), Err(EngineError::ParseError));
    assert_eq!(card::parse("AhT"), Err(EngineError::ParseError));
    assert!(card::parse("").unwrap().is_empty());
}

#[test]
fn token_round_trip_all_52_cards() {
    for ks in ["2", "3", "4", "5", "6", "7", "8", "9", "T", "J", "Q", "K", "A"] {
        for ss in ["s", "h", "d", "c"] {
            let c = card::new(ks, ss);
            let token = c.token();
            let back = card::from_str(&token);
            assert_eq!(back, Some(c));
        }
    }
}

#[test]
fn kind_and_suit_from_str() {
    assert_eq!(kind::from_str("A"), Some(Kind::Ace));
    assert_eq!(kind::from_str("a"), Some(Kind::Ace));
    assert_eq!(kind::from_str("T"), Some(Kind::Ten));
    assert_eq!(kind::from_str("x"), None);
    assert_eq!(kind::from_str("AA"), None);
    assert_eq!(suit::from_str("h"), Some(Suit::Heart));
    assert_eq!(suit::from_str("S"), Some(Suit::Spade));
    assert_eq!(suit::from_str("z"), None);
}

#[test]
fn names_and_symbols() {
    assert_eq!(Kind::Ace.short_name(), "A");
    assert_eq!(Kind::Deuce.full_name(), "deuce");
    assert_eq!(Suit::Spade.short_name(), "s");
    assert_eq!(Suit::Heart.full_name(), "heart");
    assert_eq!(Suit::Diamond.symbol(), "♦");
    assert_eq!(Kind::default(), Kind::Ace);
    assert_eq!(Suit::default(), Suit::Heart);
}

#[test]
fn order_keys_follow_the_discipline() {
    let ace = Card { kind: Kind::Ace, suit: Suit::Spade };
    let deuce = Card { kind: Kind::Deuce, suit: Suit::Spade };
    let king = Card { kind: Kind::King, suit: Suit::Spade };
    assert_eq!(ace.order_key(AceRanking::High), 12);
    assert_eq!(ace.order_key(AceRanking::DeuceToSeven), 12);
    assert_eq!(ace.order_key(AceRanking::AceToFive), 0);
    assert_eq!(ace.order_key(AceRanking::AceToSix), 0);
    assert_eq!(ace.order_key(AceRanking::Badugi), 0);
    assert_eq!(deuce.order_key(AceRanking::High), 0);
    assert_eq!(deuce.order_key(AceRanking::AceToFive), 1);
    assert_eq!(king.order_key(AceRanking::AceToFive), 12);
}

#[test]
fn packed_card_bits() {
    let c = Card { kind: Kind::Five, suit: Suit::Diamond };
    let b = c.to_u8();
    let hidden = bits::conceal(b);
    assert!(bits::is_hidden(hidden));
    assert!(!bits::is_visible(hidden));
    let shown = bits::show(hidden);
    assert!(bits::is_visible(shown));
    assert_eq!(bits::show(shown), shown);
}
