use core::cmp::Ordering;

use poker_engine::card;
use poker_engine::card::Card;
use poker_engine::classify::{classify_badugi, classify_high, classify_low};
use poker_engine::compare::{compare_cards, compare_ranks};
use poker_engine::error::EngineError;
use poker_engine::game::AceRanking;
use poker_engine::hand::{compare_hands, Hand};
use poker_engine::kind::Kind;
use poker_engine::rank::{self, Badugi, High, Low, Rank};
use poker_engine::suit::Suit;

fn high_hand(s: &str) -> Hand {
    classify_high(&card::parse(s).unwrap()).unwrap()
}

#[test]
fn full_house_aces_over_kings() {
    let h = high_hand("AhAdAcKhKd");
    assert_eq!(h.rank, Rank::High(High::FullHouse));
    let value = h.meaningful_high();
    assert_eq!(value.len(), 5);
    for c in &value[0..3] {
        assert_eq!(c.kind, Kind::Ace);
    }
    for c in &value[3..5] {
        assert_eq!(c.kind, Kind::King);
    }
    assert!(h.meaningful_kicker().is_empty());
}

#[test]
fn wheel_is_a_straight_below_six_high() {
    let wheel = high_hand("5h4d3s2cAh");
    assert_eq!(wheel.rank, Rank::High(High::Straight));
    let kinds: Vec<Kind> = wheel.meaningful_high().iter().map(|c| c.kind).collect();
    assert_eq!(kinds, vec![Kind::Five, Kind::Four, Kind::Three, Kind::Deuce, Kind::Ace]);
    let six_high = high_hand("6h5d4s3c2h");
    assert_eq!(six_high.rank, Rank::High(High::Straight));
    assert_eq!(compare_hands(&wheel, &six_high), Ordering::Less);
    assert_eq!(compare_hands(&six_high, &wheel), Ordering::Greater);
}

#[test]
fn high_categories_detect_correctly() {
    assert_eq!(high_hand("AhKhQhJhTh").rank, Rank::High(High::StraightFlush));
    assert_eq!(high_hand("AhAdAcAsKh").rank, Rank::High(High::FourKind));
    assert_eq!(high_hand("AhKh9h5h2h").rank, Rank::High(High::Flush));
    assert_eq!(high_hand("9h8d7s6c5h").rank, Rank::High(High::Straight));
    assert_eq!(high_hand("QhQdQc8s2h").rank, Rank::High(High::ThreeKind));
    assert_eq!(high_hand("QhQd8c8s2h").rank, Rank::High(High::TwoPair));
    assert_eq!(high_hand("QhQd9c8s2h").rank, Rank::High(High::OnePair));
    assert_eq!(high_hand("Qh9d7c5s2h").rank, Rank::High(High::HighCard));
}

#[test]
fn four_kind_keeps_the_kicker() {
    let h = high_hand("AhAdAcAsKh");
    assert_eq!(h.meaningful_high().len(), 4);
    assert_eq!(h.meaningful_kicker().len(), 1);
    assert_eq!(h.meaningful_kicker()[0].kind, Kind::King);
}

#[test]
fn two_pair_orders_pairs_high_first() {
    let h = high_hand("8c2hQd8sQh");
    assert_eq!(h.rank, Rank::High(High::TwoPair));
    let value = h.meaningful_high();
    assert_eq!(value[0].kind, Kind::Queen);
    assert_eq!(value[1].kind, Kind::Queen);
    assert_eq!(value[2].kind, Kind::Eight);
    assert_eq!(value[3].kind, Kind::Eight);
    assert_eq!(h.meaningful_kicker().len(), 1);
    assert_eq!(h.meaningful_kicker()[0].kind, Kind::Deuce);
}

#[test]
fn classify_rejects_undersized_sets() {
    assert!(matches!(
        classify_high(&card::parse("AhKd").unwrap()),
        Err(EngineError::InsufficientCards)
    ));
    assert!(matches!(
        classify_low(&card::parse("AhKd").unwrap(), AceRanking::AceToFive),
        Err(EngineError::InsufficientCards)
    ));
    assert!(matches!(
        classify_badugi(&card::parse("Ah2d3s").unwrap()),
        Err(EngineError::InsufficientCards)
    ));
}

#[test]
fn badugi_four_distinct_and_three_with_collision() {
    let four = classify_badugi(&card::parse("Ah2d3s4c").unwrap()).unwrap();
    assert_eq!(four.rank, Rank::Badugi(Badugi::BadugiFour));
    assert_eq!(four.meaningful_high().len(), 4);

    // Two hearts collide: only a three-card badugi, and the weaker heart
    // is the one dropped.
    let three = classify_badugi(&card::parse("Ah2h3s4c").unwrap()).unwrap();
    assert_eq!(three.rank, Rank::Badugi(Badugi::BadugiThree));
    let kept: Vec<Card> = three.meaningful_high().clone();
    assert_eq!(kept.len(), 3);
    assert!(kept.contains(&Card { kind: Kind::Ace, suit: Suit::Heart }));
    assert!(kept.contains(&Card { kind: Kind::Three, suit: Suit::Spade }));
    assert!(kept.contains(&Card { kind: Kind::Four, suit: Suit::Club }));
}

#[test]
fn badugi_size_dominates_value() {
    let four = classify_badugi(&card::parse("KhQdJsTc").unwrap()).unwrap();
    let three = classify_badugi(&card::parse("Ah2h3s4c").unwrap()).unwrap();
    assert_eq!(compare_hands(&four, &three), Ordering::Greater);
    let low_four = classify_badugi(&card::parse("Ah2d3s4c").unwrap()).unwrap();
    assert_eq!(compare_hands(&low_four, &four), Ordering::Greater);
}

#[test]
fn lowball_complete_and_incomplete() {
    let seven_low = classify_low(&card::parse("7h5d4s3c2h").unwrap(), AceRanking::DeuceToSeven)
        .unwrap();
    assert_eq!(seven_low.rank, Rank::Low(Low::CompleteLow));
    let paired = classify_low(&card::parse("7h7d4s3c2h").unwrap(), AceRanking::DeuceToSeven)
        .unwrap();
    assert_eq!(paired.rank, Rank::Low(Low::IncompleteLow));
    assert_eq!(compare_hands(&seven_low, &paired), Ordering::Greater);
}

#[test]
fn ace_to_five_wheel_beats_six_low() {
    let wheel = classify_low(&card::parse("5h4d3s2cAh").unwrap(), AceRanking::AceToFive).unwrap();
    let six_low = classify_low(&card::parse("6h4d3s2cAh").unwrap(), AceRanking::AceToFive)
        .unwrap();
    assert_eq!(wheel.rank, Rank::Low(Low::CompleteLow));
    assert_eq!(six_low.rank, Rank::Low(Low::CompleteLow));
    assert_eq!(compare_hands(&wheel, &six_low), Ordering::Greater);
}

#[test]
fn comparator_ranks_categories_in_order() {
    let sf = high_hand("AhKhQhJhTh");
    let quads = high_hand("AhAdAcAsKh");
    let high_card = high_hand("Qh9d7c5s2h");
    // Whatever order the hands come in, the comparator puts the straight
    // flush first, then the quads, then the high card.
    let mut hands = vec![&high_card, &sf, &quads];
    for a in 0..hands.len() {
        for b in (a + 1)..hands.len() {
            if compare_hands(hands[b], hands[a]) == Ordering::Greater {
                hands.swap(a, b);
            }
        }
    }
    assert_eq!(hands[0].rank, Rank::High(High::StraightFlush));
    assert_eq!(hands[1].rank, Rank::High(High::FourKind));
    assert_eq!(hands[2].rank, Rank::High(High::HighCard));
}

#[test]
fn equal_hands_tie() {
    let a = high_hand("QhQd9c8s2h");
    let b = high_hand("QsQc9d8h2c");
    assert_eq!(compare_hands(&a, &b), Ordering::Equal);
}

#[test]
fn kickers_break_ties() {
    let a = high_hand("QhQd9c8s3h");
    let b = high_hand("QsQc9d8h2c");
    assert_eq!(compare_hands(&a, &b), Ordering::Greater);
}

#[test]
fn compare_ranks_and_cards() {
    assert_eq!(
        compare_ranks(&rank::straight_flush(), &rank::four_kind()),
        Ordering::Greater
    );
    assert_eq!(
        compare_ranks(&Rank::High(High::HighCard), &Rank::High(High::OnePair)),
        Ordering::Less
    );
    assert_eq!(
        compare_ranks(&Rank::Badugi(Badugi::BadugiFour), &Rank::Badugi(Badugi::BadugiFour)),
        Ordering::Equal
    );
    let a = card::parse("AhKd").unwrap();
    let b = card::parse("AsQc").unwrap();
    assert_eq!(compare_cards(&a, &b), Ordering::Greater);
    let prefix = card::parse("Ah").unwrap();
    assert_eq!(compare_cards(&prefix, &a), Ordering::Less);
    assert_eq!(compare_cards(&a, &a), Ordering::Equal);
}

#[test]
fn rank_names() {
    assert_eq!(High::StraightFlush.name(), "straight-flush");
    assert_eq!(High::HighCard.name(), "high-card");
    assert_eq!(Badugi::BadugiFour.name(), "badugi-four");
    assert_eq!(Low::CompleteLow.name(), "complete-low");
}
