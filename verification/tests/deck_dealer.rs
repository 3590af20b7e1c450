use poker_engine::card;
use poker_engine::card::Card;
use poker_engine::dealer::Dealer;
use poker_engine::deck;
use poker_engine::deck::Deck;
use poker_engine::error::EngineError;

/// All cards across the four pools, for invariant checks.
fn all_pools(d: &Deck) -> Vec<Card> {
    let mut all: Vec<Card> = Vec::new();
    all.extend_from_slice(&d.cards);
    all.extend_from_slice(&d.dealt);
    all.extend_from_slice(&d.discarded);
    all.extend_from_slice(&d.burned);
    all
}

/// The pools hold exactly the 52 distinct cards.
fn assert_full_deck(d: &Deck) {
    let all = all_pools(d);
    assert_eq!(all.len(), 52);
    for i in 0..all.len() {
        for j in (i + 1)..all.len() {
            assert_ne!(all[i], all[j]);
        }
    }
}

#[test]
pub fn shuffle_cards() {
    println!("{:?}", deck::default());
}

#[test]
fn shuffle_keeps_every_card() {
    let fresh = deck::new();
    let shuffled = deck::shuffle(deck::new());
    assert_eq!(shuffled.len(), 52);
    for c in &fresh {
        assert!(shuffled.contains(c));
    }
}

#[test]
fn pools_stay_a_full_deck_through_operations() {
    let mut d = Deck::new();
    assert_full_deck(&d);
    let drawn = d.deal(5).unwrap();
    assert_eq!(drawn.len(), 5);
    assert_full_deck(&d);
    d.burn(1);
    assert_full_deck(&d);
    let replacements = d.discard(&drawn).unwrap();
    assert_eq!(replacements.len(), 5);
    assert_full_deck(&d);
    d.reshuffle();
    assert_full_deck(&d);
}

#[test]
fn deal_moves_cards_to_dealt() {
    let mut d = Deck::new();
    let drawn = d.deal(3).unwrap();
    assert_eq!(drawn.len(), 3);
    assert_eq!(d.cards.len(), 49);
    assert_eq!(d.dealt.len(), 3);
    for c in &drawn {
        assert!(d.dealt.contains(c));
        assert!(!d.cards.contains(c));
    }
}

#[test]
fn deal_fails_when_deck_is_exhausted() {
    let mut d = Deck::new();
    assert_eq!(d.deal(53), Err(EngineError::InsufficientCards));
    assert_eq!(d.cards.len(), 52);
    let _ = d.deal(52).unwrap();
    assert_eq!(d.deal(1), Err(EngineError::InsufficientCards));
}

#[test]
fn replacements_never_duplicate_a_dealt_card() {
    let mut d = Deck::new();
    let mine = d.deal(5).unwrap();
    let others = d.deal(5).unwrap();
    let replacements = d.discard(&mine).unwrap();
    assert_eq!(replacements.len(), 5);
    for c in &replacements {
        assert!(!mine.contains(c));
        assert!(!others.contains(c));
        assert!(d.dealt.contains(c));
    }
    for c in &others {
        assert!(d.dealt.contains(c));
    }
}

#[test]
fn discard_reshuffles_burned_when_live_is_short() {
    // A deck with only two live cards, three dealt to discard, and the
    // rest burned: the discard must fold the burn pile back in first.
    let full = deck::new();
    let live: Vec<Card> = full[0..2].to_vec();
    let dealt: Vec<Card> = full[2..7].to_vec();
    let burned: Vec<Card> = full[7..52].to_vec();
    let mut d = Deck { cards: live, dealt: dealt.clone(), discarded: Vec::new(), burned };
    let to_discard: Vec<Card> = dealt[0..3].to_vec();
    let replacements = d.discard(&to_discard).unwrap();
    assert_eq!(replacements.len(), 3);
    assert_full_deck(&d);
    for c in &to_discard {
        // The discarded cards land in the burn pile and are never
        // redrawable in the same call.
        assert!(d.burned.contains(c));
        assert!(!replacements.contains(c));
    }
}

#[test]
fn discard_fails_only_when_pools_cannot_cover() {
    let full = deck::new();
    let live: Vec<Card> = full[0..1].to_vec();
    let dealt: Vec<Card> = full[1..6].to_vec();
    let mut d = Deck {
        cards: live,
        dealt: dealt.clone(),
        discarded: Vec::new(),
        burned: full[6..52].to_vec(),
    };
    // One live plus forty-six burned cover a five-card replacement.
    let replacements = d.discard(&dealt).unwrap();
    assert_eq!(replacements.len(), 5);

    let mut empty_deck = Deck {
        cards: Vec::new(),
        dealt: full.clone(),
        discarded: Vec::new(),
        burned: Vec::new(),
    };
    let to_discard: Vec<Card> = full[0..3].to_vec();
    assert_eq!(empty_deck.discard(&to_discard), Err(EngineError::InsufficientCards));
}

#[test]
fn dealer_deals_pockets_and_board() {
    let mut dealer = Dealer::new(2);
    let p0 = dealer.deal_pocket_cards(0, 2).unwrap();
    let p1 = dealer.deal_pocket_cards(1, 2).unwrap();
    assert_eq!(p0.len(), 2);
    assert_eq!(p1.len(), 2);
    assert_eq!(dealer.pocket_cards[0], p0);
    assert_eq!(dealer.pocket_cards[1], p1);
    for c in &p0 {
        assert!(!p1.contains(c));
    }
    let flop = dealer.deal_board_cards(3).unwrap();
    assert_eq!(flop.len(), 3);
    assert_eq!(dealer.board_cards, flop);
    // One card was burned before the flop.
    assert_eq!(dealer.deck.burned.len(), 1);
    assert_eq!(dealer.deck.cards.len(), 52 - 2 - 2 - 1 - 3);
}

#[test]
fn dealer_discard_swaps_pocket_cards() {
    let mut dealer = Dealer::new(1);
    let pocket = dealer.deal_pocket_cards(0, 5).unwrap();
    let chosen: Vec<Card> = pocket[0..2].to_vec();
    let replacements = dealer.discard_cards(&chosen, 0).unwrap();
    assert_eq!(replacements.len(), 2);
    assert_eq!(dealer.pocket_cards[0].len(), 5);
    for c in &chosen {
        assert!(!dealer.pocket_cards[0].contains(c));
        assert!(!replacements.contains(c));
    }
    for c in &replacements {
        assert!(dealer.pocket_cards[0].contains(c));
    }
}

#[test]
fn parse_then_deal_round_trip() {
    let cards = card::parse("AhKhQhJhTh").unwrap();
    let mut tokens = String::new();
    for c in &cards {
        tokens.push_str(&c.token());
    }
    assert_eq!(tokens, "AhKhQhJhTh");
}
