use poker_engine::bet::{AutoPlay, Bet};
use poker_engine::game::{AceRanking, Game, Limit, Mix, Name, Stake};
use poker_engine::locale::{Country, Currency};
use poker_engine::player::Player;
use poker_engine::seat::{NetworkStatus, Slot, State};

#[test]
pub fn next_game() {
    let stake = Stake::new(10);
    let mix = Mix::EightGame;
    let mut game = Game::mix(mix, stake, 2);
    for _i in 1..100 {
        println!("{:?}", game.next_game());
    }
}

#[test]
pub fn start_game() {
    let stake = Stake::new(10);
    let game = Game::new(Name::Texas, Limit::NoLimit, stake, 2);
    let player_1 = Player::blank_player("player-1");
    let player_2 = Player::blank_player("player-2");
    game.table.join(player_1, 0, 1000);
    game.table.join(player_2, 1, 1000);
    game.start();

    println!("{:?}", game);
}

#[test]
fn mix_rotation_wraps_around() {
    let mix = Mix::EightGame;
    assert_eq!(mix.first(), (Name::Triple27, Limit::FixedLimit));
    assert_eq!(
        mix.next(Name::Triple27, Limit::FixedLimit),
        Some((Name::Texas, Limit::FixedLimit))
    );
    // Fixed-limit and no-limit Texas are distinct rotation entries.
    assert_eq!(
        mix.next(Name::Texas, Limit::NoLimit),
        Some((Name::Omaha, Limit::PotLimit))
    );
    // The last game wraps back to the first.
    assert_eq!(
        mix.next(Name::Omaha, Limit::PotLimit),
        Some((Name::Triple27, Limit::FixedLimit))
    );
    // A game outside the rotation has no successor.
    assert_eq!(mix.next(Name::Badugi, Limit::FixedLimit), None);

    let horse = Mix::Horse;
    assert_eq!(horse.games().len(), 5);
    assert_eq!(
        horse.next(Name::Stud8, Limit::FixedLimit),
        Some((Name::Texas, Limit::FixedLimit))
    );
}

#[test]
fn mixed_game_advances_through_rotation() {
    let mut game = Game::mix(Mix::Horse, Stake::new(4), 6);
    assert_eq!(game.game, Name::Texas);
    let next = game.next_game();
    assert_eq!(next, Some((Name::Omaha8, Limit::FixedLimit)));
    assert_eq!(game.game, Name::Omaha8);
    let single = &mut Game::new(Name::Texas, Limit::NoLimit, Stake::new(4), 6);
    assert_eq!(single.next_game(), None);
}

#[test]
fn stake_formulas() {
    let stake = Stake::new(10);
    assert_eq!(stake.big_blind, 10);
    assert_eq!(stake.small_blind, 5);
    assert_eq!(stake.buy_in, (200, 1000));
    assert!(!stake.is_real_currency());

    let stake = Stake::new(20).with_ante().with_bring_in();
    assert_eq!(stake.ante, Some(2));
    assert_eq!(stake.bring_in, Some(5));

    let short = Stake::new(10).short_stack();
    assert_eq!(short.buy_in, (200, 400));
    let deep = Stake::new(10).deep_stack();
    assert_eq!(deep.buy_in, (1000, 2500));
}

#[test]
fn variant_options() {
    let texas = Name::Texas.options();
    assert_eq!(texas.pocket_cards_size, 2);
    assert_eq!(texas.max_table_size, 10);
    assert!(texas.board);
    assert_eq!(texas.hi_ranking, Some(AceRanking::High));
    assert_eq!(texas.lo_ranking, None);
    assert_eq!(texas.default_limit, Limit::NoLimit);

    let badugi = Name::Badugi.options();
    assert_eq!(badugi.pocket_cards_size, 4);
    assert!(badugi.discards);
    assert_eq!(badugi.hi_ranking, Some(AceRanking::Badugi));

    let razz = Name::Razz.options();
    assert_eq!(razz.hi_ranking, Some(AceRanking::AceToFive));
    assert_eq!(razz.streets_num, 6);
}

#[test]
fn limit_and_name_text() {
    assert_eq!(Limit::NoLimit.full_name(), "No Limit");
    assert_eq!(Limit::NoLimit.short_name(), "NL");
    assert_eq!(Limit::FixedLimit.short_name(), "FL");
    assert_eq!(Name::Texas.human_readable_name(), "Texas Hold'em");
    assert_eq!(Name::Single27.human_readable_name(), "Single 2-7 Draw");
}

#[test]
fn currency_countries() {
    assert_eq!(Currency::USD.countries(), vec![Country::USA]);
    let euro = Currency::EUR.countries();
    assert_eq!(euro.len(), 6);
    assert_eq!(euro[0], Country::NLD);
    assert_eq!(Currency::JPY.countries(), vec![Country::JPN]);
}

fn fresh_slot() -> Slot {
    Slot {
        player: Player::blank_player("p"),
        network_status: NetworkStatus::Online,
        current_stack_amount: 100,
        amount_put: 0,
        rebuy_amount: 0,
        clock_millis: 0,
        auto_play: AutoPlay::Fold,
    }
}

#[test]
fn seat_state_transitions() {
    let playing = State::Playing(fresh_slot(), Bet::Check);
    assert!(matches!(playing.check(), State::Betting(_, Bet::Check)));
    let playing = State::Playing(fresh_slot(), Bet::Check);
    assert!(matches!(playing.fold(), State::Folding(_)));
    let playing = State::Playing(fresh_slot(), Bet::Check);
    assert!(matches!(playing.raise(40), State::Betting(_, Bet::Raise(40))));
    let playing = State::Playing(fresh_slot(), Bet::Check);
    assert!(matches!(playing.call(20), State::Betting(_, Bet::Call(20))));
    // A seat that is not in turn never moves.
    let idle = State::Idle(fresh_slot());
    assert!(matches!(idle.check(), State::Idle(_)));
    let empty = State::Empty;
    assert!(matches!(empty.fold(), State::Empty));
}

#[test]
fn slot_network_status() {
    let mut slot = fresh_slot();
    slot.offline();
    assert_eq!(slot.network_status, NetworkStatus::Offline);
    slot.online();
    assert_eq!(slot.network_status, NetworkStatus::Online);
    slot.toggle_network_status();
    assert_eq!(slot.network_status, NetworkStatus::Offline);
    slot.toggle_network_status();
    assert_eq!(slot.network_status, NetworkStatus::Online);
}

#[test]
fn blank_player_profile() {
    let p = Player::blank_player("alice");
    assert_eq!(p.name, "alice");
    assert!(p.avatar.is_none());
    assert!(p.country.is_none());
}
