use flashfall::card::{Card, CardForDisplay, GameError, GameMode, RenderableCard};
use flashfall::answer::accepts_answer;
use flashfall::game::{copy_cards, Game};
use rand::Rng;
use rand_chacha::rand_core::SeedableRng;
use flashfall::rules::{
    fall_speed_at, spawn_interval_at, CARDS_PER_UNLOCK, CARD_HEIGHT, CARD_WIDTH,
    DECK_CARD_DUPLICATES, INITIAL_UNLOCKED_CARDS,
};

const WIDTH: u64 = 600_000_000;
const HEIGHT: u64 = 800_000_000;

fn deck_of(n: usize) -> Vec<(String, String)> {
    (0..n).map(|i| (format!("front{}", i), format!("back{}", i))).collect()
}

fn new_game_for_test(seed: u64, mode: GameMode, multiplier: u16) -> Game {
    Game::new(WIDTH, HEIGHT, seed, mode, multiplier, deck_of(30)).unwrap()
}

fn card(id: u32, front: &str, back: &str) -> Card {
    Card {
        id,
        raw_front: front.to_string(),
        raw_back: back.to_string(),
        front: front.to_string(),
        back: back.to_string(),
        x: 0,
        y: 0,
        flipped: false,
        time_since_flipped: None,
        free_misses: 0,
    }
}

fn five_cards_with_answer_a() -> Vec<Card> {
    vec![
        card(0, "Q1", "A"),
        card(1, "Q2", "A"),
        card(2, "Q3", "A"),
        card(3, "Q4", "A"),
        card(4, "Q5", "A"),
    ]
}

#[test]
fn test_submit_correct_answer() {
    let mut game = new_game_for_test(0, GameMode::Normal, 1000);
    game.cards = vec![card(0, "Q", "Answer1 / Answer2")];
    assert_eq!(game.get_score(), 0);
    assert!(game.submit_answer("Answer2"));
    assert_eq!(game.get_cards().len(), 0);
    assert_eq!(game.get_score(), 1);
}

#[test]
fn test_submit_incorrect_answer() {
    let mut game = new_game_for_test(0, GameMode::Normal, 1000);
    game.cards = vec![card(0, "Q", "Answer")];
    assert_eq!(game.get_score(), 0);
    assert!(!game.submit_answer("Wrong"));
    assert_eq!(game.get_cards().len(), 1);
    assert_eq!(game.get_score(), 0);
    assert_eq!(game.get_card_success_counts(), Vec::<(String, u32)>::new());
}

#[test]
fn test_submit_answer_normalization() {
    let mut game = new_game_for_test(0, GameMode::Normal, 1000);
    game.cards = vec![card(0, "Q", "Answer One / How are you?")];
    assert!(game.submit_answer("  how ARE you?? "));
    assert_eq!(game.get_cards().len(), 0);
}

#[test]
fn test_submit_answer_with_diacritics() {
    let mut game = new_game_for_test(0, GameMode::Normal, 1000);
    game.cards = vec![card(0, "Q", "crème brûlée")];
    assert!(game.submit_answer("creme brulee"));
    assert_eq!(game.get_cards().len(), 0);
}

#[test]
fn test_submit_answer_resolves_multiple_cards() {
    let mut game = new_game_for_test(0, GameMode::Normal, 1000);
    game.cards = vec![card(0, "Q1", "Answer"), card(1, "Q2", "Answer"), card(2, "Q3", "Different")];
    assert_eq!(game.get_score(), 0);
    assert!(game.submit_answer("answer"));
    let cards = game.get_cards();
    assert_eq!(cards.len(), 1);
    assert_eq!(cards[0].id, 2);
    assert_eq!(game.get_score(), 2);
}

#[test]
fn submit_answer_leaves_flipped_cards() {
    let mut game = new_game_for_test(0, GameMode::Normal, 1000);
    let mut down = card(0, "Q1", "A");
    down.flipped = true;
    down.time_since_flipped = Some(10);
    game.cards = vec![down, card(1, "Q2", "A"), card(2, "Q3", "B")];
    assert!(game.submit_answer("a"));
    let cards = game.get_cards();
    assert_eq!(cards.len(), 2);
    assert_eq!(cards[0].id, 0);
    assert_eq!(cards[1].id, 2);
    assert_eq!(game.get_score(), 1);
    // Only the flipped card accepts the answer now: nothing happens.
    assert!(!game.submit_answer("a"));
    assert_eq!(game.get_cards().len(), 2);
    assert_eq!(game.get_score(), 1);
}

#[test]
fn submit_answer_matches_the_side_that_is_asked_for() {
    let mut game = new_game_for_test(0, GameMode::Reverse, 1000);
    let mut turned = card(0, "prompt", "answer");
    turned.front = "answer".to_string();
    turned.back = "prompt".to_string();
    game.cards = vec![turned];
    assert!(!game.submit_answer("answer"));
    assert!(game.submit_answer("prompt"));
    // The success is credited to the prompt of the entry.
    assert_eq!(game.get_card_success_counts(), vec![("prompt".to_string(), 1)]);
}

#[test]
fn accepts_answer_compares_canonical_forms_of_alternates() {
    let back = "Answer One / How are you? /crème".to_string();
    assert!(accepts_answer(&back, &"answer one".to_string()));
    assert!(accepts_answer(&back, &"how are you".to_string()));
    assert!(accepts_answer(&back, &"creme".to_string()));
    assert!(!accepts_answer(&back, &"Answer One".to_string()));
    assert!(!accepts_answer(&back, &"answer".to_string()));
    assert!(!accepts_answer(&back, &"".to_string()));
    // An empty alternate accepts the empty answer.
    assert!(accepts_answer(&"a / ".to_string(), &"".to_string()));
}

#[test]
fn test_tick_moves_stops_flips_and_vanishes() {
    let mut game = new_game_for_test(0, GameMode::Normal, 1000);
    game.cards = vec![card(0, "Q", "A")];
    let flip_y = HEIGHT - CARD_HEIGHT;
    assert_eq!(game.card_speed, 50_000);
    let time_to_flip = flip_y / game.card_speed;
    assert_eq!(time_to_flip, 15_000);

    game.tick(time_to_flip - 100);
    let before = game.get_cards();
    assert_eq!(before.len(), 1);
    assert!(!before[0].flipped);
    assert_eq!(before[0].y, 745_000_000);
    assert_eq!(before[0].time_since_flipped, None);

    game.tick(200);
    let after = game.get_cards();
    assert_eq!(game.health, 2);
    assert_eq!(after.len(), 1);
    assert!(after[0].flipped);
    assert_eq!(after[0].y, flip_y);
    assert_eq!(after[0].time_since_flipped, Some(0));

    game.tick(999);
    assert_eq!(game.get_cards().len(), 1);
    assert_eq!(game.get_cards()[0].time_since_flipped, Some(999));
    game.tick(1);
    assert_eq!(game.get_cards().len(), 0);
    assert_eq!(game.get_missed_cards().len(), 1);
    assert_eq!(game.get_card_miss_counts(), vec![("Q".to_string(), 1)]);
}

#[test]
fn a_card_lands_exactly_at_the_floor() {
    let mut game = new_game_for_test(0, GameMode::Normal, 1000);
    game.cards = vec![card(0, "Q", "A")];
    game.tick(14_999);
    assert!(!game.cards[0].flipped);
    assert_eq!(game.cards[0].y, 749_950_000);
    game.tick(1);
    assert!(game.cards[0].flipped);
    assert_eq!(game.cards[0].y, 750_000_000);
}

#[test]
fn a_very_long_tick_lands_the_card() {
    let mut game = new_game_for_test(0, GameMode::Normal, u16::MAX);
    game.cards = vec![card(0, "Q", "A")];
    game.tick(u64::MAX);
    assert!(game.cards[0].flipped);
    assert_eq!(game.cards[0].y, HEIGHT - CARD_HEIGHT);
    assert_eq!(game.health, 2);
    game.tick(u64::MAX);
    assert_eq!(game.cards.len(), 0);
    assert_eq!(game.time_since_last_card, u64::MAX);
}

#[test]
fn a_tick_of_no_time_changes_nothing_but_may_not_spawn() {
    let mut game = new_game_for_test(0, GameMode::Normal, 1000);
    let before = game.get_cards();
    game.tick(0);
    assert_eq!(game.get_cards(), before);
    assert_eq!(game.time_since_last_card, 0);
}

#[test]
fn free_misses_shield_the_health() {
    let mut game = new_game_for_test(0, GameMode::Normal, 1000);
    let mut shielded = card(0, "Q", "A");
    shielded.free_misses = 1;
    game.cards = vec![shielded];
    game.tick(15_000);
    assert!(game.cards[0].flipped);
    assert_eq!(game.health, 3);
    assert_eq!(game.get_card_miss_counts(), vec![("Q".to_string(), 1)]);
    assert_eq!(game.get_missed_cards().len(), 1);
}

#[test]
fn damage_of_one_tick_is_taken_in_one_step() {
    let mut game = new_game_for_test(0, GameMode::Normal, 1000);
    game.health = 2;
    game.cards = vec![card(0, "Q1", "A"), card(1, "Q2", "B"), card(2, "Q3", "C")];
    game.tick(15_000);
    assert_eq!(game.health, 0);
    assert!(game.is_game_over());
    assert_eq!(game.get_missed_cards().len(), 3);
    assert_eq!(game.cards.len(), 3);
}

#[test]
fn test_health_gain_on_score() {
    let mut game = new_game_for_test(0, GameMode::Normal, 1000);
    game.health = 1;
    game.cards = five_cards_with_answer_a();
    assert!(game.submit_answer("A"));
    assert_eq!(game.get_score(), 5);
    assert_eq!(game.get_health(), 2);
    assert_eq!(game.get_cards().len(), 0);
    assert_eq!(game.score_since_last_heart, 0);
}

#[test]
fn health_gain_stops_at_the_maximum() {
    let mut game = new_game_for_test(0, GameMode::Normal, 1000);
    game.health = 5;
    game.cards = five_cards_with_answer_a();
    assert!(game.submit_answer("A"));
    assert_eq!(game.get_health(), 5);
    assert_eq!(game.get_max_health(), 5);

    let mut game = new_game_for_test(0, GameMode::Normal, 1000);
    game.health = 4;
    game.score_since_last_heart = 4;
    let mut many = five_cards_with_answer_a();
    many.extend(five_cards_with_answer_a());
    many.push(card(10, "Q11", "A"));
    game.cards = many;
    assert!(game.submit_answer("A"));
    // 4 + 11 = 15 points since the last heart: three hearts, capped at five.
    assert_eq!(game.get_score(), 11);
    assert_eq!(game.get_health(), 5);
    assert_eq!(game.score_since_last_heart, 0);
}

#[test]
fn points_towards_a_heart_carry_over() {
    let mut game = new_game_for_test(0, GameMode::Normal, 1000);
    game.health = 1;
    game.cards = vec![card(0, "Q1", "A"), card(1, "Q2", "A"), card(2, "Q3", "A")];
    assert!(game.submit_answer("A"));
    assert_eq!(game.get_health(), 1);
    assert_eq!(game.score_since_last_heart, 3);
    game.cards = vec![card(3, "Q1", "A"), card(4, "Q2", "A"), card(5, "Q3", "A")];
    assert!(game.submit_answer("A"));
    assert_eq!(game.get_health(), 2);
    assert_eq!(game.score_since_last_heart, 1);
    assert_eq!(game.get_score(), 6);
}

#[test]
fn test_game_over_and_restart() {
    let mut game = new_game_for_test(0, GameMode::Normal, 1000);
    game.health = 1;
    game.cards = vec![card(0, "Q", "A")];
    let flip_y = HEIGHT - CARD_HEIGHT;
    let time_to_flip = flip_y / game.card_speed;

    game.tick(time_to_flip + 100);
    assert!(game.is_game_over());
    assert_eq!(game.get_health(), 0);
    assert!(game.cards[0].flipped);

    game.tick(10_000);
    assert_eq!(game.get_cards().len(), 1);
    assert!(!game.submit_answer("A"));
    assert_eq!(game.get_score(), 0);

    game.restart();
    assert!(!game.is_game_over());
    assert_eq!(game.get_health(), 3);
    assert_eq!(game.get_score(), 0);
    assert_eq!(game.get_cards().len(), 1);
    assert_eq!(game.get_missed_cards().len(), 0);
    // The statistics outlive the restart.
    assert_eq!(game.get_card_miss_counts(), vec![("Q".to_string(), 1)]);
}

#[test]
fn pausing_a_game_that_is_over_does_nothing() {
    let mut game = new_game_for_test(0, GameMode::Normal, 1000);
    game.health = 1;
    game.cards = vec![card(0, "Q", "A")];
    game.tick(15_100);
    assert!(game.is_game_over());
    game.pause();
    assert!(!game.is_paused());
    game.resume();
    assert!(!game.is_paused());
    assert!(game.is_game_over());
}

#[test]
fn test_pause_and_resume() {
    let mut game = new_game_for_test(0, GameMode::Normal, 1000);
    let mut falling = card(0, "Q", "A");
    falling.y = 10_000_000;
    game.cards = vec![falling];

    game.pause();
    assert!(game.is_paused());

    game.tick(1000);
    assert_eq!(game.get_cards()[0].y, 10_000_000);

    assert!(!game.submit_answer("A"));
    assert_eq!(game.get_cards().len(), 1);

    game.resume();
    assert!(!game.is_paused());

    game.tick(1000);
    assert_eq!(game.get_cards()[0].y, 60_000_000);

    assert!(game.submit_answer("A"));
    assert_eq!(game.get_cards().len(), 0);
}

#[test]
fn test_difficulty_increases_with_score() {
    let mut game = new_game_for_test(0, GameMode::Normal, 1000);
    game.cards = five_cards_with_answer_a();
    assert_eq!(game.card_spawn_interval, 3000);
    assert_eq!(game.card_speed, 50_000);

    game.submit_answer("A");

    assert_eq!(game.get_score(), 5);
    assert_eq!(game.card_spawn_interval, 3000 - 250);
    assert_eq!(game.card_speed, 50_000 + 5 * 2_000);
}

#[test]
fn the_speed_multiplier_scales_the_fall() {
    let mut game = new_game_for_test(0, GameMode::Normal, 1500);
    assert_eq!(game.card_speed, 75_000);
    game.cards = five_cards_with_answer_a();
    game.submit_answer("A");
    assert_eq!(game.card_speed, 90_000);
    game.restart();
    assert_eq!(game.card_speed, 75_000);
    assert_eq!(game.speed_multiplier, 1500);
}

#[test]
fn test_deck_replenishes_on_unlock() {
    let mut game = new_game_for_test(0, GameMode::Normal, 1000);

    assert_eq!(game.unlocked_cards_count, INITIAL_UNLOCKED_CARDS);
    assert_eq!(game.card_deck.len(), INITIAL_UNLOCKED_CARDS * DECK_CARD_DUPLICATES as usize - 1);

    game.score = 9;
    game.cards = vec![card(game.next_card_id, "Q", "A")];
    assert!(game.is_well_formed());
    game.submit_answer("A");
    assert!(game.is_well_formed());
    assert_eq!(game.get_score(), 10);

    assert_eq!(game.unlocked_cards_count, INITIAL_UNLOCKED_CARDS + CARDS_PER_UNLOCK);
    assert_eq!(
        game.card_deck.len(),
        (INITIAL_UNLOCKED_CARDS + CARDS_PER_UNLOCK) * DECK_CARD_DUPLICATES as usize
    );
}

#[test]
fn the_queue_holds_fewer_copies_of_mastered_entries() {
    let mut game = Game::new(WIDTH, HEIGHT, 3, GameMode::Normal, 1000, deck_of(4)).unwrap();
    game.stats.record_success(&"front0".to_string());
    game.stats.record_success(&"front1".to_string());
    game.stats.record_success(&"front1".to_string());
    game.stats.record_success(&"front2".to_string());
    game.stats.record_success(&"front2".to_string());
    game.stats.record_success(&"front2".to_string());
    let queue = game.weighted_entries();
    let fronts: Vec<&str> = queue.iter().map(|e| e.0.as_str()).collect();
    assert_eq!(
        fronts,
        vec!["front0", "front0", "front1", "front2", "front3", "front3", "front3"]
    );
    game.replenish_deck();
    assert_eq!(game.card_deck.len(), 2 + 1 + 1 + 3);
    assert_eq!(game.unlocked_cards_count, 4);
    let mut shuffled: Vec<&str> = game.card_deck.iter().map(|e| e.0.as_str()).collect();
    shuffled.sort();
    assert_eq!(shuffled, fronts);
    for entry in &game.card_deck {
        assert_eq!(entry.1, entry.0.replace("front", "back"));
    }
}

#[test]
fn draw_one_refills_an_empty_queue() {
    let mut game = Game::new(WIDTH, HEIGHT, 3, GameMode::Normal, 1000, deck_of(2)).unwrap();
    // Two entries, three copies each, one drawn for the first card.
    assert_eq!(game.card_deck.len(), 5);
    for left in (0..5).rev() {
        assert!(game.draw_one().is_some());
        assert_eq!(game.card_deck.len(), left);
    }
    let next = game.draw_one();
    assert!(next.is_some());
    assert_eq!(game.card_deck.len(), 5);
}

#[test]
fn draw_one_from_an_empty_vocabulary_gives_nothing() {
    let mut game = Game::default();
    assert_eq!(game.draw_one(), None);
    game.spawn_card();
    assert_eq!(game.cards.len(), 0);
    game.tick(10_000);
    assert_eq!(game.cards.len(), 0);
    assert_eq!(game.next_card_id, 0);
}

#[test]
fn test_reverse_mode_card_spawn() {
    let game = new_game_for_test(1, GameMode::Reverse, 1000);
    let cards = game.get_cards();
    assert_eq!(cards.len(), 1);
    let card = &cards[0];

    let normal_game = new_game_for_test(1, GameMode::Normal, 1000);
    let normal_cards = normal_game.get_cards();
    let normal_card = &normal_cards[0];

    assert_eq!(card.front, normal_card.back);
    assert_eq!(card.back, normal_card.front);
    assert_eq!(card.raw_front, normal_card.raw_front);
    assert_eq!(card.raw_back, normal_card.raw_back);
    assert_eq!(normal_card.front, normal_card.raw_front);
    assert_eq!(card.front, card.raw_back);
}

#[test]
fn test_both_mode_card_spawn() {
    let mut game = new_game_for_test(1, GameMode::Both, 1000);
    for _ in 0..20 {
        game.spawn_card();
    }
    let cards = game.get_cards();
    assert_eq!(cards.len(), 21);
    let prompt_fronts = cards.iter().filter(|c| c.front == c.raw_front).count();
    let answer_fronts = cards.iter().filter(|c| c.front == c.raw_back).count();
    assert!(prompt_fronts > 0, "some cards show their prompt");
    assert!(answer_fronts > 0, "some cards show their answer");
    assert_eq!(prompt_fronts + answer_fronts, cards.len());
}

#[test]
fn spawned_cards_start_at_the_top_within_the_field() {
    let mut game = new_game_for_test(5, GameMode::Normal, 1000);
    for _ in 0..50 {
        game.spawn_card();
    }
    let cards = game.get_cards();
    assert_eq!(cards.len(), 51);
    for (i, card) in cards.iter().enumerate() {
        assert_eq!(card.id, i as u32);
        assert_eq!(card.y, 0);
        assert!(card.x < WIDTH - CARD_WIDTH);
        assert!(!card.flipped);
        assert_eq!(card.time_since_flipped, None);
        assert_eq!(card.free_misses, 2);
    }
    assert!(cards.iter().any(|c| c.x != cards[0].x));
    assert_eq!(game.next_card_id, 51);
}

#[test]
fn free_misses_come_from_the_statistics_at_spawn() {
    let mut game = Game::new(WIDTH, HEIGHT, 0, GameMode::Normal, 1000, deck_of(1)).unwrap();
    assert_eq!(game.cards[0].free_misses, 2);
    game.stats.record_miss(&"front0".to_string());
    game.spawn_card();
    assert_eq!(game.cards[1].free_misses, 1);
    game.stats.record_success(&"front0".to_string());
    game.spawn_card();
    assert_eq!(game.cards[2].free_misses, 0);
    game.stats.record_success(&"front0".to_string());
    game.spawn_card();
    assert_eq!(game.cards[3].free_misses, 0);
    // Cards in play keep what they were given.
    assert_eq!(game.cards[0].free_misses, 2);
}

#[test]
fn card_ids_start_again_after_the_last() {
    let mut game = new_game_for_test(5, GameMode::Normal, 1000);
    game.next_card_id = u32::MAX;
    game.spawn_card();
    assert_eq!(game.cards[1].id, u32::MAX);
    assert_eq!(game.next_card_id, 0);
}

#[test]
fn a_card_spawns_when_the_interval_has_passed() {
    let mut game = new_game_for_test(0, GameMode::Normal, 1000);
    let back = game.cards[0].back.clone();
    assert!(game.submit_answer(&back));
    assert_eq!(game.cards.len(), 0);
    game.tick(3000);
    assert_eq!(game.cards.len(), 0, "the interval must be exceeded");
    assert_eq!(game.time_since_last_card, 3000);
    game.tick(1);
    assert_eq!(game.cards.len(), 1);
    assert_eq!(game.time_since_last_card, 0);
    // The new card falls within the tick that spawned it.
    assert_eq!(game.cards[0].y, 52_000);
    // One card is in play and the score allows one: no further spawn.
    game.tick(5000);
    assert_eq!(game.cards.len(), 1);
    assert_eq!(game.time_since_last_card, 5000);
}

#[test]
fn more_cards_are_allowed_at_higher_scores() {
    let mut game = Game::new(WIDTH, HEIGHT, 0, GameMode::Normal, 1000, deck_of(10)).unwrap();
    game.score = 10;
    assert!(game.is_well_formed());
    game.tick(3001);
    assert_eq!(game.cards.len(), 2);
    game.tick(3001);
    assert_eq!(game.cards.len(), 2);
}

#[test]
fn test_new_with_custom_deck_success() {
    let deck = vec![
        ("Hello".to_string(), "World".to_string()),
        ("Foo".to_string(), "Bar".to_string()),
    ];
    let made = Game::new(WIDTH, HEIGHT, 0, GameMode::Normal, 1000, deck);
    assert!(made.is_ok());
    let game = made.unwrap();

    assert_eq!(game.card_data.len(), 2);
    assert_eq!(game.card_data[0], ("Hello".to_string(), "World".to_string()));
    assert_eq!(game.get_cards().len(), 1);
    assert_eq!(game.get_health(), 3);
    assert_eq!(game.get_max_health(), 5);
    assert_eq!(game.get_score(), 0);
    assert!(!game.is_paused());
    assert!(!game.is_game_over());
    assert_eq!(game.width, WIDTH);
    assert_eq!(game.height, HEIGHT);
    assert_eq!(game.rng.seed, 0);
}

#[test]
fn test_new_with_custom_deck_empty() {
    let made = Game::new(WIDTH, HEIGHT, 0, GameMode::Normal, 1000, Vec::new());
    assert!(made.is_err());
    assert_eq!(made.err(), Some(GameError::EmptyDeck));
    assert_eq!(GameError::EmptyDeck.message(), "Custom deck cannot be empty.");
}

#[test]
fn test_restart_preserves_custom_deck() {
    let deck = vec![("Test".to_string(), "Deck".to_string())];
    let mut game = Game::new(WIDTH, HEIGHT, 0, GameMode::Normal, 1000, deck).unwrap();
    assert_eq!(game.card_data.len(), 1);

    game.score = 100;
    game.restart();

    assert_eq!(game.card_data.len(), 1);
    assert_eq!(game.card_data[0], ("Test".to_string(), "Deck".to_string()));
    assert_eq!(game.get_score(), 0);
}

#[test]
fn restart_keeps_the_name_and_replays_the_stream() {
    let mut game = new_game_for_test(42, GameMode::Both, 1000);
    let id = game.get_id();
    for _ in 0..7 {
        game.tick(3001);
        let back = game.cards[0].back.clone();
        game.submit_answer(&back);
    }
    game.pause();
    game.restart();
    assert_eq!(game.get_id(), id);
    assert!(!game.is_paused());
    assert_eq!(game.cards.len(), 1);
    assert_eq!(game.cards[0].id, 0);
    assert_eq!(game.rng.seed, 42);
    let first = game.get_cards();
    game.restart();
    // Without new successes the restart gives the same first card.
    assert_eq!(game.get_cards(), first);
}

#[test]
fn test_card_success_and_miss_counts() {
    let mut game = new_game_for_test(0, GameMode::Normal, 1000);

    let mut first = card(0, "Q", "A");
    first.free_misses = 2;
    game.cards = vec![first];
    game.tick(15_100);
    assert_eq!(game.get_card_miss_counts(), vec![("Q".to_string(), 1)]);

    let mut second = card(1, "Q2", "A2");
    second.free_misses = 2;
    game.cards = vec![second];
    assert!(game.submit_answer("A2"));
    assert_eq!(game.get_card_success_counts(), vec![("Q2".to_string(), 1)]);
    assert_eq!(game.get_card_miss_counts(), vec![("Q".to_string(), 1)]);
}

#[test]
fn the_game_id_is_the_first_draw_of_the_seed() {
    for seed in [0u64, 1, 42, u64::MAX] {
        let mut rng = rand_chacha::ChaCha8Rng::seed_from_u64(seed);
        let expected: u32 = rng.random();
        let game = new_game_for_test(seed, GameMode::Normal, 1000);
        assert_eq!(game.get_id(), expected);
    }
}

#[test]
fn equal_seeds_give_equal_games() {
    let mut a = new_game_for_test(7, GameMode::Both, 1250);
    let mut b = new_game_for_test(7, GameMode::Both, 1250);
    assert_eq!(a.get_id(), b.get_id());
    assert_eq!(a.get_cards(), b.get_cards());
    for round in 0..200u64 {
        let dt = 100 + (round * 37) % 900;
        a.tick(dt);
        b.tick(dt);
        if round % 5 == 0 && !a.cards.is_empty() {
            let answer = a.cards[0].back.clone();
            assert_eq!(a.submit_answer(&answer), b.submit_answer(&answer));
        }
        assert_eq!(a.get_cards(), b.get_cards());
        assert_eq!(a.get_score(), b.get_score());
        assert_eq!(a.get_health(), b.get_health());
        assert_eq!(a.card_deck, b.card_deck);
        assert_eq!(a.rng.word_pos, b.rng.word_pos);
    }
    assert!(a.get_score() > 0);
}

#[test]
fn different_seeds_give_different_games() {
    let a = new_game_for_test(1, GameMode::Normal, 1000);
    let b = new_game_for_test(2, GameMode::Normal, 1000);
    assert_ne!(a.get_id(), b.get_id());
    assert_ne!(a.card_deck, b.card_deck);
}

#[test]
fn health_stays_in_bounds_over_a_long_game() {
    let mut game = new_game_for_test(9, GameMode::Normal, 2000);
    let mut was_over = false;
    for round in 0..3000u64 {
        game.tick(250);
        if round % 7 == 0 && !game.cards.is_empty() {
            let answer = game.cards[0].back.clone();
            game.submit_answer(&answer);
        }
        assert!(game.is_well_formed());
        assert_eq!(game.card_spawn_interval, spawn_interval_at(game.score));
        assert_eq!(game.card_speed, fall_speed_at(game.score, game.speed_multiplier));
        assert!(0 <= game.get_health() && game.get_health() <= game.get_max_health());
        assert_eq!(game.is_game_over(), game.get_health() == 0);
        for pair in game.cards.windows(2) {
            assert!(pair[0].id < pair[1].id);
        }
        for card in &game.cards {
            assert_eq!(card.flipped, card.time_since_flipped.is_some());
            assert!(card.y <= HEIGHT - CARD_HEIGHT);
        }
        if game.is_game_over() {
            was_over = true;
            let cards = game.get_cards();
            let score = game.get_score();
            game.tick(250);
            assert!(!game.submit_answer("anything"));
            assert_eq!(game.get_cards(), cards);
            assert_eq!(game.get_score(), score);
            game.restart();
            assert!(!game.is_game_over());
        }
    }
    assert!(was_over);
}

#[test]
fn the_default_game_has_no_vocabulary() {
    let game = Game::default();
    assert_eq!(game.cards.len(), 0);
    assert_eq!(game.card_data.len(), 0);
    assert_eq!(game.width, 600_000_000);
    assert_eq!(game.height, 800_000_000);
    assert_eq!(game.health, 3);
    assert_eq!(game.max_health, 5);
    assert_eq!(game.card_spawn_interval, 3000);
    assert_eq!(game.card_speed, 50_000);
    assert_eq!(game.speed_multiplier, 1000);
    assert_eq!(game.mode, GameMode::Normal);
    assert_eq!(GameMode::default(), GameMode::Normal);
    assert_eq!(game.rng.seed, 0);
    assert_eq!(game.rng.word_pos, 0);
    assert_eq!(game.get_id(), 0);
}

#[test]
fn cards_for_render_show_the_display_sides() {
    let mut game = new_game_for_test(0, GameMode::Normal, 1000);
    let mut one = card(3, "raw q", "raw a");
    one.front = "shown".to_string();
    one.back = "asked".to_string();
    one.x = 5;
    one.y = 6;
    one.free_misses = 2;
    game.cards = vec![one, card(4, "Q", "A")];
    let shown = game.get_cards_for_render();
    assert_eq!(
        shown,
        vec![
            RenderableCard {
                id: 3,
                front: "shown".to_string(),
                back: "asked".to_string(),
                x: 5,
                y: 6,
                flipped: false,
                free_misses: 2,
            },
            RenderableCard {
                id: 4,
                front: "Q".to_string(),
                back: "A".to_string(),
                x: 0,
                y: 0,
                flipped: false,
                free_misses: 0,
            },
        ]
    );
}

fn line(front: &str, back: &str, reversed: bool, s: u32, m: u32, unlocked: bool) -> CardForDisplay {
    CardForDisplay {
        raw_front: front.to_string(),
        raw_back: back.to_string(),
        front: if reversed { back.to_string() } else { front.to_string() },
        back: if reversed { front.to_string() } else { back.to_string() },
        success_count: s,
        miss_count: m,
        is_unlocked: unlocked,
    }
}

#[test]
fn the_overview_lists_the_vocabulary_by_mode() {
    let mut game = Game::new(WIDTH, HEIGHT, 0, GameMode::Normal, 1000, deck_of(12)).unwrap();
    game.stats.record_success(&"front1".to_string());
    game.stats.record_miss(&"front1".to_string());
    game.stats.record_miss(&"front1".to_string());
    let lines = game.get_all_cards_for_display();
    assert_eq!(lines.len(), 12);
    assert_eq!(lines[0], line("front0", "back0", false, 0, 0, true));
    assert_eq!(lines[1], line("front1", "back1", false, 1, 2, true));
    assert_eq!(lines[9], line("front9", "back9", false, 0, 0, true));
    assert_eq!(lines[10], line("front10", "back10", false, 0, 0, false));
    assert_eq!(lines[11], line("front11", "back11", false, 0, 0, false));

    game.mode = GameMode::Reverse;
    let lines = game.get_all_cards_for_display();
    assert_eq!(lines.len(), 12);
    assert_eq!(lines[1], line("front1", "back1", true, 1, 2, true));
    assert_eq!(lines[10], line("front10", "back10", true, 0, 0, false));

    game.mode = GameMode::Both;
    let lines = game.get_all_cards_for_display();
    assert_eq!(lines.len(), 24);
    assert_eq!(lines[2], line("front1", "back1", false, 1, 2, true));
    assert_eq!(lines[3], line("front1", "back1", true, 1, 2, true));
    assert_eq!(lines[19], line("front9", "back9", true, 0, 0, true));
    assert_eq!(lines[20], line("front10", "back10", false, 0, 0, false));

    game.score = 10;
    game.card_deck.clear();
    assert!(game.is_well_formed());
    let lines = game.get_all_cards_for_display();
    assert!(lines.iter().all(|l| l.is_unlocked));
}

#[test]
fn the_export_lists_each_missed_prompt_once() {
    let mut game = new_game_for_test(0, GameMode::Normal, 1000);
    assert_eq!(game.generate_anki_export(), "");
    game.missed_cards = vec![card(0, "Q1", "A1")];
    assert_eq!(game.generate_anki_export(), "#separator:tab\n#html:true\nQ1\tA1");
    game.missed_cards = vec![
        card(0, "Q1", "A1"),
        card(1, "Q2", "A2"),
        card(2, "Q1", "other"),
        card(3, "Q3", "A3"),
        card(4, "Q2", "A2"),
    ];
    assert_eq!(
        game.generate_anki_export(),
        "#separator:tab\n#html:true\nQ1\tA1\nQ2\tA2\nQ3\tA3"
    );
}

#[test]
fn the_export_uses_the_raw_sides() {
    let mut game = new_game_for_test(0, GameMode::Reverse, 1000);
    let mut turned = card(0, "prompt", "answer");
    turned.front = "answer".to_string();
    turned.back = "prompt".to_string();
    game.cards = vec![turned];
    game.tick(15_000);
    assert_eq!(game.generate_anki_export(), "#separator:tab\n#html:true\nprompt\tanswer");
    let missed = game.get_missed_cards();
    assert_eq!(missed.len(), 1);
    assert!(missed[0].flipped);
    assert_eq!(missed[0].y, HEIGHT - CARD_HEIGHT);
    assert_eq!(missed[0].time_since_flipped, Some(0));
}

#[test]
fn copies_of_cards_are_equal_to_the_cards() {
    let cards = five_cards_with_answer_a();
    assert_eq!(copy_cards(&cards), cards);
    assert_eq!(cards[0].clone(), cards[0]);
}

#[test]
fn a_field_lower_than_a_card_has_its_floor_at_the_top() {
    let mut game = Game::new(WIDTH, 10, 0, GameMode::Normal, 1000, deck_of(3)).unwrap();
    game.tick(0);
    assert!(game.cards[0].flipped);
    assert_eq!(game.cards[0].y, 0);
}

#[test]
fn card_motion_on_a_single_card() {
    let mut c = card(0, "Q", "A");
    assert!(!c.advance(50_000, 1_000, 750_000_000));
    assert_eq!(c.y, 50_000_000);
    assert!(!c.is_expired());
    assert!(c.advance(50_000, 14_000, 750_000_000));
    assert_eq!(c.y, 750_000_000);
    assert!(c.flipped);
    assert_eq!(c.time_since_flipped, Some(0));
    assert!(!c.advance(50_000, 400, 750_000_000));
    assert_eq!(c.time_since_flipped, Some(400));
    assert_eq!(c.y, 750_000_000);
    assert!(!c.is_expired());
    assert!(!c.advance(50_000, u64::MAX, 750_000_000));
    assert_eq!(c.time_since_flipped, Some(u64::MAX));
    assert!(c.is_expired());
}

#[test]
fn a_spawned_card_shows_the_side_that_its_orientation_says() {
    let plain = Card::spawned("p".to_string(), "a".to_string(), false, 7, 11, 2);
    assert_eq!(plain.front, "p");
    assert_eq!(plain.back, "a");
    assert_eq!((plain.id, plain.x, plain.y, plain.free_misses), (7, 11, 0, 2));
    let turned = Card::spawned("p".to_string(), "a".to_string(), true, 8, 12, 0);
    assert_eq!(turned.front, "a");
    assert_eq!(turned.back, "p");
    assert_eq!(turned.raw_front, "p");
    assert_eq!(turned.raw_back, "a");
}

#[test]
fn games_made_by_the_library_are_well_formed() {
    assert!(Game::default().is_well_formed());
    let mut game = new_game_for_test(3, GameMode::Both, 1000);
    assert!(game.is_well_formed());
    game.pause();
    assert!(game.is_well_formed());
    game.restart();
    assert!(game.is_well_formed());
    game.cards = five_cards_with_answer_a();
    assert!(game.is_well_formed());
}

#[test]
fn a_game_put_together_wrongly_is_not_well_formed() {
    let fresh = || new_game_for_test(3, GameMode::Normal, 1000);

    let mut game = fresh();
    game.health = 6;
    assert!(!game.is_well_formed());

    let mut game = fresh();
    game.health = -1;
    assert!(!game.is_well_formed());

    let mut game = fresh();
    game.health = 0;
    assert!(!game.is_well_formed());
    game.game_over = true;
    assert!(game.is_well_formed());

    let mut game = fresh();
    game.game_over = true;
    assert!(!game.is_well_formed());

    let mut game = fresh();
    game.max_health = 2;
    game.health = 2;
    assert!(!game.is_well_formed());

    let mut game = fresh();
    game.score = -1;
    assert!(!game.is_well_formed());

    let mut game = fresh();
    game.score_since_last_heart = -1;
    assert!(!game.is_well_formed());

    let mut game = fresh();
    game.width = CARD_WIDTH;
    assert!(!game.is_well_formed());
    game.width = CARD_WIDTH + 1;
    assert!(game.is_well_formed());

    let mut game = fresh();
    game.cards[0].flipped = true;
    assert!(!game.is_well_formed());
    game.cards[0].time_since_flipped = Some(0);
    assert!(game.is_well_formed());

    // A queue that was built before an unlock is stale.
    let mut game = fresh();
    game.score = 10;
    assert!(!game.is_well_formed());
    game.card_deck.clear();
    assert!(game.is_well_formed());

    // A queue may hold unlocked entries only.
    let mut game = fresh();
    game.card_deck.push(("front10".to_string(), "back10".to_string()));
    assert!(!game.is_well_formed());
    game.card_deck.pop();
    game.card_deck.push(("front9".to_string(), "back9".to_string()));
    assert!(game.is_well_formed());
    game.card_deck.push(("front9".to_string(), "back8".to_string()));
    assert!(!game.is_well_formed());
}

#[test]
fn no_card_is_drawn_from_a_queue_built_before_an_unlock() {
    let mut game = new_game_for_test(21, GameMode::Normal, 1000);
    let locked: Vec<String> = (10..30).map(|i| format!("front{}", i)).collect();
    let mut seen_new = false;
    for _ in 0..400 {
        game.tick(600);
        if game.cards.iter().any(|c| locked.contains(&c.raw_front)) {
            seen_new = true;
        }
        if let Some(first) = game.cards.iter().find(|c| !c.flipped) {
            let answer = first.back.clone();
            game.submit_answer(&answer);
        }
        if game.is_game_over() {
            game.restart();
        }
        let unlocked = game.card_data.len().min(10 + (game.score as usize / 10) * 5);
        for entry in &game.card_deck {
            let index = game.card_data.iter().position(|e| e == entry).unwrap();
            assert!(index < unlocked);
        }
        if !game.card_deck.is_empty() {
            assert_eq!(game.unlocked_cards_count, unlocked);
        }
    }
    assert!(seen_new, "entries beyond the first ten came into play");
    assert!(game.get_score() >= 10);
}
