//! The numbers of the game and the formulas that scale it with the score.
//!
//! Lengths are in micropixels (millionths of a pixel), times in
//! milliseconds, speeds in micropixels per millisecond, and the speed
//! multiplier in thousandths. With these units every formula is exact in
//! integers.

use vstd::prelude::*;

verus! {

/// Width of a card.
pub const CARD_WIDTH: u64 = 150_000_000;

/// Height of a card.
pub const CARD_HEIGHT: u64 = 50_000_000;

/// Entries of the deck that are unlocked at score zero.
pub const INITIAL_UNLOCKED_CARDS: usize = 10;

/// Points between two unlocks.
pub const SCORE_PER_CARD_UNLOCK: i32 = 10;

/// Entries that one unlock adds.
pub const CARDS_PER_UNLOCK: usize = 5;

/// Copies of an entry in the draw queue before any success.
pub const DECK_CARD_DUPLICATES: u32 = 3;

/// Cards that may be in play at score zero.
pub const INITIAL_MAX_CARDS: usize = 1;

/// Points for each further card in play.
pub const SCORE_PER_MAX_CARD_INCREASE: i32 = 10;

/// Time between two spawns at score zero.
pub const INITIAL_SPAWN_INTERVAL: u64 = 3000;

/// Shortest time between two spawns.
pub const MIN_SPAWN_INTERVAL: u64 = 500;

/// Points between two cuts of the spawn interval.
pub const SCORE_PER_SPAWN_INTERVAL_DECREASE: i32 = 5;

/// Time that one cut takes off the spawn interval.
pub const SPAWN_INTERVAL_DECREASE: u64 = 250;

/// Fall speed at score zero and multiplier one, in pixels per second.
pub const INITIAL_CARD_SPEED: u64 = 50;

/// Pixels per second that each point adds, at multiplier one.
pub const CARD_SPEED_INCREASE_PER_SCORE: u64 = 2;

/// Points that earn one heart.
pub const SCORE_PER_HEART: i32 = 5;

/// Health at the start of a game.
pub const INITIAL_HEALTH: i32 = 3;

/// Most health a game starts out able to hold.
pub const INITIAL_MAX_HEALTH: i32 = 5;

/// Time a flipped card stays on display.
pub const FLIP_DISPLAY_TIME: u64 = 1000;

/// Exposures of a prompt that never cost health.
pub const FREE_EXPOSURES: u32 = 2;

/// Width of the field of a default game.
pub const DEFAULT_WIDTH: u64 = 600_000_000;

/// Height of the field of a default game.
pub const DEFAULT_HEIGHT: u64 = 800_000_000;

/// The smaller of two numbers.
pub open spec fn min(a: int, b: int) -> int {
    if a <= b {
        a
    } else {
        b
    }
}

/// The larger of two numbers.
pub open spec fn max(a: int, b: int) -> int {
    if a >= b {
        a
    } else {
        b
    }
}

/// How many entries of a deck of `deck_size` are unlocked at `score`.
pub open spec fn unlocked_count(score: int, deck_size: int) -> int {
    min(
        deck_size,
        INITIAL_UNLOCKED_CARDS + (score / SCORE_PER_CARD_UNLOCK as int) * CARDS_PER_UNLOCK,
    )
}

/// How many copies of an entry with `success_count` successes go into the
/// draw queue.
pub open spec fn copies(success_count: int) -> int {
    max(1, DECK_CARD_DUPLICATES - success_count)
}

/// How many cards may be in play at `score`.
pub open spec fn max_cards(score: int) -> int {
    INITIAL_MAX_CARDS + score / SCORE_PER_MAX_CARD_INCREASE as int
}

/// The time between two spawns at `score`.
pub open spec fn spawn_interval(score: int) -> int {
    max(
        MIN_SPAWN_INTERVAL as int,
        INITIAL_SPAWN_INTERVAL - (score / SCORE_PER_SPAWN_INTERVAL_DECREASE as int)
            * SPAWN_INTERVAL_DECREASE,
    )
}

/// The fall speed at `score` and multiplier one, in pixels per second.
pub open spec fn base_speed(score: int) -> int {
    INITIAL_CARD_SPEED + score * CARD_SPEED_INCREASE_PER_SCORE
}

/// The fall speed at `score` with the given multiplier.
pub open spec fn fall_speed(score: int, multiplier: int) -> int {
    base_speed(score) * multiplier
}

/// How many flips of a card are free, for a prompt with the given past.
pub open spec fn free_misses(success_count: int, miss_count: int) -> int {
    max(0, FREE_EXPOSURES - (success_count + miss_count))
}

/// The y position at which a card reaches the floor of a field of `height`.
pub open spec fn floor_of(height: int) -> int {
    max(0, height - CARD_HEIGHT)
}

/// `base` and `gain` added up, as far as an `i32` goes.
pub open spec fn clamped_sum(base: int, gain: int) -> int {
    min(base + gain, i32::MAX as int)
}

/// The unlocked part of a deck never shrinks as the score grows.
pub proof fn lemma_unlocked_count_monotonic(low: int, high: int, deck_size: int)
    requires
        low <= high,
    ensures
        unlocked_count(low, deck_size) <= unlocked_count(high, deck_size),
{
}

/// The unlocked part of a deck is never more than the deck, and where the
/// deck holds an entry and the score is not negative, it holds one too.
pub proof fn lemma_unlocked_count_bounds(score: int, deck_size: int)
    requires
        0 <= score,
        0 <= deck_size,
    ensures
        0 <= unlocked_count(score, deck_size) <= deck_size,
        deck_size > 0 ==> unlocked_count(score, deck_size) > 0,
{
}

/// The spawn interval never grows as the score grows, and never falls below
/// its floor.
pub proof fn lemma_spawn_interval_monotonic(low: int, high: int)
    requires
        low <= high,
    ensures
        spawn_interval(high) <= spawn_interval(low),
        MIN_SPAWN_INTERVAL <= spawn_interval(high),
        spawn_interval(low) >= 0 && (0 <= low ==> spawn_interval(low) <= INITIAL_SPAWN_INTERVAL),
{
}

/// The fall speed never drops as the score grows, and is the speed at
/// multiplier one times the multiplier.
pub proof fn lemma_fall_speed_monotonic(low: int, high: int, multiplier: int)
    requires
        low <= high,
        0 <= multiplier,
    ensures
        fall_speed(low, multiplier) <= fall_speed(high, multiplier),
        fall_speed(low, multiplier) == (INITIAL_CARD_SPEED + low * CARD_SPEED_INCREASE_PER_SCORE)
            * multiplier,
{
    assert(base_speed(low) * multiplier <= base_speed(high) * multiplier) by (nonlinear_arith)
        requires
            base_speed(low) <= base_speed(high),
            0 <= multiplier,
    ;
}

/// How many entries of a deck of `deck_size` are unlocked at `score`.
pub fn unlocked_at(score: i32, deck_size: usize) -> (count: usize)
    requires
        score >= 0,
    ensures
        count == unlocked_count(score as int, deck_size as int),
{
    let steps: usize = (score / SCORE_PER_CARD_UNLOCK) as usize;
    let wanted: usize = INITIAL_UNLOCKED_CARDS + steps * CARDS_PER_UNLOCK;
    if wanted < deck_size {
        wanted
    } else {
        deck_size
    }
}

/// How many copies of an entry with `success_count` successes go into the
/// draw queue.
pub fn copies_for(success_count: u32) -> (count: u32)
    ensures
        count == copies(success_count as int),
        1 <= count <= DECK_CARD_DUPLICATES,
{
    if success_count >= DECK_CARD_DUPLICATES - 1 {
        1
    } else {
        DECK_CARD_DUPLICATES - success_count
    }
}

/// How many cards may be in play at `score`.
pub fn max_cards_at(score: i32) -> (count: usize)
    requires
        score >= 0,
    ensures
        count == max_cards(score as int),
{
    INITIAL_MAX_CARDS + (score / SCORE_PER_MAX_CARD_INCREASE) as usize
}

/// The time between two spawns at `score`.
pub fn spawn_interval_at(score: i32) -> (interval: u64)
    requires
        score >= 0,
    ensures
        interval == spawn_interval(score as int),
{
    let cut: u64 = (score / SCORE_PER_SPAWN_INTERVAL_DECREASE) as u64 * SPAWN_INTERVAL_DECREASE;
    if cut >= INITIAL_SPAWN_INTERVAL - MIN_SPAWN_INTERVAL {
        MIN_SPAWN_INTERVAL
    } else {
        INITIAL_SPAWN_INTERVAL - cut
    }
}

/// The fall speed at `score` with the given multiplier.
pub fn fall_speed_at(score: i32, multiplier: u16) -> (speed: u64)
    requires
        score >= 0,
    ensures
        speed == fall_speed(score as int, multiplier as int),
{
    let base: u64 = INITIAL_CARD_SPEED + (score as u64) * CARD_SPEED_INCREASE_PER_SCORE;
    assert(base * multiplier <= 0x1_0000_0032 * 0x1_0000) by (nonlinear_arith)
        requires
            0 <= base <= 0x1_0000_0032,
            0 <= multiplier <= 0x1_0000,
    ;
    base * (multiplier as u64)
}

/// How many flips of a card are free, for a prompt with the given past.
pub fn free_misses_for(success_count: u32, miss_count: u32) -> (count: u32)
    ensures
        count == free_misses(success_count as int, miss_count as int),
{
    if success_count >= FREE_EXPOSURES || miss_count >= FREE_EXPOSURES {
        0
    } else if success_count + miss_count >= FREE_EXPOSURES {
        0
    } else {
        FREE_EXPOSURES - (success_count + miss_count)
    }
}

/// The y position at which a card reaches the floor of a field of `height`.
pub fn floor_at(height: u64) -> (floor: u64)
    ensures
        floor == floor_of(height as int),
{
    if height >= CARD_HEIGHT {
        height - CARD_HEIGHT
    } else {
        0
    }
}

/// `base` and `gain` added up, as far as an `i32` goes.
pub fn add_clamped(base: i32, gain: usize) -> (sum: i32)
    requires
        base >= 0,
    ensures
        sum == clamped_sum(base as int, gain as int),
{
    let room: i32 = i32::MAX - base;
    if gain >= room as usize {
        i32::MAX
    } else {
        base + gain as i32
    }
}

} // verus!
