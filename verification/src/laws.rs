//! What holds of every game.
//!
//! The lemmas here are stated over the state machine of the model; the
//! engine's operations are proved to follow that machine step by step.

use vstd::prelude::*;
use crate::card::{CardView, GameMode};
use crate::model::{
    after_draw, after_fall, after_spawn_phase, after_submit, after_tick, answer_is_right,
    ascending, available, counted, damage, drawn_entry, health_after, initial, moved, moved_all,
    on_display, opening, replenished, restarted, rewarded, solved, solves, source_at, spawn_due,
    spawned, total_copies, unsolved, weighted_queue, with_pause, GameView, Phase,
};
use crate::normalize::normalized;
use crate::random::{chacha8_u32, shuffled};
use crate::rules::{
    base_speed, clamped_sum, fall_speed, floor_of, lemma_spawn_interval_monotonic, min,
    unlocked_count, CARD_WIDTH, INITIAL_MAX_HEALTH,
};

verus! {

// ---------------------------------------------------------------------
// The draw queue
// ---------------------------------------------------------------------

/// The weighted queue of a list of entries holds, for each entry,
/// `max(1, 3 - successes)` copies: its length is the sum of these numbers,
/// and that is at least the number of entries.
pub proof fn lemma_weighted_queue_length(
    entries: Seq<(Seq<char>, Seq<char>)>,
    successes: Map<Seq<char>, u32>,
)
    ensures
        weighted_queue(entries, successes).len() == total_copies(entries, successes),
        total_copies(entries, successes) >= entries.len(),
    decreases entries.len(),
{
    if entries.len() > 0 {
        lemma_weighted_queue_length(entries.drop_last(), successes);
    }
}

/// Right after the draw queue is rebuilt its length is the sum, over the
/// unlocked entries, of `max(1, 3 - successes)`, and the number of unlocked
/// entries is on record.
pub proof fn lemma_replenished_queue_length(g: GameView)
    ensures
        replenished(g).card_deck.len() == total_copies(available(g), g.card_success_counts),
        replenished(g).unlocked_cards_count == available(g).len(),
{
    lemma_weighted_queue_length(available(g), g.card_success_counts);
}

// ---------------------------------------------------------------------
// Every operation keeps a game well formed
// ---------------------------------------------------------------------

/// Every member of the weighted queue is one of the entries.
pub proof fn lemma_weighted_queue_members(
    entries: Seq<(Seq<char>, Seq<char>)>,
    successes: Map<Seq<char>, u32>,
    i: int,
)
    requires
        0 <= i < weighted_queue(entries, successes).len(),
    ensures
        entries.contains(weighted_queue(entries, successes)[i]),
    decreases entries.len(),
{
    if entries.len() > 0 {
        let p = entries.drop_last();
        let before = weighted_queue(p, successes);
        if i < before.len() {
            lemma_weighted_queue_members(p, successes, i);
            let j = choose|j: int| 0 <= j < p.len() && p[j] == before[i];
            assert(entries[j] == before[i]);
        }
    }
}

/// Shuffling neither adds nor drops a place, and every item that comes out
/// is one that went in.
pub proof fn lemma_shuffled_members<T>(items: Seq<T>, seed: u64, word_pos: u128, i: int)
    requires
        0 <= i < shuffled(items, seed, word_pos).len(),
    ensures
        shuffled(items, seed, word_pos).len() == items.len(),
        items.contains(shuffled(items, seed, word_pos)[i]),
{
}

/// Rebuilding the draw queue makes a sound game well formed, whatever the
/// queue held before; the new queue holds an entry unless the vocabulary is
/// empty.
pub proof fn lemma_replenished_wf(g: GameView)
    requires
        g.sound(),
    ensures
        replenished(g).wf(),
        replenished(g).card_deck.len() == 0 <==> g.card_data.len() == 0,
{
    let after = replenished(g);
    let queue = weighted_queue(available(g), g.card_success_counts);
    assert forall|i: int| 0 <= i < after.card_deck.len() implies available(after).contains(
        #[trigger] after.card_deck[i],
    ) by {
        let k = choose|k: int| 0 <= k < queue.len() && queue[k] == after.card_deck[i];
        lemma_weighted_queue_members(available(g), g.card_success_counts, k);
    }
}

/// A draw keeps the game well formed. The entry drawn is unlocked at the
/// present score: no draw comes from a queue that was built before the last
/// unlock. Only an empty vocabulary gives no entry.
pub proof fn lemma_draw_is_current(g: GameView)
    requires
        g.wf(),
    ensures
        after_draw(g).wf(),
        after_draw(g).cards == g.cards,
        match drawn_entry(g) {
            Some(entry) => available(g).contains(entry),
            None => g.card_data.len() == 0,
        },
        drawn_entry(g) is None <==> g.card_data.len() == 0,
{
    if g.card_deck.len() == 0 {
        lemma_replenished_wf(g);
    }
}

/// A spawn keeps the game well formed.
pub proof fn lemma_spawned_wf(g: GameView)
    requires
        g.wf(),
    ensures
        spawned(g).wf(),
{
    lemma_draw_is_current(g);
}

/// The spawning part of a tick keeps the game well formed.
pub proof fn lemma_spawn_phase_wf(g: GameView, dt: u64)
    requires
        g.wf(),
    ensures
        after_spawn_phase(g, dt).wf(),
{
    if spawn_due(g, dt) {
        lemma_spawned_wf(g);
    }
}

/// The cards that stay on display are among the cards that were there.
pub proof fn lemma_on_display_members(cards: Seq<CardView>, i: int)
    requires
        0 <= i < on_display(cards).len(),
    ensures
        exists|j: int| 0 <= j < cards.len() && cards[j] == on_display(cards)[i],
    decreases cards.len(),
{
    if cards.len() > 0 {
        let p = cards.drop_last();
        if i < on_display(p).len() {
            lemma_on_display_members(p, i);
            let j = choose|j: int| 0 <= j < p.len() && p[j] == on_display(p)[i];
            assert(cards[j] == on_display(cards)[i]);
        }
    }
}

/// The falling part of a tick keeps the game well formed.
pub proof fn lemma_fall_wf(g: GameView, dt: u64)
    requires
        g.wf(),
    ensures
        after_fall(g, dt).wf(),
{
    let floor = floor_of(g.height as int) as u64;
    let all = moved_all(g.cards, g.card_speed, dt, floor);
    let after = after_fall(g, dt);
    assert forall|i: int| 0 <= i < after.cards.len() implies (#[trigger] after.cards[i]).wf() by {
        lemma_on_display_members(all, i);
        let j = choose|j: int| 0 <= j < all.len() && all[j] == on_display(all)[i];
        assert(g.cards[j].wf());
    }
}

/// A tick keeps the game well formed: in particular health stays between
/// zero and its maximum, and the game is over exactly at health zero.
pub proof fn lemma_tick_wf(g: GameView, dt: u64)
    requires
        g.wf(),
    ensures
        after_tick(g, dt).wf(),
{
    if g.running() {
        lemma_spawn_phase_wf(g, dt);
        lemma_fall_wf(after_spawn_phase(g, dt), dt);
    }
}

/// Rewarding a solving keeps a game that is not over well formed, and
/// leaves the cards in play as they are.
pub proof fn lemma_rewarded_wf(g: GameView, removed: Seq<CardView>)
    requires
        g.wf(),
        !g.game_over,
    ensures
        rewarded(g, removed).wf(),
        rewarded(g, removed).cards == g.cards,
{
    let score = clamped_sum(g.score as int, removed.len() as int) as i32;
    let credited = GameView {
        score,
        card_success_counts: counted(g.card_success_counts, removed),
        ..g
    };
    if unlocked_count(score as int, g.card_data.len() as int) > g.unlocked_cards_count {
        lemma_replenished_wf(credited);
    }
}

/// The cards that an answer leaves in play are among the cards that were
/// there, and the answer solves none of them.
pub proof fn lemma_unsolved_members(cards: Seq<CardView>, answer: Seq<char>, i: int)
    requires
        0 <= i < unsolved(cards, answer).len(),
    ensures
        exists|j: int|
            0 <= j < cards.len() && cards[j] == unsolved(cards, answer)[i] && !solves(
                cards[j],
                answer,
            ),
    decreases cards.len(),
{
    if cards.len() > 0 {
        let p = cards.drop_last();
        if i < unsolved(p, answer).len() {
            lemma_unsolved_members(p, answer, i);
            let j = choose|j: int|
                0 <= j < p.len() && p[j] == unsolved(p, answer)[i] && !solves(p[j], answer);
            assert(cards[j] == unsolved(cards, answer)[i]);
        }
    }
}

/// Taking the solved cards out of play keeps the game well formed.
pub proof fn lemma_unsolved_wf(g: GameView, answer: Seq<char>)
    requires
        g.wf(),
    ensures
        (GameView { cards: unsolved(g.cards, answer), ..g }).wf(),
{
    let left = GameView { cards: unsolved(g.cards, answer), ..g };
    assert forall|i: int| 0 <= i < left.cards.len() implies (#[trigger] left.cards[i]).wf() by {
        lemma_unsolved_members(g.cards, answer, i);
    }
}

/// Where an answer solves no card, every card stays in play.
pub proof fn lemma_none_solved(cards: Seq<CardView>, answer: Seq<char>)
    requires
        solved(cards, answer).len() == 0,
    ensures
        unsolved(cards, answer) == cards,
    decreases cards.len(),
{
    if cards.len() > 0 {
        lemma_none_solved(cards.drop_last(), answer);
    }
}

/// An answer keeps the game well formed.
pub proof fn lemma_submit_wf(g: GameView, text: Seq<char>)
    requires
        g.wf(),
    ensures
        after_submit(g, text).wf(),
{
    if answer_is_right(g, text) {
        let answer = normalized(text);
        lemma_unsolved_wf(g, answer);
        lemma_rewarded_wf(
            GameView { cards: unsolved(g.cards, answer), ..g },
            solved(g.cards, answer),
        );
    }
}

/// A new game is well formed, runs, and has health three of five.
pub proof fn lemma_initial_wf(
    width: u64,
    height: u64,
    seed: u64,
    mode: GameMode,
    speed_multiplier: u16,
    deck: Seq<(Seq<char>, Seq<char>)>,
)
    requires
        width > CARD_WIDTH,
    ensures
        initial(width, height, seed, mode, speed_multiplier, deck).wf(),
        initial(width, height, seed, mode, speed_multiplier, deck).phase() == Phase::Running,
        initial(width, height, seed, mode, speed_multiplier, deck).health == 3,
        initial(width, height, seed, mode, speed_multiplier, deck).max_health == 5,
        initial(width, height, seed, mode, speed_multiplier, deck).score == 0,
{
    let start = opening(
        width,
        height,
        source_at(seed, chacha8_u32(seed, 0).1),
        chacha8_u32(seed, 0).0,
        mode,
        INITIAL_MAX_HEALTH,
        speed_multiplier,
        deck,
        Map::empty(),
        Map::empty(),
    );
    lemma_draw_is_current(start);
}

/// A restart keeps the game well formed and brings it back to running, at
/// health three and score zero, whatever state it was in. Vocabulary,
/// statistics and seed stay.
pub proof fn lemma_restart_wf(g: GameView)
    requires
        g.wf(),
    ensures
        restarted(g).wf(),
        restarted(g).phase() == Phase::Running,
        restarted(g).health == 3,
        restarted(g).score == 0,
        restarted(g).card_data == g.card_data,
        restarted(g).card_success_counts == g.card_success_counts,
        restarted(g).card_miss_counts == g.card_miss_counts,
        restarted(g).rng.seed == g.rng.seed,
{
    let start = opening(
        g.width,
        g.height,
        source_at(g.rng.seed, 0),
        g.game_id,
        g.mode,
        g.max_health,
        g.speed_multiplier,
        g.card_data,
        g.card_success_counts,
        g.card_miss_counts,
    );
    lemma_draw_is_current(start);
}

// ---------------------------------------------------------------------
// Cards
// ---------------------------------------------------------------------

/// Time changes the place and the flip state of a card and nothing else: its
/// number, its sides, its x and its free misses stay as they were made at the
/// spawn. A card never rises, stops at the floor, and is flipped from the
/// moment it lands; a flipped card stays where it is.
pub proof fn lemma_moved_card(c: CardView, speed: u64, dt: u64, floor: u64)
    requires
        c.wf(),
    ensures
        ({
            let m = moved(c, speed, dt, floor);
            &&& m.wf()
            &&& m.id == c.id
            &&& m.raw_front == c.raw_front
            &&& m.raw_back == c.raw_back
            &&& m.front == c.front
            &&& m.back == c.back
            &&& m.x == c.x
            &&& m.free_misses == c.free_misses
            &&& c.flipped ==> m.flipped && m.y == c.y
            &&& !c.flipped && c.y <= floor ==> c.y <= m.y <= floor
            &&& m.flipped <==> c.flipped || c.y + speed * dt >= floor
        }),
{
}

// ---------------------------------------------------------------------
// Card numbers
// ---------------------------------------------------------------------

/// Cards that leave the display leave the others in their order.
pub proof fn lemma_on_display_ascending(cards: Seq<CardView>)
    requires
        ascending(cards),
    ensures
        ascending(on_display(cards)),
    decreases cards.len(),
{
    if cards.len() > 0 {
        let p = cards.drop_last();
        lemma_on_display_ascending(p);
        let kept = on_display(cards);
        assert forall|i: int, j: int| 0 <= i < j < kept.len() implies (#[trigger] kept[i]).id < (
        #[trigger] kept[j]).id by {
            if j == on_display(p).len() {
                // The last card stays; the one at `i` stood before it.
                lemma_on_display_members(p, i);
                let k = choose|k: int| 0 <= k < p.len() && p[k] == on_display(p)[i];
                assert(cards[k].id < cards.last().id);
            }
        }
    }
}

/// Cards that are solved leave the others in their order.
pub proof fn lemma_unsolved_ascending(cards: Seq<CardView>, answer: Seq<char>)
    requires
        ascending(cards),
    ensures
        ascending(unsolved(cards, answer)),
    decreases cards.len(),
{
    if cards.len() > 0 {
        let p = cards.drop_last();
        lemma_unsolved_ascending(p, answer);
        let kept = unsolved(cards, answer);
        assert forall|i: int, j: int| 0 <= i < j < kept.len() implies (#[trigger] kept[i]).id < (
        #[trigger] kept[j]).id by {
            if j == unsolved(p, answer).len() {
                // The last card stays; the one at `i` stood before it.
                lemma_unsolved_members(p, answer, i);
                let k = choose|k: int|
                    0 <= k < p.len() && p[k] == unsolved(p, answer)[i] && !solves(p[k], answer);
                assert(cards[k].id < cards.last().id);
            }
        }
    }
}

/// A spawn gives the new card the next number, larger than that of every
/// card in play, as long as the numbers have not run out.
pub proof fn lemma_spawned_ids(g: GameView)
    requires
        g.ids_ascend(),
        g.next_card_id < u32::MAX,
    ensures
        spawned(g).ids_ascend(),
        spawned(g).next_card_id >= g.next_card_id,
{
}

/// A tick keeps the cards in play numbered in ascending order, as long as
/// the numbers have not run out.
pub proof fn lemma_tick_ids(g: GameView, dt: u64)
    requires
        g.ids_ascend(),
        g.next_card_id < u32::MAX,
    ensures
        after_tick(g, dt).ids_ascend(),
        after_tick(g, dt).next_card_id >= g.next_card_id,
{
    if g.running() {
        let s = after_spawn_phase(g, dt);
        let floor = floor_of(s.height as int) as u64;
        let all = moved_all(s.cards, s.card_speed, dt, floor);
        lemma_on_display_ascending(all);
        let after = after_tick(g, dt);
        assert forall|i: int| 0 <= i < after.cards.len() implies (#[trigger] after.cards[i]).id
            < after.next_card_id by {
            lemma_on_display_members(all, i);
            let k = choose|k: int| 0 <= k < all.len() && all[k] == on_display(all)[i];
            assert(s.cards[k].id < s.next_card_id);
        }
    }
}

/// An answer keeps the cards in play numbered in ascending order.
pub proof fn lemma_submit_ids(g: GameView, text: Seq<char>)
    requires
        g.ids_ascend(),
    ensures
        after_submit(g, text).ids_ascend(),
        after_submit(g, text).next_card_id == g.next_card_id,
{
    if answer_is_right(g, text) {
        let answer = normalized(text);
        lemma_unsolved_ascending(g.cards, answer);
        let after = after_submit(g, text);
        assert forall|i: int| 0 <= i < after.cards.len() implies (#[trigger] after.cards[i]).id
            < after.next_card_id by {
            lemma_unsolved_members(g.cards, answer, i);
        }
    }
}

/// A new game and a restarted game number their first card zero.
pub proof fn lemma_first_card_id(
    width: u64,
    height: u64,
    seed: u64,
    mode: GameMode,
    speed_multiplier: u16,
    deck: Seq<(Seq<char>, Seq<char>)>,
    g: GameView,
)
    ensures
        initial(width, height, seed, mode, speed_multiplier, deck).ids_ascend(),
        restarted(g).ids_ascend(),
{
}

// ---------------------------------------------------------------------
// Difficulty
// ---------------------------------------------------------------------

/// A new game and a restarted game have the spawn interval and the fall
/// speed of score zero; ticks and answers keep both in step with the score.
/// So in every game that the library makes the spawn interval never grows
/// and the fall speed never drops while the score grows.
pub proof fn lemma_paced(
    width: u64,
    height: u64,
    seed: u64,
    mode: GameMode,
    speed_multiplier: u16,
    deck: Seq<(Seq<char>, Seq<char>)>,
    g: GameView,
    dt: u64,
    text: Seq<char>,
)
    requires
        g.wf(),
    ensures
        initial(width, height, seed, mode, speed_multiplier, deck).paced(),
        restarted(g).paced(),
        g.paced() ==> after_tick(g, dt).paced(),
        g.paced() ==> after_submit(g, text).paced(),
        after_submit(g, text).score >= g.score,
        after_tick(g, dt).score == g.score,
{
    lemma_fall_speed_bound(0, speed_multiplier);
    lemma_fall_speed_bound(0, g.speed_multiplier);
    if answer_is_right(g, text) {
        let after = after_submit(g, text);
        lemma_fall_speed_bound(after.score, g.speed_multiplier);
        lemma_spawn_interval_monotonic(0, after.score as int);
    }
}

/// The fall speed fits into a `u64`.
pub proof fn lemma_fall_speed_bound(score: i32, multiplier: u16)
    requires
        0 <= score,
    ensures
        0 <= fall_speed(score as int, multiplier as int) <= u64::MAX,
{
    assert(base_speed(score as int) * multiplier <= 0x1_0000_0032 * 0x1_0000) by (nonlinear_arith)
        requires
            0 <= base_speed(score as int) <= 0x1_0000_0032,
            0 <= multiplier <= 0x1_0000,
    ;
    assert(base_speed(score as int) * multiplier >= 0) by (nonlinear_arith)
        requires
            0 <= base_speed(score as int),
            0 <= multiplier,
    ;
}

// ---------------------------------------------------------------------
// Health and the end of the game
// ---------------------------------------------------------------------

/// Health never exceeds its maximum nor drops below zero, and the game is
/// over exactly when health is zero.
pub proof fn lemma_health_bounds(g: GameView)
    requires
        g.wf(),
    ensures
        0 <= g.health <= g.max_health,
        g.phase() == Phase::GameOver <==> g.health == 0,
{
}

/// A tick ends the game exactly when its damage uses up the health; the
/// damage of all cards that land in the tick is taken off in one step.
pub proof fn lemma_tick_ends_game(g: GameView, dt: u64)
    requires
        g.wf(),
        g.running(),
    ensures
        ({
            let s = after_spawn_phase(g, dt);
            let hurt = damage(
                s.cards,
                s.card_speed,
                dt,
                floor_of(s.height as int) as u64,
            );
            &&& after_tick(g, dt).health == health_after(g.health, hurt)
            &&& after_tick(g, dt).game_over <==> hurt >= g.health
        }),
{
}

/// Once the game is over, ticks, answers, pausing and resuming change
/// nothing, and no answer is right; only a restart leads on.
pub proof fn lemma_game_over_is_final(g: GameView, dt: u64, text: Seq<char>)
    requires
        g.game_over,
    ensures
        after_tick(g, dt) == g,
        after_submit(g, text) == g,
        !answer_is_right(g, text),
        with_pause(g, true) == g,
        with_pause(g, false) == g,
{
}

/// While the game is paused, ticks and answers change nothing, and no
/// answer is right.
pub proof fn lemma_paused_is_idle(g: GameView, dt: u64, text: Seq<char>)
    requires
        g.paused,
    ensures
        after_tick(g, dt) == g,
        after_submit(g, text) == g,
        !answer_is_right(g, text),
{
}

/// The engine moves between its three states as follows: pausing leads
/// from running to paused, resuming from paused to running; a tick leaves a
/// running game running or ends it; an answer never changes the state; a
/// restart leads from any state to running.
pub proof fn lemma_phase_transitions(g: GameView, dt: u64, text: Seq<char>)
    requires
        g.wf(),
    ensures
        !g.game_over ==> with_pause(g, true).phase() == Phase::Paused,
        !g.game_over ==> with_pause(g, false).phase() == Phase::Running,
        g.phase() == Phase::Running ==> after_tick(g, dt).phase() != Phase::Paused,
        g.phase() != Phase::Running ==> after_tick(g, dt).phase() == g.phase(),
        after_submit(g, text).phase() == g.phase(),
        restarted(g).phase() == Phase::Running,
{
}

// ---------------------------------------------------------------------
// Answers
// ---------------------------------------------------------------------

/// The cards that an answer solves and those that it leaves are the two
/// parts of the cards in play.
pub proof fn lemma_solved_unsolved(cards: Seq<CardView>, answer: Seq<char>)
    ensures
        solved(cards, answer) == cards.filter(|c: CardView| solves(c, answer)),
        unsolved(cards, answer) == cards.filter(|c: CardView| !solves(c, answer)),
        solved(cards, answer).len() + unsolved(cards, answer).len() == cards.len(),
    decreases cards.len(),
{
    reveal(Seq::filter);
    if cards.len() > 0 {
        lemma_solved_unsolved(cards.drop_last(), answer);
    }
}

/// In a running game an answer removes every unflipped card whose accepted
/// answers, in canonical form, hold the canonical form of the answer, and no
/// other card; the score grows by exactly the number of cards removed (and
/// stops at the largest `i32`).
pub proof fn lemma_submit_removes_solved(g: GameView, text: Seq<char>)
    requires
        g.wf(),
        g.running(),
    ensures
        ({
            let answer = normalized(text);
            let after = after_submit(g, text);
            let removed = g.cards.len() - after.cards.len();
            &&& after.cards == g.cards.filter(|c: CardView| !solves(c, answer))
            &&& removed == g.cards.filter(|c: CardView| solves(c, answer)).len()
            &&& answer_is_right(g, text) <==> removed > 0
            &&& after.score == clamped_sum(g.score as int, removed)
            &&& g.score + removed <= i32::MAX ==> after.score == g.score + removed
        }),
{
    let answer = normalized(text);
    lemma_solved_unsolved(g.cards, answer);
    if !answer_is_right(g, text) {
        lemma_none_solved(g.cards, answer);
    }
}

/// A right answer earns one heart for every full five points scored since
/// the last heart, up to the maximal health.
pub proof fn lemma_submit_hearts(g: GameView, text: Seq<char>)
    requires
        g.wf(),
        answer_is_right(g, text),
    ensures
        ({
            let removed = solved(g.cards, normalized(text)).len();
            let since = clamped_sum(g.score_since_last_heart as int, removed as int);
            let after = after_submit(g, text);
            &&& after.health == min(g.health + since / 5, g.max_health as int)
            &&& since / 5 > 0 ==> after.score_since_last_heart == since % 5
            &&& since / 5 == 0 ==> after.score_since_last_heart == since
        }),
{
}

// ---------------------------------------------------------------------
// Determinism
// ---------------------------------------------------------------------

/// A call that moves a game on.
pub enum Step {
    /// `tick` with the given time.
    Tick(u64),
    /// `submit_answer` with the given text.
    Submit(Seq<char>),
}

/// The game after one call.
pub open spec fn step(g: GameView, call: Step) -> GameView {
    match call {
        Step::Tick(dt) => after_tick(g, dt),
        Step::Submit(text) => after_submit(g, text),
    }
}

/// The game after a sequence of calls.
pub open spec fn replay(g: GameView, calls: Seq<Step>) -> GameView
    decreases calls.len(),
{
    if calls.len() == 0 {
        g
    } else {
        step(replay(g, calls.drop_last()), calls.last())
    }
}

/// Two games made from the same field, seed, mode, multiplier and deck are
/// the same after the same sequence of calls: the same cards in play with
/// the same numbers, places and sides, and the same in every other respect.
pub proof fn lemma_replay_deterministic(
    first: GameView,
    second: GameView,
    width: u64,
    height: u64,
    seed: u64,
    mode: GameMode,
    speed_multiplier: u16,
    deck: Seq<(Seq<char>, Seq<char>)>,
    calls: Seq<Step>,
)
    requires
        first == initial(width, height, seed, mode, speed_multiplier, deck),
        second == initial(width, height, seed, mode, speed_multiplier, deck),
    ensures
        replay(first, calls) == replay(second, calls),
        replay(first, calls).cards == replay(second, calls).cards,
{
}

/// Every game reached from a well-formed one by ticks and answers is well
/// formed.
pub proof fn lemma_replay_wf(g: GameView, calls: Seq<Step>)
    requires
        g.wf(),
    ensures
        replay(g, calls).wf(),
    decreases calls.len(),
{
    if calls.len() > 0 {
        lemma_replay_wf(g, calls.drop_last());
        let before = replay(g, calls.drop_last());
        match calls.last() {
            Step::Tick(dt) => lemma_tick_wf(before, dt),
            Step::Submit(text) => lemma_submit_wf(before, text),
        }
    }
}

} // verus!
