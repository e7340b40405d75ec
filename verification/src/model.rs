//! The game as a mathematical state machine.
//!
//! A `GameView` is the state of a game as plain values; the functions here
//! say what each operation of the engine makes of it. The engine's contracts
//! are written over them.

use vstd::prelude::*;
use crate::card::{CardForDisplayView, CardView, GameMode};
use crate::normalize::normalized;
use crate::random::{
    chacha8_below, chacha8_bool, chacha8_shuffle, chacha8_u32, shuffled, RandomSource,
};
use crate::rules::{
    clamped_sum, copies, fall_speed, floor_of, free_misses, max, max_cards, min, spawn_interval,
    unlocked_count, CARD_WIDTH, DEFAULT_HEIGHT, DEFAULT_WIDTH, FLIP_DISPLAY_TIME, INITIAL_HEALTH,
    INITIAL_MAX_HEALTH, INITIAL_SPAWN_INTERVAL, SCORE_PER_HEART,
};
use crate::stats::{bumped, count_in};
use crate::text::{join, split, trimmed};

verus! {

/// The state of a game.
#[verifier::ext_equal]
pub struct GameView {
    /// The cards in play, oldest first.
    pub cards: Seq<CardView>,
    /// Every card that reached the floor, in the order in which they did.
    pub missed_cards: Seq<CardView>,
    /// The draw queue; the next entry to be drawn is the last.
    pub card_deck: Seq<(Seq<char>, Seq<char>)>,
    /// How many entries were unlocked when the draw queue was last built.
    pub unlocked_cards_count: nat,
    /// Misses so far, by prompt.
    pub card_miss_counts: Map<Seq<char>, u32>,
    /// Successes so far, by prompt.
    pub card_success_counts: Map<Seq<char>, u32>,
    pub width: u64,
    pub height: u64,
    pub score: i32,
    /// Time since the last spawn.
    pub time_since_last_card: u64,
    pub card_spawn_interval: u64,
    pub card_speed: u64,
    pub health: i32,
    pub max_health: i32,
    /// Points scored since the last heart was earned.
    pub score_since_last_heart: i32,
    pub game_over: bool,
    pub paused: bool,
    pub rng: RandomSource,
    pub game_id: u32,
    pub mode: GameMode,
    pub next_card_id: u32,
    /// Factor on the fall speed, in thousandths.
    pub speed_multiplier: u16,
    /// The whole vocabulary, in the order in which it unlocks.
    pub card_data: Seq<(Seq<char>, Seq<char>)>,
}

/// The three states of the engine.
pub enum Phase {
    Running,
    Paused,
    GameOver,
}

impl GameView {
    /// What holds of every game whatever its draw queue: health lies between
    /// zero and its maximum, the game is over exactly at health zero, the
    /// score is not negative, the field is wider than a card, and every card
    /// in play carries a flip timer exactly when it is flipped.
    pub open spec fn sound(self) -> bool {
        &&& 0 <= self.health <= self.max_health
        &&& INITIAL_HEALTH <= self.max_health
        &&& self.game_over <==> self.health == 0
        &&& 0 <= self.score
        &&& 0 <= self.score_since_last_heart
        &&& self.width > CARD_WIDTH
        &&& forall|i: int| 0 <= i < self.cards.len() ==> (#[trigger] self.cards[i]).wf()
    }

    /// What holds of every game: it is sound and its draw queue is current.
    pub open spec fn wf(self) -> bool {
        &&& self.sound()
        &&& self.queue_is_current()
    }

    /// Whether the draw queue is current: where it holds anything, it was
    /// built with as many entries unlocked as the score unlocks now, and
    /// holds unlocked entries only.
    pub open spec fn queue_is_current(self) -> bool {
        self.card_deck.len() > 0 ==> {
            &&& self.unlocked_cards_count == unlocked_count(
                self.score as int,
                self.card_data.len() as int,
            )
            &&& forall|i: int|
                0 <= i < self.card_deck.len() ==> available(self).contains(
                    #[trigger] self.card_deck[i],
                )
        }
    }

    /// Whether the cards in play are numbered in ascending order, oldest
    /// first, each below the number that the next card will get. Cards so
    /// numbered have distinct numbers.
    pub open spec fn ids_ascend(self) -> bool {
        &&& ascending(self.cards)
        &&& forall|i: int|
            0 <= i < self.cards.len() ==> (#[trigger] self.cards[i]).id < self.next_card_id
    }

    /// Whether spawn interval and fall speed are those of the score.
    pub open spec fn paced(self) -> bool {
        &&& self.card_spawn_interval == spawn_interval(self.score as int)
        &&& self.card_speed == fall_speed(self.score as int, self.speed_multiplier as int)
    }

    /// The state of the engine.
    pub open spec fn phase(self) -> Phase {
        if self.game_over {
            Phase::GameOver
        } else if self.paused {
            Phase::Paused
        } else {
            Phase::Running
        }
    }

    /// Whether `tick` and `submit_answer` do anything.
    pub open spec fn running(self) -> bool {
        !self.game_over && !self.paused
    }
}

/// Whether each card of `cards` has a larger number than the cards before
/// it.
pub open spec fn ascending(cards: Seq<CardView>) -> bool {
    forall|i: int, j: int|
        0 <= i < j < cards.len() ==> (#[trigger] cards[i]).id < (#[trigger] cards[j]).id
}

/// The sum of two times, as far as a `u64` goes.
pub open spec fn time_sum(a: u64, b: u64) -> u64 {
    min(a + b, u64::MAX as int) as u64
}

/// The random source of `seed` at `word_pos`.
pub open spec fn source_at(seed: u64, word_pos: u128) -> RandomSource {
    RandomSource { seed, word_pos }
}

// ---------------------------------------------------------------------
// The deck
// ---------------------------------------------------------------------

/// The unlocked entries of the vocabulary.
pub open spec fn available(g: GameView) -> Seq<(Seq<char>, Seq<char>)> {
    g.card_data.take(unlocked_count(g.score as int, g.card_data.len() as int))
}

/// `entries` with each entry repeated: `max(1, 3 - successes)` copies of
/// it, one after another.
pub open spec fn weighted_queue(
    entries: Seq<(Seq<char>, Seq<char>)>,
    successes: Map<Seq<char>, u32>,
) -> Seq<(Seq<char>, Seq<char>)>
    decreases entries.len(),
{
    if entries.len() == 0 {
        Seq::empty()
    } else {
        let entry = entries.last();
        weighted_queue(entries.drop_last(), successes) + Seq::new(
            copies(count_in(successes, entry.0) as int) as nat,
            |i: int| entry,
        )
    }
}

/// The sum over `entries` of `max(1, 3 - successes)`.
pub open spec fn total_copies(
    entries: Seq<(Seq<char>, Seq<char>)>,
    successes: Map<Seq<char>, u32>,
) -> int
    decreases entries.len(),
{
    if entries.len() == 0 {
        0
    } else {
        total_copies(entries.drop_last(), successes) + copies(
            count_in(successes, entries.last().0) as int,
        )
    }
}

/// The game with a new draw queue: the weighted copies of the unlocked
/// entries, shuffled.
pub open spec fn replenished(g: GameView) -> GameView {
    let queue = weighted_queue(available(g), g.card_success_counts);
    GameView {
        card_deck: shuffled(queue, g.rng.seed, g.rng.word_pos),
        unlocked_cards_count: available(g).len(),
        rng: source_at(g.rng.seed, chacha8_shuffle(g.rng.seed, g.rng.word_pos, queue.len()).1),
        ..g
    }
}

/// The game with a draw queue to draw from: a new one where the old one is
/// used up.
pub open spec fn stocked(g: GameView) -> GameView {
    if g.card_deck.len() == 0 {
        replenished(g)
    } else {
        g
    }
}

/// The entry that the next draw gives; none only for an empty vocabulary.
pub open spec fn drawn_entry(g: GameView) -> Option<(Seq<char>, Seq<char>)> {
    if stocked(g).card_deck.len() == 0 {
        None
    } else {
        Some(stocked(g).card_deck.last())
    }
}

/// The game after a draw.
pub open spec fn after_draw(g: GameView) -> GameView {
    let s = stocked(g);
    if s.card_deck.len() == 0 {
        s
    } else {
        GameView { card_deck: s.card_deck.drop_last(), ..s }
    }
}

// ---------------------------------------------------------------------
// Spawning
// ---------------------------------------------------------------------

/// Whether the next card shows its answer side, and the random source after
/// the decision: only the mode `Both` draws.
pub open spec fn orientation(mode: GameMode, rng: RandomSource) -> (bool, RandomSource) {
    match mode {
        GameMode::Normal => (false, rng),
        GameMode::Reverse => (true, rng),
        GameMode::Both => (
            chacha8_bool(rng.seed, rng.word_pos).0,
            source_at(rng.seed, chacha8_bool(rng.seed, rng.word_pos).1),
        ),
    }
}

/// The number after `id`; after the last one the numbers start again.
pub open spec fn next_id(id: u32) -> u32 {
    if id == u32::MAX {
        0
    } else {
        (id + 1) as u32
    }
}

/// A card fresh from the deck, at the top of the field.
pub open spec fn new_card(
    entry: (Seq<char>, Seq<char>),
    reversed: bool,
    id: u32,
    x: u64,
    free: u32,
) -> CardView {
    CardView {
        id,
        raw_front: entry.0,
        raw_back: entry.1,
        front: if reversed {
            entry.1
        } else {
            entry.0
        },
        back: if reversed {
            entry.0
        } else {
            entry.1
        },
        x,
        y: 0,
        flipped: false,
        time_since_flipped: None,
        free_misses: free,
    }
}

/// The game after a spawn: an entry is drawn, oriented by the mode, given
/// its count of free misses from the statistics of its prompt, and placed at
/// a random x.
pub open spec fn spawned(g: GameView) -> GameView {
    let d = after_draw(g);
    match drawn_entry(g) {
        None => d,
        Some(entry) => {
            let turn = orientation(d.mode, d.rng);
            let place = chacha8_below(turn.1.seed, turn.1.word_pos, (d.width - CARD_WIDTH) as u64);
            let free = free_misses(
                count_in(d.card_success_counts, entry.0) as int,
                count_in(d.card_miss_counts, entry.0) as int,
            ) as u32;
            GameView {
                cards: d.cards.push(new_card(entry, turn.0, d.next_card_id, place.0, free)),
                next_card_id: next_id(d.next_card_id),
                rng: source_at(turn.1.seed, place.1),
                ..d
            }
        },
    }
}

// ---------------------------------------------------------------------
// A tick
// ---------------------------------------------------------------------

/// Whether a tick of `dt` spawns a card: the spawn interval has passed and
/// fewer cards are in play than the score allows.
pub open spec fn spawn_due(g: GameView, dt: u64) -> bool {
    &&& time_sum(g.time_since_last_card, dt) > g.card_spawn_interval
    &&& g.cards.len() < max_cards(g.score as int)
}

/// The game after the spawning part of a tick.
pub open spec fn after_spawn_phase(g: GameView, dt: u64) -> GameView {
    if spawn_due(g, dt) {
        GameView { time_since_last_card: 0, ..spawned(g) }
    } else {
        GameView { time_since_last_card: time_sum(g.time_since_last_card, dt), ..g }
    }
}

/// Whether the unflipped card `c` reaches the floor within `dt`.
pub open spec fn lands(c: CardView, speed: u64, dt: u64, floor: u64) -> bool {
    !c.flipped && c.y + speed * dt >= floor
}

/// The card `c` after `dt`: a flipped card has its timer advanced, a card
/// that lands is stopped at the floor and flipped, any other card falls by
/// `speed * dt`.
pub open spec fn moved(c: CardView, speed: u64, dt: u64, floor: u64) -> CardView {
    if c.flipped {
        CardView {
            time_since_flipped: match c.time_since_flipped {
                Some(t) => Some(time_sum(t, dt)),
                None => None,
            },
            ..c
        }
    } else if lands(c, speed, dt, floor) {
        CardView { y: floor, flipped: true, time_since_flipped: Some(0), ..c }
    } else {
        CardView { y: (c.y + speed * dt) as u64, ..c }
    }
}

/// Every card of `cards` after `dt`.
pub open spec fn moved_all(cards: Seq<CardView>, speed: u64, dt: u64, floor: u64) -> Seq<CardView> {
    Seq::new(cards.len(), |i: int| moved(cards[i], speed, dt, floor))
}

/// The cards of `cards` that land within `dt`, as they lie on the floor.
pub open spec fn landed(cards: Seq<CardView>, speed: u64, dt: u64, floor: u64) -> Seq<CardView>
    decreases cards.len(),
{
    if cards.len() == 0 {
        cards
    } else {
        let before = landed(cards.drop_last(), speed, dt, floor);
        if lands(cards.last(), speed, dt, floor) {
            before.push(moved(cards.last(), speed, dt, floor))
        } else {
            before
        }
    }
}

/// How many of `cards` land within `dt` with no free miss left.
pub open spec fn damage(cards: Seq<CardView>, speed: u64, dt: u64, floor: u64) -> nat
    decreases cards.len(),
{
    if cards.len() == 0 {
        0
    } else {
        let before = damage(cards.drop_last(), speed, dt, floor);
        if lands(cards.last(), speed, dt, floor) && cards.last().free_misses == 0 {
            before + 1
        } else {
            before
        }
    }
}

/// `counts` with one more for the prompt of each of `cards`.
pub open spec fn counted(counts: Map<Seq<char>, u32>, cards: Seq<CardView>) -> Map<Seq<char>, u32>
    decreases cards.len(),
{
    if cards.len() == 0 {
        counts
    } else {
        let before = counted(counts, cards.drop_last());
        let key = cards.last().raw_front;
        before.insert(key, bumped(count_in(before, key)))
    }
}

/// Whether a flipped card has been on display for its full time.
pub open spec fn expired(c: CardView) -> bool {
    c.time_since_flipped matches Some(t) && t >= FLIP_DISPLAY_TIME
}

/// The cards of `cards` that stay in play.
pub open spec fn on_display(cards: Seq<CardView>) -> Seq<CardView>
    decreases cards.len(),
{
    if cards.len() == 0 {
        cards
    } else if expired(cards.last()) {
        on_display(cards.drop_last())
    } else {
        on_display(cards.drop_last()).push(cards.last())
    }
}

/// Health after `hurt` points of damage.
pub open spec fn health_after(health: i32, hurt: nat) -> i32 {
    max(0, health - hurt) as i32
}

/// The game after the falling part of a tick: every card moves, those that
/// land are logged and counted as misses, the damage of the tick is taken off
/// the health in one step, and flipped cards whose time is up leave.
pub open spec fn after_fall(g: GameView, dt: u64) -> GameView {
    let floor = floor_of(g.height as int) as u64;
    let down = landed(g.cards, g.card_speed, dt, floor);
    let hurt = damage(g.cards, g.card_speed, dt, floor);
    let struck = hurt > 0 && !g.game_over;
    GameView {
        cards: on_display(moved_all(g.cards, g.card_speed, dt, floor)),
        missed_cards: g.missed_cards + down,
        card_miss_counts: counted(g.card_miss_counts, down),
        health: if struck {
            health_after(g.health, hurt)
        } else {
            g.health
        },
        game_over: if struck {
            health_after(g.health, hurt) == 0
        } else {
            g.game_over
        },
        ..g
    }
}

/// The game after a tick of `dt`: nothing happens unless it is running;
/// else a card is spawned where one is due, and then the cards fall.
pub open spec fn after_tick(g: GameView, dt: u64) -> GameView {
    if g.running() {
        after_fall(after_spawn_phase(g, dt), dt)
    } else {
        g
    }
}

// ---------------------------------------------------------------------
// An answer
// ---------------------------------------------------------------------

/// Whether `answer`, a canonical form, is among the canonical forms of the
/// `/`-separated alternates of `back`.
pub open spec fn accepts(back: Seq<char>, answer: Seq<char>) -> bool {
    exists|i: int|
        0 <= i < split(back, '/').len() && normalized(trimmed(#[trigger] split(back, '/')[i]))
            == answer
}

/// Whether the answer solves the card: the card is not flipped and accepts
/// the answer.
pub open spec fn solves(c: CardView, answer: Seq<char>) -> bool {
    !c.flipped && accepts(c.back, answer)
}

/// The cards that the answer solves, in order.
pub open spec fn solved(cards: Seq<CardView>, answer: Seq<char>) -> Seq<CardView>
    decreases cards.len(),
{
    if cards.len() == 0 {
        cards
    } else if solves(cards.last(), answer) {
        solved(cards.drop_last(), answer).push(cards.last())
    } else {
        solved(cards.drop_last(), answer)
    }
}

/// The cards that the answer leaves in play, in order.
pub open spec fn unsolved(cards: Seq<CardView>, answer: Seq<char>) -> Seq<CardView>
    decreases cards.len(),
{
    if cards.len() == 0 {
        cards
    } else if solves(cards.last(), answer) {
        unsolved(cards.drop_last(), answer)
    } else {
        unsolved(cards.drop_last(), answer).push(cards.last())
    }
}

/// The hearts that `since` points since the last heart earn.
pub open spec fn hearts_earned(since: int) -> int {
    since / (SCORE_PER_HEART as int)
}

/// The game after `removed` cards were solved and taken out of play: the
/// score grows by their number, each prompt is credited a success, the draw
/// queue is rebuilt where more entries are unlocked than when it was last
/// built, spawn interval and fall speed follow the score, and every full
/// `SCORE_PER_HEART` points since the last heart earn one, up to the maximum.
pub open spec fn rewarded(g: GameView, removed: Seq<CardView>) -> GameView {
    let score = clamped_sum(g.score as int, removed.len() as int) as i32;
    let since = clamped_sum(g.score_since_last_heart as int, removed.len() as int);
    let hearts = hearts_earned(since);
    let credited = GameView {
        score,
        card_success_counts: counted(g.card_success_counts, removed),
        ..g
    };
    let restocked = if unlocked_count(score as int, g.card_data.len() as int)
        > g.unlocked_cards_count {
        replenished(credited)
    } else {
        credited
    };
    GameView {
        card_spawn_interval: spawn_interval(score as int) as u64,
        card_speed: fall_speed(score as int, g.speed_multiplier as int) as u64,
        health: if hearts > 0 {
            min(g.health + hearts, g.max_health as int) as i32
        } else {
            g.health
        },
        score_since_last_heart: if hearts > 0 {
            (since % (SCORE_PER_HEART as int)) as i32
        } else {
            since as i32
        },
        ..restocked
    }
}

/// Whether the answer `text` is right: the game is running and the answer
/// solves a card.
pub open spec fn answer_is_right(g: GameView, text: Seq<char>) -> bool {
    g.running() && solved(g.cards, normalized(text)).len() > 0
}

/// The game after the answer `text`: unchanged unless the answer is right;
/// else every card that it solves leaves and is rewarded.
pub open spec fn after_submit(g: GameView, text: Seq<char>) -> GameView {
    if answer_is_right(g, text) {
        rewarded(
            GameView { cards: unsolved(g.cards, normalized(text)), ..g },
            solved(g.cards, normalized(text)),
        )
    } else {
        g
    }
}

// ---------------------------------------------------------------------
// Pause, restart and construction
// ---------------------------------------------------------------------

/// The game with the pause flag set to `paused`; a game that is over stays
/// as it is.
pub open spec fn with_pause(g: GameView, paused: bool) -> GameView {
    if g.game_over {
        g
    } else {
        GameView { paused, ..g }
    }
}

/// A game before its first spawn.
pub open spec fn opening(
    width: u64,
    height: u64,
    rng: RandomSource,
    game_id: u32,
    mode: GameMode,
    max_health: i32,
    speed_multiplier: u16,
    card_data: Seq<(Seq<char>, Seq<char>)>,
    successes: Map<Seq<char>, u32>,
    misses: Map<Seq<char>, u32>,
) -> GameView {
    GameView {
        cards: Seq::empty(),
        missed_cards: Seq::empty(),
        card_deck: Seq::empty(),
        unlocked_cards_count: 0,
        card_miss_counts: misses,
        card_success_counts: successes,
        width,
        height,
        score: 0,
        time_since_last_card: 0,
        card_spawn_interval: INITIAL_SPAWN_INTERVAL,
        card_speed: fall_speed(0, speed_multiplier as int) as u64,
        health: INITIAL_HEALTH,
        max_health,
        score_since_last_heart: 0,
        game_over: false,
        paused: false,
        rng,
        game_id,
        mode,
        next_card_id: 0,
        speed_multiplier,
        card_data,
    }
}

/// The game that `Game::default` gives: an empty vocabulary on a field of
/// 600 by 800 pixels.
pub open spec fn default_game() -> GameView {
    opening(
        DEFAULT_WIDTH,
        DEFAULT_HEIGHT,
        source_at(0, 0),
        0,
        GameMode::Normal,
        INITIAL_MAX_HEALTH,
        1000,
        Seq::empty(),
        Map::empty(),
        Map::empty(),
    )
}

/// A new game: the first draw from the stream of the seed names the game,
/// and the first card is in play.
pub open spec fn initial(
    width: u64,
    height: u64,
    seed: u64,
    mode: GameMode,
    speed_multiplier: u16,
    deck: Seq<(Seq<char>, Seq<char>)>,
) -> GameView {
    spawned(
        opening(
            width,
            height,
            source_at(seed, chacha8_u32(seed, 0).1),
            chacha8_u32(seed, 0).0,
            mode,
            INITIAL_MAX_HEALTH,
            speed_multiplier,
            deck,
            Map::empty(),
            Map::empty(),
        ),
    )
}

/// The game after a restart: field, seed, name, mode, maximal health,
/// multiplier, vocabulary and statistics stay; everything else starts over,
/// the random stream from its beginning, and the first card is in play.
pub open spec fn restarted(g: GameView) -> GameView {
    spawned(
        opening(
            g.width,
            g.height,
            source_at(g.rng.seed, 0),
            g.game_id,
            g.mode,
            g.max_health,
            g.speed_multiplier,
            g.card_data,
            g.card_success_counts,
            g.card_miss_counts,
        ),
    )
}

// ---------------------------------------------------------------------
// What is shown
// ---------------------------------------------------------------------

/// The line of the deck overview for `entry`, shown reversed or not.
pub open spec fn overview_line(g: GameView, index: int, reversed: bool) -> CardForDisplayView {
    let entry = g.card_data[index];
    CardForDisplayView {
        raw_front: entry.0,
        raw_back: entry.1,
        front: if reversed {
            entry.1
        } else {
            entry.0
        },
        back: if reversed {
            entry.0
        } else {
            entry.1
        },
        success_count: count_in(g.card_success_counts, entry.0),
        miss_count: count_in(g.card_miss_counts, entry.0),
        is_unlocked: index < unlocked_count(g.score as int, g.card_data.len() as int),
    }
}

/// The deck overview: every entry of the vocabulary in order, with its
/// statistics and whether it is unlocked at the present score. In the mode
/// `Both` each entry is listed twice, first as it is and then reversed; in
/// the mode `Reverse` each is listed reversed.
pub open spec fn overview(g: GameView) -> Seq<CardForDisplayView> {
    match g.mode {
        GameMode::Both => Seq::new(
            2 * g.card_data.len(),
            |k: int| overview_line(g, k / 2, k % 2 == 1),
        ),
        GameMode::Normal => Seq::new(g.card_data.len(), |k: int| overview_line(g, k, false)),
        GameMode::Reverse => Seq::new(g.card_data.len(), |k: int| overview_line(g, k, true)),
    }
}

/// The cards of `missed` whose prompt no earlier one of them has.
pub open spec fn first_misses(missed: Seq<CardView>) -> Seq<CardView>
    decreases missed.len(),
{
    if missed.len() == 0 {
        missed
    } else {
        let before = first_misses(missed.drop_last());
        if exists|i: int| 0 <= i < missed.len() - 1 && (#[trigger] missed[i]).raw_front
            == missed.last().raw_front {
            before
        } else {
            before.push(missed.last())
        }
    }
}

/// The export line of a card: prompt, tab, answer.
pub open spec fn export_line(c: CardView) -> Seq<char> {
    c.raw_front + seq!['\t'] + c.raw_back
}

/// The two lines that head an export.
pub open spec fn export_header() -> Seq<char> {
    "#separator:tab\n#html:true\n"@
}

/// The export of the missed cards: nothing where there are none; else the
/// header and one line for each distinct prompt, in the order of first
/// miss, with a line break between each two lines.
pub open spec fn export_text(missed: Seq<CardView>) -> Seq<char> {
    if missed.len() == 0 {
        Seq::empty()
    } else {
        export_header() + join(
            first_misses(missed).map_values(|c: CardView| export_line(c)),
            seq!['\n'],
        )
    }
}

} // verus!
