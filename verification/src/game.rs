//! The game: its state, how it is made, and what can be asked of it.

use vstd::prelude::*;
use crate::card::{Card, GameError, GameMode};
use crate::model::{available, default_game, initial, opening, restarted, with_pause, GameView};
use crate::random::RandomSource;
use crate::rules::{
    fall_speed_at, unlocked_at, unlocked_count, CARD_WIDTH, DEFAULT_HEIGHT, DEFAULT_WIDTH,
    INITIAL_HEALTH, INITIAL_MAX_HEALTH, INITIAL_SPAWN_INTERVAL,
};
use crate::stats::CardStats;

verus! {

/// A game: the cards in play, the deck, the statistics and the counters.
pub struct Game {
    /// The cards in play, oldest first.
    pub cards: Vec<Card>,
    /// Every card that reached the floor, in the order in which they did.
    pub missed_cards: Vec<Card>,
    /// The draw queue; the next entry to be drawn is the last.
    pub card_deck: Vec<(String, String)>,
    /// How many entries were unlocked when the draw queue was last built.
    pub unlocked_cards_count: usize,
    /// Successes and misses so far, by prompt.
    pub stats: CardStats,
    /// Width of the field.
    pub width: u64,
    /// Height of the field.
    pub height: u64,
    pub score: i32,
    /// Time since the last spawn.
    pub time_since_last_card: u64,
    /// Time between two spawns.
    pub card_spawn_interval: u64,
    /// Distance that a card falls in a unit of time.
    pub card_speed: u64,
    pub health: i32,
    pub max_health: i32,
    /// Points scored since the last heart was earned.
    pub score_since_last_heart: i32,
    pub game_over: bool,
    pub paused: bool,
    /// Where the game stands in its random stream.
    pub rng: RandomSource,
    /// Name of the game, drawn from its seed.
    pub game_id: u32,
    pub mode: GameMode,
    /// Number of the next card.
    pub next_card_id: u32,
    /// Factor on the fall speed, in thousandths.
    pub speed_multiplier: u16,
    /// The whole vocabulary, in the order in which it unlocks.
    pub card_data: Vec<(String, String)>,
}

impl View for Game {
    type V = GameView;

    open spec fn view(&self) -> GameView {
        GameView {
            cards: self.cards.deep_view(),
            missed_cards: self.missed_cards.deep_view(),
            card_deck: self.card_deck.deep_view(),
            unlocked_cards_count: self.unlocked_cards_count as nat,
            card_miss_counts: self.stats.misses@,
            card_success_counts: self.stats.successes@,
            width: self.width,
            height: self.height,
            score: self.score,
            time_since_last_card: self.time_since_last_card,
            card_spawn_interval: self.card_spawn_interval,
            card_speed: self.card_speed,
            health: self.health,
            max_health: self.max_health,
            score_since_last_heart: self.score_since_last_heart,
            game_over: self.game_over,
            paused: self.paused,
            rng: self.rng,
            game_id: self.game_id,
            mode: self.mode,
            next_card_id: self.next_card_id,
            speed_multiplier: self.speed_multiplier,
            card_data: self.card_data.deep_view(),
        }
    }
}

impl Game {
    /// The game is well formed.
    pub open spec fn wf(&self) -> bool {
        self@.wf()
    }

    /// Whether `entry` is among the first `unlocked` entries of the
    /// vocabulary.
    fn is_unlocked_entry(&self, entry: &(String, String), unlocked: usize) -> (found: bool)
        requires
            unlocked <= self.card_data.len(),
        ensures
            found == self@.card_data.take(unlocked as int).contains(entry.deep_view()),
    {
        let ghost open = self@.card_data.take(unlocked as int);
        let mut j: usize = 0;
        while j < unlocked
            invariant
                j <= unlocked <= self.card_data.len(),
                open == self@.card_data.take(unlocked as int),
                forall|k: int| 0 <= k < j ==> #[trigger] open[k] != entry.deep_view(),
            decreases unlocked - j,
        {
            if self.card_data[j].0 == entry.0 && self.card_data[j].1 == entry.1 {
                assert(open[j as int] == entry.deep_view());
                return true;
            }
            j += 1;
        }
        false
    }

    /// Whether the game is well formed. Every game that the library makes
    /// is, and stays so under its operations; a game put together by hand
    /// can be tested here before it is used.
    pub fn is_well_formed(&self) -> (ok: bool)
        ensures
            ok == self.wf(),
    {
        if self.health < 0 || self.health > self.max_health || self.max_health < INITIAL_HEALTH
            || self.game_over != (self.health == 0) || self.score < 0
            || self.score_since_last_heart < 0 || self.width <= CARD_WIDTH {
            return false;
        }
        let mut i: usize = 0;
        while i < self.cards.len()
            invariant
                i <= self.cards.len(),
                forall|k: int| 0 <= k < i ==> (#[trigger] self@.cards[k]).wf(),
            decreases self.cards.len() - i,
        {
            if self.cards[i].flipped != self.cards[i].time_since_flipped.is_some() {
                assert(!self@.cards[i as int].wf());
                return false;
            }
            i += 1;
        }
        if self.card_deck.len() == 0 {
            return true;
        }
        let unlocked = unlocked_at(self.score, self.card_data.len());
        if self.unlocked_cards_count != unlocked {
            return false;
        }
        let mut i: usize = 0;
        while i < self.card_deck.len()
            invariant
                i <= self.card_deck.len(),
                unlocked == unlocked_count(
                    self.score as int,
                    self.card_data.len() as int,
                ),
                unlocked <= self.card_data.len(),
                forall|k: int|
                    0 <= k < i ==> available(self@).contains(#[trigger] self@.card_deck[k]),
            decreases self.card_deck.len() - i,
        {
            if !self.is_unlocked_entry(&self.card_deck[i], unlocked) {
                assert(!available(self@).contains(self@.card_deck[i as int]));
                return false;
            }
            i += 1;
        }
        true
    }

    /// A game before its first spawn, with no statistics yet.
    fn fresh(
        width: u64,
        height: u64,
        rng: RandomSource,
        game_id: u32,
        mode: GameMode,
        speed_multiplier: u16,
        card_data: Vec<(String, String)>,
    ) -> (game: Game)
        requires
            width > CARD_WIDTH,
        ensures
            game.wf(),
            game@ == opening(
                width,
                height,
                rng,
                game_id,
                mode,
                INITIAL_MAX_HEALTH,
                speed_multiplier,
                card_data.deep_view(),
                Map::empty(),
                Map::empty(),
            ),
    {
        let game = Game {
            cards: Vec::new(),
            missed_cards: Vec::new(),
            card_deck: Vec::new(),
            unlocked_cards_count: 0,
            stats: CardStats::new(),
            width,
            height,
            score: 0,
            time_since_last_card: 0,
            card_spawn_interval: INITIAL_SPAWN_INTERVAL,
            card_speed: fall_speed_at(0, speed_multiplier),
            health: INITIAL_HEALTH,
            max_health: INITIAL_MAX_HEALTH,
            score_since_last_heart: 0,
            game_over: false,
            paused: false,
            rng,
            game_id,
            mode,
            next_card_id: 0,
            speed_multiplier,
            card_data,
        };
        game
    }

    /// A new game on a field of `width` by `height` with the vocabulary
    /// `deck`. The field must be wider than a card. An empty deck is
    /// refused; else the game is named by the first draw from the stream of
    /// `seed` and starts with its first card in play.
    pub fn new(
        width: u64,
        height: u64,
        seed: u64,
        mode: GameMode,
        speed_multiplier: u16,
        deck: Vec<(String, String)>,
    ) -> (made: Result<Game, GameError>)
        requires
            width > CARD_WIDTH,
        ensures
            made is Err <==> deck.len() == 0,
            made matches Err(e) ==> e == GameError::EmptyDeck,
            made matches Ok(game) ==> game.wf() && game@ == initial(
                width,
                height,
                seed,
                mode,
                speed_multiplier,
                deck.deep_view(),
            ),
    {
        if deck.len() == 0 {
            return Err(GameError::EmptyDeck);
        }
        let mut rng = RandomSource::new(seed);
        let game_id = rng.next_u32();
        let mut game = Game::fresh(width, height, rng, game_id, mode, speed_multiplier, deck);
        game.spawn_card();
        Ok(game)
    }

    /// Starts the game over. Field, seed, name, mode, maximal health,
    /// multiplier, vocabulary and statistics stay; everything else is as in
    /// a new game, the random stream at its beginning, and the first card is
    /// in play.
    pub fn restart(&mut self)
        requires
            old(self).wf(),
        ensures
            final(self).wf(),
            final(self)@ == restarted(old(self)@),
    {
        self.cards = Vec::new();
        self.missed_cards = Vec::new();
        self.card_deck = Vec::new();
        self.unlocked_cards_count = 0;
        self.score = 0;
        self.time_since_last_card = 0;
        self.card_spawn_interval = INITIAL_SPAWN_INTERVAL;
        self.card_speed = fall_speed_at(0, self.speed_multiplier);
        self.health = INITIAL_HEALTH;
        self.score_since_last_heart = 0;
        self.game_over = false;
        self.paused = false;
        self.rng = RandomSource::new(self.rng.seed);
        self.next_card_id = 0;
        self.spawn_card();
    }

    /// Pauses the game. A game that is over stays as it is.
    pub fn pause(&mut self)
        ensures
            final(self)@ == with_pause(old(self)@, true),
            old(self).wf() ==> final(self).wf(),
    {
        if !self.game_over {
            self.paused = true;
        }
    }

    /// Lets a paused game run again. A game that is over stays as it is.
    pub fn resume(&mut self)
        ensures
            final(self)@ == with_pause(old(self)@, false),
            old(self).wf() ==> final(self).wf(),
    {
        if !self.game_over {
            self.paused = false;
        }
    }

    /// Whether the game is paused.
    pub fn is_paused(&self) -> (paused: bool)
        ensures
            paused == self@.paused,
    {
        self.paused
    }

    /// Whether the game is over.
    pub fn is_game_over(&self) -> (over: bool)
        ensures
            over == self@.game_over,
    {
        self.game_over
    }

    /// The name of the game.
    pub fn get_id(&self) -> (id: u32)
        ensures
            id == self@.game_id,
    {
        self.game_id
    }

    /// The score.
    pub fn get_score(&self) -> (score: i32)
        ensures
            score == self@.score,
    {
        self.score
    }

    /// The health.
    pub fn get_health(&self) -> (health: i32)
        ensures
            health == self@.health,
    {
        self.health
    }

    /// The most health the game can hold.
    pub fn get_max_health(&self) -> (health: i32)
        ensures
            health == self@.max_health,
    {
        self.max_health
    }

    /// A copy of the cards in play, oldest first.
    pub fn get_cards(&self) -> (cards: Vec<Card>)
        ensures
            cards.deep_view() == self@.cards,
    {
        copy_cards(&self.cards)
    }

    /// A copy of the log of missed cards, in the order in which they landed.
    pub fn get_missed_cards(&self) -> (cards: Vec<Card>)
        ensures
            cards.deep_view() == self@.missed_cards,
    {
        copy_cards(&self.missed_cards)
    }
}

impl Default for Game {
    /// A game without vocabulary on a field of 600 by 800 pixels.
    fn default() -> (game: Game)
        ensures
            game.wf(),
            game@ == default_game(),
    {
        Game::fresh(
            DEFAULT_WIDTH,
            DEFAULT_HEIGHT,
            RandomSource::new(0),
            0,
            GameMode::Normal,
            1000,
            Vec::new(),
        )
    }
}

/// A copy of `cards`.
pub fn copy_cards(cards: &Vec<Card>) -> (copy: Vec<Card>)
    ensures
        copy.deep_view() == cards.deep_view(),
{
    let mut copy: Vec<Card> = Vec::new();
    let mut i: usize = 0;
    while i < cards.len()
        invariant
            i <= cards.len(),
            copy.deep_view() == cards.deep_view().take(i as int),
        decreases cards.len() - i,
    {
        let ghost prior = copy.deep_view();
        let card = cards[i].clone();
        copy.push(card);
        assert(copy.deep_view() =~= prior.push(card@));
        i += 1;
    }
    copy
}

} // verus!
