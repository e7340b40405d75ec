//! The data of the game: modes, cards, and what is shown of them.
//!
//! Places are in micropixels, times in milliseconds.

use vstd::prelude::*;
use crate::model::{expired, lands, moved, new_card};
use crate::rules::FLIP_DISPLAY_TIME;

verus! {

/// Which side of an entry a card shows as its prompt.
#[derive(Clone, Copy, PartialEq, Eq, Structural, Debug)]
pub enum GameMode {
    /// The prompt is shown, the answer is asked for.
    Normal,
    /// The answer is shown, the prompt is asked for.
    Reverse,
    /// Either, by the toss of a coin for each card.
    Both,
}

impl Default for GameMode {
    fn default() -> (mode: Self)
        ensures
            mode == GameMode::Normal,
    {
        GameMode::Normal
    }
}

/// A card in play.
#[derive(Debug, PartialEq, Eq)]
pub struct Card {
    /// Number of the card within its game.
    pub id: u32,
    /// Prompt of the entry, whatever the mode.
    pub raw_front: String,
    /// Answer of the entry, whatever the mode.
    pub raw_back: String,
    /// The side that is shown.
    pub front: String,
    /// The side that is asked for.
    pub back: String,
    /// Distance from the left edge of the field.
    pub x: u64,
    /// Distance from the top of the field; grows as the card falls.
    pub y: u64,
    /// Whether the card has reached the floor.
    pub flipped: bool,
    /// Time since the card reached the floor, for a card that has.
    pub time_since_flipped: Option<u64>,
    /// How many more exposures of its prompt were free when the card was
    /// made; the flip of a card with none left costs health.
    pub free_misses: u32,
}

/// A card as a mathematical value.
#[verifier::ext_equal]
pub struct CardView {
    pub id: u32,
    pub raw_front: Seq<char>,
    pub raw_back: Seq<char>,
    pub front: Seq<char>,
    pub back: Seq<char>,
    pub x: u64,
    pub y: u64,
    pub flipped: bool,
    pub time_since_flipped: Option<u64>,
    pub free_misses: u32,
}

impl CardView {
    /// A card carries a flip timer exactly when it is flipped.
    pub open spec fn wf(self) -> bool {
        self.flipped <==> self.time_since_flipped is Some
    }
}

impl DeepView for Card {
    type V = CardView;

    open spec fn deep_view(&self) -> CardView {
        CardView {
            id: self.id,
            raw_front: self.raw_front@,
            raw_back: self.raw_back@,
            front: self.front@,
            back: self.back@,
            x: self.x,
            y: self.y,
            flipped: self.flipped,
            time_since_flipped: self.time_since_flipped,
            free_misses: self.free_misses,
        }
    }
}

impl View for Card {
    type V = CardView;

    open spec fn view(&self) -> CardView {
        self.deep_view()
    }
}

impl Clone for Card {
    fn clone(&self) -> (out: Self)
        ensures
            out@ == self@,
    {
        Card {
            id: self.id,
            raw_front: self.raw_front.clone(),
            raw_back: self.raw_back.clone(),
            front: self.front.clone(),
            back: self.back.clone(),
            x: self.x,
            y: self.y,
            flipped: self.flipped,
            time_since_flipped: self.time_since_flipped,
            free_misses: self.free_misses,
        }
    }
}

impl Card {
    /// A card fresh from the deck, at the top of the field: it shows its
    /// answer side where it is reversed, its prompt side where not.
    pub fn spawned(
        raw_front: String,
        raw_back: String,
        reversed: bool,
        id: u32,
        x: u64,
        free_misses: u32,
    ) -> (card: Card)
        ensures
            card@ == new_card((raw_front@, raw_back@), reversed, id, x, free_misses),
    {
        let (front, back) = if reversed {
            (raw_back.clone(), raw_front.clone())
        } else {
            (raw_front.clone(), raw_back.clone())
        };
        Card {
            id,
            raw_front,
            raw_back,
            front,
            back,
            x,
            y: 0,
            flipped: false,
            time_since_flipped: None,
            free_misses,
        }
    }
}

impl Card {
    /// Moves the card by `dt`: a flipped card has its timer advanced, a card
    /// that reaches `floor` is stopped there and flipped, any other card
    /// falls by `speed * dt`. Says whether the card has just landed.
    pub fn advance(&mut self, speed: u64, dt: u64, floor: u64) -> (landed: bool)
        ensures
            final(self)@ == moved(old(self)@, speed, dt, floor),
            landed == lands(old(self)@, speed, dt, floor),
    {
        if self.flipped {
            match self.time_since_flipped {
                Some(t) => {
                    self.time_since_flipped = Some(t.saturating_add(dt));
                },
                None => {},
            }
            false
        } else {
            assert(speed * dt <= 0xffff_ffff_ffff_ffff * 0xffff_ffff_ffff_ffff) by (nonlinear_arith)
                requires
                    0 <= speed <= 0xffff_ffff_ffff_ffff,
                    0 <= dt <= 0xffff_ffff_ffff_ffff,
            ;
            let reach: u128 = self.y as u128 + (speed as u128) * (dt as u128);
            if reach >= floor as u128 {
                self.y = floor;
                self.flipped = true;
                self.time_since_flipped = Some(0);
                true
            } else {
                self.y = reach as u64;
                false
            }
        }
    }

    /// Whether the card has been on display, flipped, for its full time.
    pub fn is_expired(&self) -> (gone: bool)
        ensures
            gone == expired(self@),
    {
        match self.time_since_flipped {
            Some(t) => t >= FLIP_DISPLAY_TIME,
            None => false,
        }
    }
}

/// What a renderer needs of a card in play.
#[derive(Debug, PartialEq, Eq)]
pub struct RenderableCard {
    pub id: u32,
    pub front: String,
    pub back: String,
    pub x: u64,
    pub y: u64,
    pub flipped: bool,
    pub free_misses: u32,
}

/// A renderable card as a mathematical value.
#[verifier::ext_equal]
pub struct RenderableCardView {
    pub id: u32,
    pub front: Seq<char>,
    pub back: Seq<char>,
    pub x: u64,
    pub y: u64,
    pub flipped: bool,
    pub free_misses: u32,
}

impl DeepView for RenderableCard {
    type V = RenderableCardView;

    open spec fn deep_view(&self) -> RenderableCardView {
        RenderableCardView {
            id: self.id,
            front: self.front@,
            back: self.back@,
            x: self.x,
            y: self.y,
            flipped: self.flipped,
            free_misses: self.free_misses,
        }
    }
}

/// What is shown of `card` when it is rendered.
pub open spec fn rendered(card: CardView) -> RenderableCardView {
    RenderableCardView {
        id: card.id,
        front: card.front,
        back: card.back,
        x: card.x,
        y: card.y,
        flipped: card.flipped,
        free_misses: card.free_misses,
    }
}

/// An entry of the deck as the deck overview lists it.
#[derive(Debug, PartialEq, Eq)]
pub struct CardForDisplay {
    pub raw_front: String,
    pub raw_back: String,
    pub front: String,
    pub back: String,
    pub success_count: u32,
    pub miss_count: u32,
    pub is_unlocked: bool,
}

/// A line of the deck overview as a mathematical value.
#[verifier::ext_equal]
pub struct CardForDisplayView {
    pub raw_front: Seq<char>,
    pub raw_back: Seq<char>,
    pub front: Seq<char>,
    pub back: Seq<char>,
    pub success_count: u32,
    pub miss_count: u32,
    pub is_unlocked: bool,
}

impl DeepView for CardForDisplay {
    type V = CardForDisplayView;

    open spec fn deep_view(&self) -> CardForDisplayView {
        CardForDisplayView {
            raw_front: self.raw_front@,
            raw_back: self.raw_back@,
            front: self.front@,
            back: self.back@,
            success_count: self.success_count,
            miss_count: self.miss_count,
            is_unlocked: self.is_unlocked,
        }
    }
}

/// Why a game could not be made.
#[derive(Clone, Copy, PartialEq, Eq, Structural, Debug)]
pub enum GameError {
    /// The deck holds no entry.
    EmptyDeck,
}

impl GameError {
    /// The error in words.
    pub fn message(&self) -> (text: String)
        ensures
            text@ == "Custom deck cannot be empty."@,
    {
        String::from_str("Custom deck cannot be empty.")
    }
}

} // verus!
