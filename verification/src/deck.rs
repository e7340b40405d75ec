//! The deck of a game: the weighted, shuffled draw queue and the spawning
//! of cards from it.

use vstd::prelude::*;
use crate::card::{Card, GameMode};
use crate::game::Game;
use crate::laws::lemma_replenished_wf;
use crate::model::{after_draw, available, drawn_entry, replenished, spawned, weighted_queue};
use crate::random::shuffled;
use crate::rules::{copies_for, free_misses_for, unlocked_at, CARD_WIDTH};

verus! {

impl Game {
    /// The draw queue before it is shuffled: for each unlocked entry, in
    /// order, as many copies as its successes leave it.
    pub fn weighted_entries(&self) -> (queue: Vec<(String, String)>)
        requires
            self@.sound(),
        ensures
            queue.deep_view() == weighted_queue(available(self@), self@.card_success_counts),
    {
        let unlocked = unlocked_at(self.score, self.card_data.len());
        let ghost entries = self.card_data.deep_view();
        let ghost successes = self.stats.successes@;
        let mut queue: Vec<(String, String)> = Vec::new();
        let mut i: usize = 0;
        while i < unlocked
            invariant
                i <= unlocked <= self.card_data.len(),
                entries == self.card_data.deep_view(),
                successes == self.stats.successes@,
                queue.deep_view() == weighted_queue(entries.take(i as int), successes),
            decreases unlocked - i,
        {
            let count = copies_for(self.stats.successes.get(&self.card_data[i].0));
            let ghost start = queue.deep_view();
            let ghost entry = entries[i as int];
            let mut k: u32 = 0;
            while k < count
                invariant
                    k <= count,
                    i < self.card_data.len(),
                    entries == self.card_data.deep_view(),
                    entry == entries[i as int],
                    queue.deep_view() == start + Seq::new(k as nat, |j: int| entry),
                decreases count - k,
            {
                let ghost prior = queue.deep_view();
                let front = self.card_data[i].0.clone();
                let back = self.card_data[i].1.clone();
                queue.push((front, back));
                assert(queue.deep_view() =~= prior.push(entry));
                k += 1;
            }
            assert(entries.take(i as int + 1).drop_last() =~= entries.take(i as int));
            i += 1;
        }
        queue
    }

    /// Builds a new draw queue: the weighted copies of the unlocked entries,
    /// shuffled. The number of unlocked entries is recorded.
    pub fn replenish_deck(&mut self)
        requires
            old(self)@.sound(),
        ensures
            final(self).wf(),
            final(self)@ == replenished(old(self)@),
    {
        let mut queue = self.weighted_entries();
        let ghost unshuffled = queue.deep_view();
        let ghost before = self.rng;
        self.rng.shuffle(&mut queue);
        assert(queue.deep_view() =~= shuffled(
            unshuffled,
            before.seed,
            before.word_pos,
        ));
        self.unlocked_cards_count = unlocked_at(self.score, self.card_data.len());
        self.card_deck = queue;
        proof {
            lemma_replenished_wf(old(self)@);
        }
    }

    /// Draws the next entry from the queue, building a new queue first where
    /// the old one is used up. Only an empty vocabulary gives none.
    pub fn draw_one(&mut self) -> (entry: Option<(String, String)>)
        requires
            old(self).wf(),
        ensures
            final(self).wf(),
            final(self)@ == after_draw(old(self)@),
            entry.deep_view() == drawn_entry(old(self)@),
            entry is None <==> old(self).card_data.len() == 0,
            entry matches Some(drawn) ==> available(old(self)@).contains(drawn.deep_view()),
    {
        if self.card_deck.len() == 0 {
            self.replenish_deck();
        }
        let ghost queue = self.card_deck.deep_view();
        let entry = self.card_deck.pop();
        assert(entry is Some ==> self.card_deck.deep_view() =~= queue.drop_last());
        entry
    }

    /// Puts a new card into play: it is drawn from the deck, oriented by the
    /// mode, given its free misses from the statistics of its prompt, and
    /// placed at a random x at the top of the field.
    pub fn spawn_card(&mut self)
        requires
            old(self).wf(),
        ensures
            final(self).wf(),
            final(self)@ == spawned(old(self)@),
            final(self).cards.len() == old(self).cards.len() + (if old(self).card_data.len() == 0 {
                0int
            } else {
                1int
            }),
            old(self).card_data.len() > 0 ==> final(self)@.cards.last().x + CARD_WIDTH < old(
                self,
            ).width,
    {
        match self.draw_one() {
            None => {},
            Some((raw_front, raw_back)) => {
                let reversed = match self.mode {
                    GameMode::Normal => false,
                    GameMode::Reverse => true,
                    GameMode::Both => self.rng.next_bool(),
                };
                let (successes, misses) = self.stats.lookup(&raw_front);
                let free = free_misses_for(successes, misses);
                let x = self.rng.next_below(self.width - CARD_WIDTH);
                let card = Card::spawned(raw_front, raw_back, reversed, self.next_card_id, x, free);
                let ghost prior = self.cards.deep_view();
                self.cards.push(card);
                assert(self.cards.deep_view() =~= prior.push(card@));
                self.next_card_id = if self.next_card_id == u32::MAX {
                    0
                } else {
                    self.next_card_id + 1
                };
            },
        }
    }
}

} // verus!
