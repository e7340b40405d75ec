//! The passing of time: spawning, falling, landing and leaving.

use vstd::prelude::*;
use vstd::std_specs::iter::IteratorSpec;
use crate::card::Card;
use crate::game::Game;
use crate::laws::lemma_fall_wf;
use crate::model::{
    after_fall, after_spawn_phase, after_tick, counted, damage, landed, moved, moved_all,
    on_display, GameView,
};
use crate::rules::{floor_at, max_cards_at};

verus! {

impl Game {
    /// The spawning part of a tick: where the spawn interval has passed and
    /// fewer cards are in play than the score allows, a card is spawned and
    /// the time since the last spawn starts again.
    pub fn spawn_new_cards(&mut self, dt: u64)
        requires
            old(self).wf(),
        ensures
            final(self).wf(),
            final(self)@ == after_spawn_phase(old(self)@, dt),
    {
        let elapsed = self.time_since_last_card.saturating_add(dt);
        let allowed = max_cards_at(self.score);
        if elapsed > self.card_spawn_interval && self.cards.len() < allowed {
            self.spawn_card();
            self.time_since_last_card = 0;
        } else {
            self.time_since_last_card = elapsed;
        }
    }

    /// The falling part of a tick: every card moves; those that land are
    /// logged and counted as misses; the damage of all of them is taken off
    /// the health in one step, and at health zero the game is over; flipped
    /// cards whose time on display is up leave.
    pub fn update_cards(&mut self, dt: u64)
        requires
            old(self).wf(),
        ensures
            final(self).wf(),
            final(self)@ == after_fall(old(self)@, dt),
    {
        let floor = floor_at(self.height);
        let speed = self.card_speed;
        let ghost before = self.cards.deep_view();
        let ghost logged = self.missed_cards.deep_view();
        let ghost misses = self.stats.misses@;
        let mut hurt: usize = 0;
        let mut i: usize = 0;
        while i < self.cards.len()
            invariant
                i <= self.cards.len() == before.len(),
                forall|j: int|
                    0 <= j < i ==> #[trigger] self.cards.deep_view()[j] == moved(
                        before[j],
                        speed,
                        dt,
                        floor,
                    ),
                forall|j: int|
                    i <= j < before.len() ==> #[trigger] self.cards.deep_view()[j] == before[j],
                self.missed_cards.deep_view() == logged + landed(
                    before.take(i as int),
                    speed,
                    dt,
                    floor,
                ),
                self.stats.misses@ == counted(
                    misses,
                    landed(before.take(i as int), speed, dt, floor),
                ),
                hurt == damage(before.take(i as int), speed, dt, floor),
                hurt <= i,
                self@ == (GameView {
                    cards: self@.cards,
                    missed_cards: self@.missed_cards,
                    card_miss_counts: self@.card_miss_counts,
                    ..old(self)@
                }),
            decreases self.cards.len() - i,
        {
            let ghost cards_before = self.cards.deep_view();
            let ghost down = landed(before.take(i as int), speed, dt, floor);
            assert(before.take(i as int + 1).drop_last() =~= before.take(i as int));
            assert(cards_before[i as int] == before[i as int]);
            let has_landed = self.cards[i].advance(speed, dt, floor);
            assert(self.cards.deep_view() =~= cards_before.update(
                i as int,
                moved(before[i as int], speed, dt, floor),
            ));
            if has_landed {
                if self.cards[i].free_misses == 0 {
                    hurt += 1;
                }
                assert(down.push(moved(before[i as int], speed, dt, floor)).drop_last() =~= down);
                self.stats.record_miss(&self.cards[i].raw_front);
                let ghost log_before = self.missed_cards.deep_view();
                let copy = self.cards[i].clone();
                self.missed_cards.push(copy);
                assert(self.missed_cards.deep_view() =~= log_before.push(copy@));
            }
            i += 1;
        }
        assert(before.take(i as int) =~= before);
        assert(self.cards.deep_view() =~= moved_all(before, speed, dt, floor));
        if hurt > 0 && !self.game_over {
            self.health = if hurt >= self.health as usize {
                0
            } else {
                self.health - hurt as i32
            };
            if self.health == 0 {
                self.game_over = true;
            }
        }
        let mut falling: Vec<Card> = Vec::new();
        core::mem::swap(&mut falling, &mut self.cards);
        let ghost all = falling.deep_view();
        let ghost plain = falling@;
        for card in it: falling
            invariant
                it.seq() == plain,
                all == plain.map_values(|c: Card| c@),
                self.cards.deep_view() == on_display(all.take(it.index())),
                self@ == (GameView { cards: self@.cards, ..after_fall(old(self)@, dt) }),
        {
            assert(all.take(it.index() + 1).drop_last() =~= all.take(it.index()));
            if !card.is_expired() {
                self.cards.push(card);
            }
        }
        assert(all.take(all.len() as int) =~= all);
        proof {
            lemma_fall_wf(old(self)@, dt);
        }
    }

    /// Advances the game by `dt`. A game that is paused or over stays as it
    /// is; else a card is spawned where one is due, and then the cards fall.
    pub fn tick(&mut self, dt: u64)
        requires
            old(self).wf(),
        ensures
            final(self).wf(),
            final(self)@ == after_tick(old(self)@, dt),
    {
        if self.game_over || self.paused {
            return ;
        }
        self.spawn_new_cards(dt);
        self.update_cards(dt);
    }
}

} // verus!
