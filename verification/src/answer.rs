//! Answers: which cards an answer solves, and what solving them earns.

use vstd::prelude::*;
use vstd::std_specs::iter::IteratorSpec;
use crate::card::Card;
use crate::game::Game;
use crate::laws::{lemma_none_solved, lemma_unsolved_wf};
use crate::model::{
    accepts, after_submit, answer_is_right, counted, rewarded, solved, unsolved, GameView,
};
use crate::normalize::{normalize_string, normalized};
use crate::rules::{add_clamped, fall_speed_at, spawn_interval_at, unlocked_at, SCORE_PER_HEART};
use crate::text::{from_chars, rows, split, split_chars, to_chars, trim_chars, trimmed};

verus! {

/// Whether `wanted`, a canonical form, is among the canonical forms of the
/// `/`-separated alternates of `back`.
pub fn accepts_answer(back: &String, wanted: &String) -> (found: bool)
    ensures
        found == accepts(back@, wanted@),
{
    let pieces = split_chars(&to_chars(back.as_str()), '/');
    let ghost all = rows(pieces@);
    let mut i: usize = 0;
    while i < pieces.len()
        invariant
            i <= pieces.len(),
            all == rows(pieces@),
            all == split(back@, '/'),
            forall|j: int| 0 <= j < i ==> normalized(trimmed(#[trigger] all[j])) != wanted@,
        decreases pieces.len() - i,
    {
        let alternate = normalize_string(from_chars(&trim_chars(&pieces[i])).as_str());
        if alternate == *wanted {
            assert(normalized(trimmed(all[i as int])) == wanted@);
            return true;
        }
        i += 1;
    }
    false
}

impl Game {
    /// Rewards the solving of `removed`, cards that have been taken out of
    /// play: the score grows by their number; each of their prompts is
    /// credited a success; the draw queue is rebuilt where more entries are
    /// unlocked now than when it was last built; spawn interval and fall
    /// speed follow the score; and every full `SCORE_PER_HEART` points since
    /// the last heart earn one, up to the maximal health.
    pub fn handle_correct_answer(&mut self, removed: &Vec<Card>)
        requires
            old(self).wf(),
            !old(self).game_over,
        ensures
            final(self).wf(),
            final(self)@ == rewarded(old(self)@, removed.deep_view()),
    {
        let ghost gone = removed.deep_view();
        let ghost successes = self.stats.successes@;
        self.score = add_clamped(self.score, removed.len());
        let since = add_clamped(self.score_since_last_heart, removed.len());
        let mut i: usize = 0;
        while i < removed.len()
            invariant
                i <= removed.len(),
                gone == removed.deep_view(),
                self.stats.successes@ == counted(successes, gone.take(i as int)),
                self@ == (GameView {
                    score: self@.score,
                    card_success_counts: self@.card_success_counts,
                    ..old(self)@
                }),
                self.score == rewarded(old(self)@, gone).score,
            decreases removed.len() - i,
        {
            assert(gone.take(i as int + 1).drop_last() =~= gone.take(i as int));
            self.stats.record_success(&removed[i].raw_front);
            i += 1;
        }
        assert(gone.take(i as int) =~= gone);
        if unlocked_at(self.score, self.card_data.len()) > self.unlocked_cards_count {
            self.replenish_deck();
        }
        self.card_spawn_interval = spawn_interval_at(self.score);
        self.card_speed = fall_speed_at(self.score, self.speed_multiplier);
        let hearts = since / SCORE_PER_HEART;
        if hearts > 0 {
            self.health = if hearts >= self.max_health - self.health {
                self.max_health
            } else {
                self.health + hearts
            };
            self.score_since_last_heart = since % SCORE_PER_HEART;
        } else {
            self.score_since_last_heart = since;
        }
    }

    /// Takes an answer. In a game that is paused or over nothing happens
    /// and the result is `false`. Else every card in play that is not
    /// flipped and accepts the answer is solved: it leaves, and the solving
    /// is rewarded. The result says whether any card was solved.
    pub fn submit_answer(&mut self, answer: &str) -> (correct: bool)
        requires
            old(self).wf(),
        ensures
            final(self).wf(),
            correct == answer_is_right(old(self)@, answer@),
            final(self)@ == after_submit(old(self)@, answer@),
    {
        if self.game_over || self.paused {
            return false;
        }
        let wanted = normalize_string(answer);
        let mut in_play: Vec<Card> = Vec::new();
        core::mem::swap(&mut in_play, &mut self.cards);
        let ghost plain = in_play@;
        let ghost all = in_play.deep_view();
        let mut removed: Vec<Card> = Vec::new();
        for card in it: in_play
            invariant
                it.seq() == plain,
                all == plain.map_values(|c: Card| c@),
                all == old(self)@.cards,
                self.cards.deep_view() == unsolved(all.take(it.index()), wanted@),
                removed.deep_view() == solved(all.take(it.index()), wanted@),
                self@ == (GameView { cards: self@.cards, ..old(self)@ }),
        {
            assert(all.take(it.index() + 1).drop_last() =~= all.take(it.index()));
            if !card.flipped && accepts_answer(&card.back, &wanted) {
                removed.push(card);
            } else {
                self.cards.push(card);
            }
        }
        assert(all.take(all.len() as int) =~= all);
        let correct = removed.len() > 0;
        proof {
            lemma_unsolved_wf(old(self)@, wanted@);
        }
        if correct {
            self.handle_correct_answer(&removed);
        } else {
            proof {
                lemma_none_solved(all, wanted@);
            }
        }
        correct
    }
}

} // verus!
