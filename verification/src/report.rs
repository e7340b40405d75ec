//! What a host shows of a game: the cards to render, the overview of the
//! deck, the statistics, and the export of the missed cards.

use vstd::prelude::*;
use vstd::string::StringExecFns;
use crate::card::{rendered, CardForDisplay, CardView, GameMode, RenderableCard};
use crate::game::Game;
use crate::model::{export_line, export_text, first_misses, overview, overview_line};
use crate::rules::{unlocked_at, unlocked_count};
use crate::stats::{as_map, distinct_keys};
use crate::text::join;

verus! {

impl Game {
    /// The miss counts: each prompt that was ever missed, once, with its
    /// count.
    pub fn get_card_miss_counts(&self) -> (counts: Vec<(String, u32)>)
        ensures
            distinct_keys(counts.deep_view()),
            as_map(counts.deep_view()) == self@.card_miss_counts,
    {
        self.stats.misses.pairs()
    }

    /// The success counts: each prompt that was ever solved, once, with its
    /// count.
    pub fn get_card_success_counts(&self) -> (counts: Vec<(String, u32)>)
        ensures
            distinct_keys(counts.deep_view()),
            as_map(counts.deep_view()) == self@.card_success_counts,
    {
        self.stats.successes.pairs()
    }

    /// The cards in play as a renderer needs them, oldest first.
    pub fn get_cards_for_render(&self) -> (shown: Vec<RenderableCard>)
        ensures
            shown.deep_view() == self@.cards.map_values(|c: CardView| rendered(c)),
    {
        let ghost all = self.cards.deep_view();
        let mut shown: Vec<RenderableCard> = Vec::new();
        let mut i: usize = 0;
        while i < self.cards.len()
            invariant
                i <= self.cards.len(),
                all == self.cards.deep_view(),
                shown.deep_view() == all.take(i as int).map_values(|c: CardView| rendered(c)),
            decreases self.cards.len() - i,
        {
            let ghost prior = shown.deep_view();
            let card = &self.cards[i];
            let item = RenderableCard {
                id: card.id,
                front: card.front.clone(),
                back: card.back.clone(),
                x: card.x,
                y: card.y,
                flipped: card.flipped,
                free_misses: card.free_misses,
            };
            shown.push(item);
            assert(shown.deep_view() =~= prior.push(rendered(all[i as int])));
            i += 1;
        }
        shown
    }

    /// The line of the deck overview for the entry at `index`.
    fn display_line(&self, index: usize, reversed: bool, unlocked: usize) -> (line: CardForDisplay)
        requires
            index < self.card_data.len(),
            unlocked == unlocked_count(self.score as int, self.card_data.len() as int),
        ensures
            line.deep_view() == overview_line(self@, index as int, reversed),
    {
        let raw_front = self.card_data[index].0.clone();
        let raw_back = self.card_data[index].1.clone();
        let (front, back) = if reversed {
            (raw_back.clone(), raw_front.clone())
        } else {
            (raw_front.clone(), raw_back.clone())
        };
        let (success_count, miss_count) = self.stats.lookup(&raw_front);
        CardForDisplay {
            raw_front,
            raw_back,
            front,
            back,
            success_count,
            miss_count,
            is_unlocked: index < unlocked,
        }
    }

    /// The deck overview: every entry of the vocabulary in order, with its
    /// statistics and whether it is unlocked at the present score. In the
    /// mode `Both` each entry is listed twice, first as it is and then
    /// reversed; in the mode `Reverse` each is listed reversed.
    pub fn get_all_cards_for_display(&self) -> (lines: Vec<CardForDisplay>)
        requires
            self.wf(),
        ensures
            lines.deep_view() == overview(self@),
    {
        let unlocked = unlocked_at(self.score, self.card_data.len());
        let mut lines: Vec<CardForDisplay> = Vec::new();
        let mut i: usize = 0;
        match self.mode {
            GameMode::Both => {
                while i < self.card_data.len()
                    invariant
                        self.mode == GameMode::Both,
                        i <= self.card_data.len(),
                        unlocked == unlocked_count(
                            self.score as int,
                            self.card_data.len() as int,
                        ),
                        lines.deep_view() == Seq::new(
                            2 * i as nat,
                            |k: int| overview_line(self@, k / 2, k % 2 == 1),
                        ),
                    decreases self.card_data.len() - i,
                {
                    let ghost prior = lines.deep_view();
                    let plain = self.display_line(i, false, unlocked);
                    let turned = self.display_line(i, true, unlocked);
                    let ghost first = plain.deep_view();
                    let ghost second = turned.deep_view();
                    lines.push(plain);
                    lines.push(turned);
                    assert(lines.deep_view() =~= prior.push(first).push(second));
                    i += 1;
                }
            },
            GameMode::Normal | GameMode::Reverse => {
                let reversed = match self.mode {
                    GameMode::Reverse => true,
                    _ => false,
                };
                while i < self.card_data.len()
                    invariant
                        reversed == (self.mode == GameMode::Reverse),
                        i <= self.card_data.len(),
                        unlocked == unlocked_count(
                            self.score as int,
                            self.card_data.len() as int,
                        ),
                        lines.deep_view() == Seq::new(
                            i as nat,
                            |k: int| overview_line(self@, k, reversed),
                        ),
                    decreases self.card_data.len() - i,
                {
                    let ghost prior = lines.deep_view();
                    let line = self.display_line(i, reversed, unlocked);
                    let ghost shown = line.deep_view();
                    lines.push(line);
                    assert(lines.deep_view() =~= prior.push(shown));
                    i += 1;
                }
            },
        }
        lines
    }

    /// Whether a card before the one at `index` in the log of missed cards
    /// has the same prompt.
    fn missed_before(&self, index: usize) -> (found: bool)
        requires
            index < self.missed_cards.len(),
        ensures
            found == (exists|j: int|
                0 <= j < index && (#[trigger] self@.missed_cards[j]).raw_front
                    == self@.missed_cards[index as int].raw_front),
    {
        let mut j: usize = 0;
        while j < index
            invariant
                j <= index < self.missed_cards.len(),
                forall|k: int|
                    0 <= k < j ==> (#[trigger] self@.missed_cards[k]).raw_front
                        != self@.missed_cards[index as int].raw_front,
            decreases index - j,
        {
            if self.missed_cards[j].raw_front == self.missed_cards[index].raw_front {
                assert(self@.missed_cards[j as int].raw_front
                    == self@.missed_cards[index as int].raw_front);
                return true;
            }
            j += 1;
        }
        false
    }

    /// The missed cards as text for later study: nothing where no card was
    /// missed; else two header lines and then, for each distinct prompt in
    /// the order of its first miss, a line of prompt, tab and answer.
    pub fn generate_anki_export(&self) -> (text: String)
        ensures
            text@ == export_text(self@.missed_cards),
    {
        if self.missed_cards.len() == 0 {
            return String::new();
        }
        let ghost missed = self@.missed_cards;
        let ghost line_of = |c: CardView| export_line(c);
        let mut body = String::new();
        let mut lines: usize = 0;
        let mut i: usize = 0;
        while i < self.missed_cards.len()
            invariant
                i <= self.missed_cards.len(),
                missed == self@.missed_cards,
                line_of == |c: CardView| export_line(c),
                lines == first_misses(missed.take(i as int)).len(),
                lines <= i,
                body@ == join(first_misses(missed.take(i as int)).map_values(line_of), seq!['\n']),
            decreases self.missed_cards.len() - i,
        {
            let ghost upto = missed.take(i as int + 1);
            let ghost firsts = first_misses(missed.take(i as int));
            assert(upto.drop_last() =~= missed.take(i as int));
            assert(forall|j: int| 0 <= j < i ==> upto[j] == missed[j]);
            let seen = self.missed_before(i);
            if !seen {
                if lines > 0 {
                    body.push('\n');
                }
                body.append(self.missed_cards[i].raw_front.as_str());
                body.push('\t');
                body.append(self.missed_cards[i].raw_back.as_str());
                lines += 1;
                assert(firsts.push(missed[i as int]).map_values(line_of) =~= firsts.map_values(
                    line_of,
                ).push(export_line(missed[i as int])));
                assert(firsts.map_values(line_of).push(export_line(missed[i as int])).drop_last()
                    =~= firsts.map_values(line_of));
            }
            i += 1;
        }
        assert(missed.take(i as int) =~= missed);
        let mut text = String::from_str("#separator:tab\n#html:true\n");
        text.append(body.as_str());
        text
    }
}

} // verus!
