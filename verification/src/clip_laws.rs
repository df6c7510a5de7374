//! What a clipped text shows in its cells.
use vstd::prelude::*;

use crate::dividers::{clipped, display_width, marks, shown, total_width, width_or_zero};
use crate::dividers_laws::{lemma_shown_fits, lemma_total_width_of_first};

verus! {

proof fn lemma_take_first(text: Seq<char>, i: int)
    requires
        0 < i <= text.len(),
    ensures
        total_width(text.take(i)) == width_or_zero(text[0]) + total_width(
            text.drop_first().take(i - 1),
        ),
{
    lemma_total_width_of_first(text.take(i));
    assert(text.take(i).drop_first() =~= text.drop_first().take(i - 1));
}

proof fn lemma_width_of_prefix(text: Seq<char>, i: int)
    requires
        0 <= i < text.len(),
    ensures
        total_width(text.take(i + 1)) == total_width(text.take(i)) + width_or_zero(text[i]),
{
    assert(text.take(i + 1).drop_last() =~= text.take(i));
    assert(text.take(i + 1).last() == text[i]);
}

/// A character of the text that is still within the budget shows at the cell that
/// the widths before it add up to, with the mark that follows it if one does; a
/// wide one leaves its further cells blank.
pub proof fn law_each_character_has_its_place(text: Seq<char>, budget: nat, i: int)
    requires
        0 <= i < text.len(),
        display_width(text[i]) is Some,
        display_width(text[i])->0 > 0,
        total_width(text.take(i)) + display_width(text[i])->0 <= budget,
    ensures
        ({
            let cells = shown(text, budget);
            let at = total_width(text.take(i)) as int;
            let w = display_width(text[i])->0;
            &&& at + w <= cells.len()
            &&& cells[at].len() >= 1
            &&& cells[at][0] == text[i]
            &&& cells[at] == seq![text[i]] + marks(text.skip(i + 1))
            &&& (i + 1 == text.len() || (display_width(text[i + 1]) is Some && display_width(
                text[i + 1],
            )->0 > 0)) ==> cells[at] == seq![text[i]]
            &&& forall|j: int| at < j < at + w ==> #[trigger] cells[j] == seq![' ']
        }),
    decreases text.len(),
{
    let rest = text.drop_first();
    let cells = shown(text, budget);
    if i == 0 {
        let w = display_width(text[0])->0;
        assert(text.take(0) =~= Seq::<char>::empty());
        assert(total_width(text.take(0)) == 0);
        assert(cells[0] == seq![text[0]] + marks(rest));
        assert(text.skip(1) =~= rest);
        if rest.len() > 0 {
            assert(rest[0] == text[1]);
        } else {
            assert(marks(rest) =~= Seq::<char>::empty());
        }
        if marks(rest).len() == 0 {
            assert(cells[0] =~= seq![text[0]]);
        }
    } else {
        lemma_take_first(text, i);
        assert(rest[i - 1] == text[i]);
        assert(rest.skip(i) =~= text.skip(i + 1));
        match display_width(text[0]) {
            None => {
                law_each_character_has_its_place(rest, budget, i - 1);
            },
            Some(w0) => {
                if w0 == 0 {
                    law_each_character_has_its_place(rest, budget, i - 1);
                } else {
                    law_each_character_has_its_place(rest, (budget - w0) as nat, i - 1);
                    let tail = shown(rest, (budget - w0) as nat);
                    let at = total_width(text.take(i)) as int;
                    let w = display_width(text[i])->0;
                    assert forall|j: int| at <= j < at + w implies #[trigger] cells[j] == tail[j
                        - w0] by {}
                    assert(cells[at] == tail[at - w0]);
                }
            },
        }
        if i + 1 < text.len() {
            assert(rest[i] == text[i + 1]);
        }
    }
}

/// The marks that join a character are all the characters without width that
/// follow it up to the next that has one; control characters among them are left
/// out.
pub proof fn law_marks_reach_to_the_next_character(c: char, rest: Seq<char>)
    ensures
        marks(Seq::empty()) == Seq::<char>::empty(),
        display_width(c) is None ==> marks(seq![c] + rest) == marks(rest),
        display_width(c) == Some(0usize) ==> marks(seq![c] + rest) == seq![c] + marks(rest),
        display_width(c) is Some && display_width(c)->0 > 0 ==> marks(seq![c] + rest) == Seq::<
            char,
        >::empty(),
{
    assert((seq![c] + rest).drop_first() =~= rest);
}

/// Widths add up character by character, control characters counting nothing.
pub proof fn law_widths_add_up(text: Seq<char>, c: char)
    ensures
        total_width(Seq::empty()) == 0,
        display_width(c) is Some ==> total_width(text.push(c)) == total_width(text)
            + display_width(c)->0,
        display_width(c) is None ==> total_width(text.push(c)) == total_width(text),
{
    assert(text.push(c).drop_last() =~= text);
}

/// Without a character that does not fit, nothing more is shown than the text is
/// wide, and the text ends where the first such character is.
pub proof fn law_the_text_ends_where_it_no_longer_fits(text: Seq<char>, budget: nat, i: int)
    requires
        0 <= i < text.len(),
        total_width(text.take(i)) <= budget,
        display_width(text[i]) is Some,
        display_width(text[i])->0 > 0,
        total_width(text.take(i)) + display_width(text[i])->0 > budget,
    ensures
        shown(text, budget).len() == total_width(text.take(i)),
    decreases text.len(),
{
    let rest = text.drop_first();
    if i == 0 {
        assert(text.take(0) =~= Seq::<char>::empty());
    } else {
        lemma_take_first(text, i);
        assert(rest[i - 1] == text[i]);
        match display_width(text[0]) {
            None => {
                law_the_text_ends_where_it_no_longer_fits(rest, budget, i - 1);
            },
            Some(w0) => {
                if w0 == 0 {
                    law_the_text_ends_where_it_no_longer_fits(rest, budget, i - 1);
                } else {
                    law_the_text_ends_where_it_no_longer_fits(
                        rest,
                        (budget - w0) as nat,
                        i - 1,
                    );
                }
            },
        }
    }
}

/// A text that fits is shown as it is; one that does not is shown as far as it
/// fits in all cells but one, and the cut is marked in the cell after it.
pub proof fn law_a_cut_is_marked(text: Seq<char>, budget: nat)
    requires
        budget > 0,
    ensures
        total_width(text) <= budget ==> clipped(text, budget) == shown(text, budget),
        total_width(text) > budget ==> {
            let cells = clipped(text, budget);
            &&& 1 <= cells.len() <= budget
            &&& cells.last() == seq!['\u{2026}']
            &&& cells.drop_last() == shown(text, (budget - 1) as nat)
        },
        clipped(text, 0) == Seq::<Seq<char>>::empty(),
{
    lemma_shown_fits(text, (budget - 1) as nat);
    if total_width(text) > budget {
        assert(clipped(text, budget).drop_last() =~= shown(text, (budget - 1) as nat));
    }
}

proof fn lemma_narrow_prefix(text: Seq<char>, i: int)
    requires
        0 <= i <= text.len(),
        forall|j: int| 0 <= j < text.len() ==> display_width(#[trigger] text[j]) == Some(1usize),
    ensures
        total_width(text.take(i)) == i,
    decreases i,
{
    if i > 0 {
        lemma_narrow_prefix(text, i - 1);
        lemma_width_of_prefix(text, i - 1);
    } else {
        assert(text.take(0) =~= Seq::<char>::empty());
    }
}

/// A text of one-cell characters is clipped like a line of print: all of it where
/// it fits, else all but the last cell's worth and the mark.
pub proof fn law_a_narrow_text_is_clipped_to_the_cell(text: Seq<char>, budget: nat)
    requires
        budget > 0,
        forall|j: int| 0 <= j < text.len() ==> display_width(#[trigger] text[j]) == Some(1usize),
    ensures
        text.len() <= budget ==> clipped(text, budget) == Seq::new(
            text.len(),
            |i: int| seq![text[i]],
        ),
        text.len() > budget ==> clipped(text, budget) == Seq::new(
            (budget - 1) as nat,
            |i: int| seq![text[i]],
        ).push(seq!['\u{2026}']),
{
    lemma_narrow_prefix(text, text.len() as int);
    assert(text.take(text.len() as int) =~= text);
    if text.len() <= budget {
        lemma_narrow_shown(text, budget);
    } else {
        lemma_narrow_shown(text, (budget - 1) as nat);
    }
}

proof fn lemma_narrow_shown(text: Seq<char>, budget: nat)
    requires
        forall|j: int| 0 <= j < text.len() ==> display_width(#[trigger] text[j]) == Some(1usize),
    ensures
        shown(text, budget) == Seq::new(
            if text.len() <= budget {
                text.len()
            } else {
                budget
            },
            |i: int| seq![text[i]],
        ),
{
    let n: nat = if text.len() <= budget {
        text.len()
    } else {
        budget
    };
    lemma_narrow_prefix(text, text.len() as int);
    assert(text.take(text.len() as int) =~= text);
    lemma_shown_fits(text, budget);
    if text.len() > budget {
        lemma_narrow_prefix(text, n as int);
        law_the_text_ends_where_it_no_longer_fits(text, budget, n as int);
    }
    let cells = shown(text, budget);
    assert(cells.len() == n);
    assert forall|i: int| 0 <= i < n implies #[trigger] cells[i] == seq![text[i]] by {
        lemma_narrow_prefix(text, i);
        law_each_character_has_its_place(text, budget, i);
        if i + 1 < text.len() {
            assert(display_width(text[i + 1]) == Some(1usize));
        }
    }
    assert(cells =~= Seq::new(n, |i: int| seq![text[i]]));
}

} // verus!
