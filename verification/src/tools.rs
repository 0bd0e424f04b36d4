//! The average verdict of a tool over the stacks that use it.
use vstd::prelude::*;
use crate::text;
use crate::text::{chars_eq, chars_of, split_chars, string_of, trim_chars};

verus! {

broadcast use vstd::string::group_string_axioms;

/// The score of a verdict, from `love` (4) down to `regret` (1); any other
/// word scores nothing.
pub open spec fn verdict_score(v: Seq<char>) -> Option<int> {
    if v == "love"@ {
        Some(4)
    } else if v == "good"@ {
        Some(3)
    } else if v == "meh"@ {
        Some(2)
    } else if v == "regret"@ {
        Some(1)
    } else {
        None
    }
}

/// The sum and the number of the scores of the (trimmed) pieces.
pub open spec fn score_total(pieces: Seq<Seq<char>>) -> (int, int)
    decreases pieces.len(),
{
    if pieces.len() == 0 {
        (0, 0)
    } else {
        let (s, c) = score_total(pieces.drop_last());
        match verdict_score(text::trim(pieces.last())) {
            Some(v) => (s + v, c + 1),
            None => (s, c),
        }
    }
}

/// The verdict nearest to the mean score `sum / count`: `love` from 3.5 up,
/// `good` from 2.5, `meh` from 1.5, else `regret`; `unknown` without scores.
pub open spec fn average_label(sum: int, count: int) -> Seq<char> {
    if count == 0 {
        "unknown"@
    } else if 2 * sum >= 7 * count {
        "love"@
    } else if 2 * sum >= 5 * count {
        "good"@
    } else if 2 * sum >= 3 * count {
        "meh"@
    } else {
        "regret"@
    }
}

/// The average verdict of a comma-separated list of verdicts.
pub open spec fn average_verdict(csv: Seq<char>) -> Seq<char> {
    let (s, c) = score_total(text::split(csv, ','));
    average_label(s, c)
}

fn score_of(v: &Vec<char>) -> (r: Option<u8>)
    ensures
        match r {
            Some(x) => verdict_score(v@) == Some(x as int),
            None => verdict_score(v@) is None,
        },
{
    if chars_eq(v, &chars_of("love")) {
        Some(4)
    } else if chars_eq(v, &chars_of("good")) {
        Some(3)
    } else if chars_eq(v, &chars_of("meh")) {
        Some(2)
    } else if chars_eq(v, &chars_of("regret")) {
        Some(1)
    } else {
        None
    }
}

/// The average verdict of a comma-separated list of verdicts: each piece is
/// trimmed and scored, unknown words are skipped, and the mean score is
/// named by `average_label`.
pub fn compute_avg_verdict(verdicts_csv: &str) -> (r: String)
    ensures
        r@ == average_verdict(verdicts_csv@),
{
    let pieces = split_chars(&chars_of(verdicts_csv), ',');
    let ghost all = text::split(verdicts_csv@, ',');
    let mut sum: u128 = 0;
    let mut count: usize = 0;
    let mut i: usize = 0;
    assert(all.take(0) =~= Seq::<Seq<char>>::empty());
    while i < pieces.len()
        invariant
            i <= pieces.len(),
            text::pieces_view(pieces@) == all,
            all.len() == pieces@.len(),
            score_total(all.take(i as int)) == (sum as int, count as int),
            count <= i,
            sum <= 4 * count,
        decreases pieces.len() - i,
    {
        let p = trim_chars(&pieces[i]);
        assert(all.take(i + 1).drop_last() =~= all.take(i as int));
        assert(all.take(i + 1).last() == pieces@[i as int]@);
        match score_of(&p) {
            Some(v) => {
                sum = sum + v as u128;
                count = count + 1;
            },
            None => {},
        }
        i += 1;
    }
    assert(all.take(i as int) =~= all);
    if count == 0 {
        string_of("unknown")
    } else if 2 * sum >= 7 * (count as u128) {
        string_of("love")
    } else if 2 * sum >= 5 * (count as u128) {
        string_of("good")
    } else if 2 * sum >= 3 * (count as u128) {
        string_of("meh")
    } else {
        string_of("regret")
    }
}

// ---------------------------------------------------------------------------
// What the average depends on
// ---------------------------------------------------------------------------

/// Whether a piece of the list, once trimmed, is one of the four verdicts.
pub open spec fn is_verdict_piece(p: Seq<char>) -> bool {
    verdict_score(text::trim(p)) is Some
}

/// The pieces that are verdicts, in order.
pub open spec fn verdict_pieces(pieces: Seq<Seq<char>>) -> Seq<Seq<char>> {
    pieces.filter(|p: Seq<char>| is_verdict_piece(p))
}

/// The tally of two lists one after the other is the sum of their tallies.
pub proof fn lemma_score_total_concat(a: Seq<Seq<char>>, b: Seq<Seq<char>>)
    ensures
        score_total(a + b) == (score_total(a).0 + score_total(b).0, score_total(a).1
            + score_total(b).1),
    decreases b.len(),
{
    if b.len() == 0 {
        assert(a + b =~= a);
    } else {
        lemma_score_total_concat(a, b.drop_last());
        assert((a + b).drop_last() =~= a + b.drop_last());
    }
}

/// Reordering the pieces leaves the tally as it is.
pub proof fn lemma_score_total_reorder(p: Seq<Seq<char>>, q: Seq<Seq<char>>)
    requires
        p.to_multiset() == q.to_multiset(),
    ensures
        score_total(p) == score_total(q),
    decreases p.len(),
{
    broadcast use vstd::seq_lib::group_to_multiset_ensures;

    if p.len() == 0 {
        assert(p.to_multiset().len() == 0);
        assert(q.to_multiset().len() == 0);
        assert(p =~= q);
    } else {
        let x = p.last();
        assert(p.contains(x)) by {
            assert(p[p.len() - 1] == x);
        }
        assert(q.to_multiset().count(x) > 0);
        assert(q.contains(x));
        let j = choose|j: int| 0 <= j < q.len() && q[j] == x;
        assert(p.drop_last() =~= p.remove(p.len() - 1));
        lemma_score_total_reorder(p.drop_last(), q.remove(j));
        let a = q.subrange(0, j);
        let b = q.subrange(j + 1, q.len() as int);
        assert(q =~= (a + seq![x]) + b);
        assert(q.remove(j) =~= a + b);
        lemma_score_total_concat(a + seq![x], b);
        lemma_score_total_concat(a, b);
        lemma_score_total_concat(a, seq![x]);
        assert(seq![x].drop_last() =~= Seq::<Seq<char>>::empty());
        assert(score_total(Seq::<Seq<char>>::empty()) == (0int, 0int));
        let one = score_total(seq![x]);
        assert(one == match verdict_score(text::trim(x)) {
            Some(v) => (v, 1int),
            None => (0int, 0int),
        });
        assert(score_total(p) == (score_total(p.drop_last()).0 + one.0, score_total(p.drop_last()).1
            + one.1));
        assert(score_total(q) == (score_total(a + b).0 + one.0, score_total(a + b).1 + one.1));
    }
}

/// Pieces that are not verdicts count for nothing in the tally.
pub proof fn lemma_score_total_verdict_pieces(p: Seq<Seq<char>>)
    ensures
        score_total(verdict_pieces(p)) == score_total(p),
    decreases p.len(),
{
    reveal(Seq::filter);
    if p.len() > 0 {
        lemma_score_total_verdict_pieces(p.drop_last());
        let rest = verdict_pieces(p.drop_last());
        let x = p.last();
        assert(rest.push(x).drop_last() =~= rest);
        if is_verdict_piece(x) {
            assert(verdict_pieces(p) == rest.push(x));
        } else {
            assert(verdict_pieces(p) == rest);
        }
    }
}

/// The average verdict depends only on which verdicts the list holds and how
/// often: reordering the pieces, or adding pieces that are not verdicts
/// (after trimming), leaves it as it is.
pub proof fn lemma_average_verdict_depends_on_verdicts_only(csv: Seq<char>, csv2: Seq<char>)
    requires
        verdict_pieces(text::split(csv2, ',')).to_multiset() == verdict_pieces(
            text::split(csv, ','),
        ).to_multiset(),
    ensures
        average_verdict(csv2) == average_verdict(csv),
{
    let p = text::split(csv, ',');
    let q = text::split(csv2, ',');
    lemma_score_total_verdict_pieces(p);
    lemma_score_total_verdict_pieces(q);
    lemma_score_total_reorder(verdict_pieces(q), verdict_pieces(p));
}

/// The average verdict is one of `love`, `good`, `meh`, `regret` and
/// `unknown`.
pub proof fn lemma_average_verdict_is_a_word(csv: Seq<char>)
    ensures
        average_verdict(csv) == "love"@ || average_verdict(csv) == "good"@ || average_verdict(csv)
            == "meh"@ || average_verdict(csv) == "regret"@ || average_verdict(csv) == "unknown"@,
{
}

} // verus!
