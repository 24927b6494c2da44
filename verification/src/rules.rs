//! Growth, shrink and scoring rules shared by the single-snake and the
//! competitive simulators, with the laws that govern them.

use vstd::prelude::*;
use crate::grid::{Coord, in_bounds_spec, no_duplicates, all_in_bounds};

verus! {

/// Points gained when a snake eats the food.
pub const FOOD_REWARD: u32 = 10;

/// Points lost (floored at zero) when a snake hits the hazard.
pub const HAZARD_PENALTY: u32 = 5;

/// The body after the new head is prepended, before any tail removal.
pub open spec fn grown(body: Seq<Coord>, h: Coord) -> Seq<Coord> {
    seq![h] + body
}

/// The body after an ordinary move: new head prepended, tail removed.
pub open spec fn moved(body: Seq<Coord>, h: Coord) -> Seq<Coord> {
    grown(body, h).drop_last()
}

/// Length a body of length `n` shrinks to on hazard contact.
pub open spec fn shrunk_len(n: int) -> int {
    if n / 2 >= 1 {
        n / 2
    } else {
        1
    }
}

/// The body truncated to `max(1, len / 2)` after hazard contact.
pub open spec fn shrunk(body: Seq<Coord>) -> Seq<Coord> {
    body.take(shrunk_len(body.len() as int))
}

/// The score after the hazard penalty, floored at zero.
pub open spec fn penalized(score: int) -> int {
    if score >= HAZARD_PENALTY {
        score - HAZARD_PENALTY
    } else {
        0
    }
}

/// Membership in a grown body: the new head or an old segment.
pub proof fn lemma_grown_contains(body: Seq<Coord>, h: Coord, c: Coord)
    ensures
        grown(body, h).contains(c) <==> (c == h || body.contains(c)),
{
    if grown(body, h).contains(c) {
        let i = choose|i: int| 0 <= i < grown(body, h).len() && grown(body, h)[i] == c;
        if i > 0 {
            assert(body[i - 1] == c);
        }
    }
    if body.contains(c) {
        let i = choose|i: int| 0 <= i < body.len() && body[i] == c;
        assert(grown(body, h)[i + 1] == c);
    }
    if c == h {
        assert(grown(body, h)[0] == c);
    }
}

/// Membership in a moved body implies membership in the head-plus-old
/// body.
pub proof fn lemma_moved_contains(body: Seq<Coord>, h: Coord, c: Coord)
    ensures
        moved(body, h).contains(c) ==> (c == h || body.contains(c)),
{
    if moved(body, h).contains(c) {
        let i = choose|i: int| 0 <= i < moved(body, h).len() && moved(body, h)[i] == c;
        assert(grown(body, h)[i] == c);
        assert(grown(body, h).contains(c));
        lemma_grown_contains(body, h, c);
    }
}

/// Membership after appending one cell.
pub proof fn lemma_push_contains(s: Seq<Coord>, a: Coord, c: Coord)
    ensures
        s.push(a).contains(c) <==> (s.contains(c) || c == a),
{
    if s.push(a).contains(c) {
        let i = choose|i: int| 0 <= i < s.push(a).len() && s.push(a)[i] == c;
        if i < s.len() {
            assert(s[i] == c);
        }
    }
    if s.contains(c) {
        let i = choose|i: int| 0 <= i < s.len() && s[i] == c;
        assert(s.push(a)[i] == c);
    }
    if c == a {
        assert(s.push(a)[s.len() as int] == c);
    }
}

/// Membership in a concatenation of two bodies.
pub proof fn lemma_concat_contains(a: Seq<Coord>, b: Seq<Coord>, c: Coord)
    ensures
        (a + b).contains(c) <==> (a.contains(c) || b.contains(c)),
{
    if (a + b).contains(c) {
        let i = choose|i: int| 0 <= i < (a + b).len() && (a + b)[i] == c;
        if i < a.len() {
            assert(a[i] == c);
        } else {
            assert(b[i - a.len()] == c);
        }
    }
    if a.contains(c) {
        let i = choose|i: int| 0 <= i < a.len() && a[i] == c;
        assert((a + b)[i] == c);
    }
    if b.contains(c) {
        let i = choose|i: int| 0 <= i < b.len() && b[i] == c;
        assert((a + b)[a.len() + i] == c);
    }
}

/// Prepending a fresh on-grid head preserves body well-formedness.
pub proof fn lemma_grown_wf(body: Seq<Coord>, h: Coord)
    requires
        no_duplicates(body),
        all_in_bounds(body),
        !body.contains(h),
        in_bounds_spec(h),
    ensures
        no_duplicates(grown(body, h)),
        all_in_bounds(grown(body, h)),
{
    let g = grown(body, h);
    assert forall|i: int, j: int| 0 <= i < g.len() && 0 <= j < g.len() && i != j implies g[i]
        != g[j] by {
        if i == 0 {
            assert(g[j] == body[j - 1]);
            assert(body.contains(body[j - 1]));
        } else if j == 0 {
            assert(g[i] == body[i - 1]);
            assert(body.contains(body[i - 1]));
        } else {
            assert(g[i] == body[i - 1] && g[j] == body[j - 1]);
        }
    }
    assert forall|i: int| 0 <= i < g.len() implies in_bounds_spec(#[trigger] g[i]) by {
        if i > 0 {
            assert(g[i] == body[i - 1]);
        }
    }
}

/// A prefix of a well-formed body is well-formed, and keeps only cells
/// the body already had.
pub proof fn lemma_prefix_wf(body: Seq<Coord>, k: int)
    requires
        0 <= k <= body.len(),
        no_duplicates(body),
        all_in_bounds(body),
    ensures
        no_duplicates(body.take(k)),
        all_in_bounds(body.take(k)),
        forall|c: Coord| #[trigger] body.take(k).contains(c) ==> body.contains(c),
{
    assert forall|c: Coord| #[trigger] body.take(k).contains(c) implies body.contains(c) by {
        let i = choose|i: int| 0 <= i < k && body.take(k)[i] == c;
        assert(body[i] == c);
    }
}

/// Growth law, food half: consuming food adds exactly one segment, so
/// the body never gets shorter.
pub proof fn lemma_food_growth(body: Seq<Coord>, h: Coord)
    ensures
        grown(body, h).len() == body.len() + 1,
{
}

/// Growth law, hazard half: hazard contact truncates the body to
/// `max(1, len / 2)`, which never exceeds the old length.
pub proof fn lemma_hazard_shrink(body: Seq<Coord>)
    requires
        body.len() >= 1,
    ensures
        shrunk(body).len() == shrunk_len(body.len() as int),
        1 <= shrunk(body).len() <= body.len(),
{
}

/// Score floor: the hazard penalty clamps at zero, so a non-negative
/// score stays non-negative and never grows from a penalty.
pub proof fn lemma_score_floor(score: int)
    requires
        score >= 0,
    ensures
        0 <= penalized(score) <= score,
{
}

} // verus!
