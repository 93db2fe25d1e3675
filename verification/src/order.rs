//! Texts in order: the order of texts, and lists that are sorted by it.

use vstd::prelude::*;

use crate::text;
use crate::text::{chars_of, same_text};

verus! {

/// The order of texts: by their first characters that differ, a text before the
/// texts that it is a proper prefix of.
pub open spec fn text_less(a: Seq<char>, b: Seq<char>) -> bool
    decreases a.len(),
{
    if b.len() == 0 {
        false
    } else if a.len() == 0 {
        true
    } else if a[0] != b[0] {
        a[0] < b[0]
    } else {
        text_less(a.drop_first(), b.drop_first())
    }
}

/// A sorted list without duplicates.
pub open spec fn is_sorted(ids: Seq<Seq<char>>) -> bool {
    forall|i: int, j: int| 0 <= i < j < ids.len() ==> text_less(#[trigger] ids[i], #[trigger] ids[j])
}

/// Where a text belongs in a sorted list: behind the last one that is less.
pub open spec fn place(ids: Seq<Seq<char>>, id: Seq<char>) -> int
    decreases ids.len(),
{
    if ids.len() == 0 {
        0
    } else if text_less(ids.last(), id) {
        ids.len() as int
    } else {
        place(ids.drop_last(), id)
    }
}

/// Whether a text stands at its place.
pub open spec fn placed(ids: Seq<Seq<char>>, id: Seq<char>) -> bool {
    let p = place(ids, id);
    p < ids.len() && ids[p] == id
}

/// A sorted list with one more text, unless it is there.
pub open spec fn put_text(ids: Seq<Seq<char>>, id: Seq<char>) -> Seq<Seq<char>> {
    if placed(ids, id) {
        ids
    } else {
        ids.insert(place(ids, id), id)
    }
}

pub proof fn lemma_less_irreflexive(a: Seq<char>)
    ensures
        !text_less(a, a),
    decreases a.len(),
{
    if a.len() > 0 {
        lemma_less_irreflexive(a.drop_first());
    }
}

pub proof fn lemma_less_transitive(a: Seq<char>, b: Seq<char>, c: Seq<char>)
    requires
        text_less(a, b),
        text_less(b, c),
    ensures
        text_less(a, c),
    decreases a.len(),
{
    if a.len() > 0 && a[0] == b[0] && b[0] == c[0] {
        lemma_less_transitive(a.drop_first(), b.drop_first(), c.drop_first());
    }
}

pub proof fn lemma_less_total(a: Seq<char>, b: Seq<char>)
    ensures
        text_less(a, b) || text_less(b, a) || a == b,
    decreases a.len(),
{
    if a.len() > 0 && b.len() > 0 && a[0] == b[0] {
        lemma_less_total(a.drop_first(), b.drop_first());
        if a.drop_first() == b.drop_first() {
            assert(a =~= seq![a[0]] + a.drop_first());
            assert(b =~= seq![b[0]] + b.drop_first());
        }
    } else if a.len() == 0 && b.len() == 0 {
        assert(a =~= b);
    }
}

proof fn lemma_place(ids: Seq<Seq<char>>, id: Seq<char>)
    ensures
        0 <= place(ids, id) <= ids.len(),
        place(ids, id) > 0 ==> text_less(ids[place(ids, id) - 1], id),
        forall|i: int| place(ids, id) <= i < ids.len() ==> !text_less(#[trigger] ids[i], id),
    decreases ids.len(),
{
    if ids.len() > 0 && !text_less(ids.last(), id) {
        lemma_place(ids.drop_last(), id);
        let p = place(ids, id);
        assert forall|i: int| p <= i < ids.len() implies !text_less(#[trigger] ids[i], id) by {
            if i < ids.len() - 1 {
                assert(ids.drop_last()[i] == ids[i]);
            }
        }
    }
}

/// In a sorted list, the texts before the place of a text are less and those
/// behind it are greater, so that the text is in the list exactly if it stands at
/// its place.
pub proof fn lemma_place_sorted(ids: Seq<Seq<char>>, id: Seq<char>)
    requires
        is_sorted(ids),
    ensures
        0 <= place(ids, id) <= ids.len(),
        forall|i: int| 0 <= i < place(ids, id) ==> text_less(#[trigger] ids[i], id),
        forall|i: int|
            place(ids, id) <= i < ids.len() && !(i == place(ids, id) && ids[i] == id)
                ==> text_less(id, #[trigger] ids[i]),
        placed(ids, id) <==> ids.contains(id),
{
    let p = place(ids, id);
    lemma_place(ids, id);
    assert forall|i: int| 0 <= i < p implies text_less(#[trigger] ids[i], id) by {
        if i < p - 1 {
            lemma_less_transitive(ids[i], ids[p - 1], id);
        }
    }
    assert forall|i: int| p <= i < ids.len() && !(i == p && ids[i] == id) implies text_less(
        id,
        #[trigger] ids[i],
    ) by {
        lemma_less_total(id, ids[i]);
        if i > p {
            lemma_less_total(id, ids[p]);
            if ids[i] == id {
                assert(text_less(ids[p], ids[i]));
            }
        }
    }
    if ids.contains(id) {
        let k = choose|k: int| 0 <= k < ids.len() && ids[k] == id;
        lemma_less_irreflexive(id);
        if k != p {
            if k < p {
                assert(text_less(ids[k], id));
            } else {
                assert(text_less(id, ids[k]));
            }
        }
    }
}

/// A text that is put into a sorted list leaves it sorted; it and the texts of
/// the list are in it then, and nothing else.
pub proof fn law_put_keeps_order(ids: Seq<Seq<char>>, id: Seq<char>)
    requires
        is_sorted(ids),
    ensures
        is_sorted(put_text(ids, id)),
        forall|x: Seq<char>|
            #[trigger] put_text(ids, id).contains(x) <==> x == id || ids.contains(x),
{
    lemma_place_sorted(ids, id);
    let p = place(ids, id);
    if !placed(ids, id) {
        let r = ids.insert(p, id);
        assert forall|i: int, j: int| 0 <= i < j < r.len() implies text_less(
            #[trigger] r[i],
            #[trigger] r[j],
        ) by {
            let i0 = if i > p {
                i - 1
            } else {
                i
            };
            let j0 = if j > p {
                j - 1
            } else {
                j
            };
            if i != p && j != p {
                assert(r[i] == ids[i0] && r[j] == ids[j0]);
            } else if i == p {
                assert(r[j] == ids[j0]);
            } else {
                assert(r[i] == ids[i0]);
            }
        }
        assert forall|x: Seq<char>| #[trigger]
            put_text(ids, id).contains(x) <==> x == id || ids.contains(x) by {
            if r.contains(x) {
                let k = choose|k: int| 0 <= k < r.len() && r[k] == x;
                if k < p {
                    assert(ids[k] == x);
                } else if k > p {
                    assert(ids[k - 1] == x);
                }
            }
            if ids.contains(x) {
                let k = choose|k: int| 0 <= k < ids.len() && ids[k] == x;
                if k < p {
                    assert(r[k] == x);
                } else {
                    assert(r[k + 1] == x);
                }
            }
            assert(r[p] == id);
        }
    }
}

/// Whether one text comes before another.
pub fn text_precedes(a: &str, b: &str) -> (r: bool)
    ensures
        r == text_less(a@, b@),
{
    let x = chars_of(a);
    let y = chars_of(b);
    let mut i: usize = 0;
    assert(a@.skip(0) =~= a@);
    assert(b@.skip(0) =~= b@);
    while i < x.len() && i < y.len() && x[i] == y[i]
        invariant
            i <= x@.len(),
            i <= y@.len(),
            x@ == a@,
            y@ == b@,
            text_less(a@, b@) == text_less(a@.skip(i as int), b@.skip(i as int)),
        decreases x@.len() - i,
    {
        assert(a@.skip(i as int).drop_first() =~= a@.skip(i + 1));
        assert(b@.skip(i as int).drop_first() =~= b@.skip(i + 1));
        i += 1;
    }
    if i >= y.len() {
        false
    } else if i >= x.len() {
        true
    } else {
        x[i] < y[i]
    }
}

/// Puts a text into a sorted list; the result says whether it was not there.
pub fn insert_text(ids: &mut Vec<String>, id: String) -> (r: bool)
    ensures
        text::texts(final(ids)@) == put_text(text::texts(old(ids)@), id@),
        r == !placed(text::texts(old(ids)@), id@),
{
    let ghost all = text::texts(ids@);
    let mut p: usize = ids.len();
    assert(all.take(p as int) =~= all);
    while p > 0 && !text_precedes(ids[p - 1].as_str(), id.as_str())
        invariant
            p <= ids@.len(),
            all == text::texts(ids@),
            place(all, id@) == place(all.take(p as int), id@),
        decreases p,
    {
        assert(all.take(p as int).last() == ids@[p - 1]@);
        assert(all.take(p as int).drop_last() =~= all.take(p - 1));
        p -= 1;
    }
    proof {
        if p > 0 {
            assert(all.take(p as int).last() == ids@[p - 1]@);
        }
        assert(place(all, id@) == p);
    }
    if p < ids.len() && same_text(ids[p].as_str(), id.as_str()) {
        assert(all[p as int] == ids@[p as int]@);
        return false;
    }
    assert(p < ids@.len() ==> all[p as int] == ids@[p as int]@);
    ids.insert(p, id);
    assert(text::texts(ids@) =~= all.insert(p as int, id@));
    true
}

} // verus!
