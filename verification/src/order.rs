//! The order of texts, and sorting by it.

use crate::text::{chars_of, texts};
use vstd::prelude::*;

verus! {

/// `a` is `b` or stands before it: character by character, by code point, and the shorter
/// first where one begins with the other.
pub open spec fn text_le(a: Seq<char>, b: Seq<char>) -> bool
    decreases a.len(),
{
    if a.len() == 0 {
        true
    } else if b.len() == 0 {
        false
    } else if a[0] == b[0] {
        text_le(a.skip(1), b.skip(1))
    } else {
        (a[0] as int) < b[0] as int
    }
}

/// The texts stand in order.
pub open spec fn in_order(v: Seq<Seq<char>>) -> bool {
    forall|i: int, j: int| 0 <= i <= j < v.len() ==> text_le(#[trigger] v[i], #[trigger] v[j])
}

/// Whether `a` is `b` or stands before it.
pub fn stands_before(a: &str, b: &str) -> (r: bool)
    ensures
        r == text_le(a@, b@),
{
    let x = chars_of(a);
    let y = chars_of(b);
    let mut i: usize = 0;
    assert(a@.skip(0) =~= a@);
    assert(b@.skip(0) =~= b@);
    while i < x.len() && i < y.len() && x[i] == y[i]
        invariant
            i <= x@.len(),
            i <= y@.len(),
            x@ == a@,
            y@ == b@,
            text_le(a@, b@) == text_le(a@.skip(i as int), b@.skip(i as int)),
        decreases x@.len() - i,
    {
        assert(a@.skip(i as int).skip(1) =~= a@.skip(i + 1));
        assert(b@.skip(i as int).skip(1) =~= b@.skip(i + 1));
        i = i + 1;
    }
    if i == x.len() {
        true
    } else if i == y.len() {
        false
    } else {
        x[i] < y[i]
    }
}

/// Of two texts one stands before the other, or they are the same.
pub proof fn law_text_order_is_total(a: Seq<char>, b: Seq<char>)
    ensures
        text_le(a, b) || text_le(b, a),
        text_le(a, b) && text_le(b, a) ==> a == b,
    decreases a.len(),
{
    if a.len() > 0 && b.len() > 0 && a[0] == b[0] {
        law_text_order_is_total(a.skip(1), b.skip(1));
        if text_le(a, b) && text_le(b, a) {
            assert(a =~= seq![a[0]] + a.skip(1));
            assert(b =~= seq![b[0]] + b.skip(1));
        }
    } else if a.len() == 0 && b.len() == 0 {
        assert(a =~= b);
    }
}

/// What stands before a text stands before all that follow that text.
pub proof fn law_text_order_is_transitive(a: Seq<char>, b: Seq<char>, c: Seq<char>)
    requires
        text_le(a, b),
        text_le(b, c),
    ensures
        text_le(a, c),
    decreases a.len(),
{
    if a.len() > 0 && b.len() > 0 && c.len() > 0 && a[0] == b[0] && b[0] == c[0] {
        law_text_order_is_transitive(a.skip(1), b.skip(1), c.skip(1));
    }
}

/// Sorts the strings by their texts.
pub fn sort_texts(v: &mut Vec<String>)
    ensures
        in_order(texts(final(v)@)),
        texts(final(v)@).to_multiset() == texts(old(v)@).to_multiset(),
{
    broadcast use vstd::seq_lib::group_to_multiset_ensures;

    let mut sorted: Vec<String> = Vec::new();
    let ghost all = texts(v@);
    while v.len() > 0
        invariant
            in_order(texts(sorted@)),
            texts(sorted@).to_multiset().add(texts(v@).to_multiset()) =~= all.to_multiset(),
            all == texts(old(v)@),
        decreases v@.len(),
    {
        let ghost unsorted = texts(v@);
        let ghost before = texts(sorted@);
        if let Some(s) = v.pop() {
            let mut i: usize = sorted.len();
            while i > 0 && !stands_before(sorted[i - 1].as_str(), s.as_str())
                invariant
                    i <= sorted@.len(),
                    texts(sorted@) == before,
                    in_order(before),
                    forall|j: int| i <= j < before.len() ==> text_le(s@, #[trigger] before[j]),
                decreases i,
            {
                proof {
                    law_text_order_is_total(before[i - 1], s@);
                }
                i = i - 1;
            }
            assert(forall|j: int| 0 <= j < i ==> text_le(#[trigger] before[j], s@)) by {
                if i > 0 {
                    assert forall|j: int| 0 <= j < i implies text_le(#[trigger] before[j], s@) by {
                        law_text_order_is_transitive(before[j], before[i - 1], s@);
                    }
                }
            }
            assert(unsorted =~= texts(v@).push(s@));
            sorted.insert(i, s);
            assert(texts(sorted@) =~= before.insert(i as int, s@));
            proof {
                law_text_order_is_total(s@, s@);
                before.insert_ensures(i as int, s@);
                vstd::seq_lib::to_multiset_insert(before, i as int, s@);
                vstd::seq_lib::to_multiset_build(texts(v@), s@);
            }
            assert(unsorted.to_multiset() == texts(v@).to_multiset().insert(s@));
            assert(before.to_multiset().add(texts(v@).to_multiset().insert(s@)) =~= texts(
                sorted@,
            ).to_multiset().add(texts(v@).to_multiset()));
        }
    }
    assert(texts(v@) =~= Seq::<Seq<char>>::empty());
    assert(texts(sorted@).to_multiset() =~= all.to_multiset());
    *v = sorted;
}

/// The first character in which two texts differ decides which stands before the other.
pub proof fn law_first_difference_decides(
    common: Seq<char>,
    x: char,
    a: Seq<char>,
    y: char,
    b: Seq<char>,
)
    requires
        x != y,
    ensures
        text_le(common + seq![x] + a, common + seq![y] + b) <==> (x as int) < y as int,
    decreases common.len(),
{
    let s = common + seq![x] + a;
    let t = common + seq![y] + b;
    if common.len() > 0 {
        law_first_difference_decides(common.skip(1), x, a, y, b);
        assert(s.skip(1) =~= common.skip(1) + seq![x] + a);
        assert(t.skip(1) =~= common.skip(1) + seq![y] + b);
    }
}

/// A text stands before all that begin with it.
pub proof fn law_beginning_stands_before(a: Seq<char>, b: Seq<char>)
    ensures
        text_le(a, a + b),
        b.len() > 0 ==> !text_le(a + b, a),
    decreases a.len(),
{
    if a.len() > 0 {
        law_beginning_stands_before(a.skip(1), b);
        assert((a + b).skip(1) =~= a.skip(1) + b);
    }
}

} // verus!
