//! What is made of each element of a list, one after the other.

use vstd::prelude::*;

verus! {

use crate::tokens::Token;

/// What adds something for the last element, behind what there is for those before it, adds
/// something for every element.
pub(crate) proof fn lemma_flat_map<T>(
    items: Seq<T>,
    f: spec_fn(T) -> Seq<Token>,
    g: spec_fn(Seq<T>) -> Seq<Token>,
)
    requires
        g(Seq::empty()) == Seq::<Token>::empty(),
        forall|s: Seq<T>| s.len() > 0 ==> g(s) == #[trigger] g(s.drop_last()) + f(s.last()),
    ensures
        g(items) == items.flat_map(f),
    decreases items.len(),
{
    broadcast use Seq::lemma_flatten_push;

    if items.len() == 0 {
        assert(items =~= Seq::empty());
        assert(items.map_values(f).flatten() =~= Seq::empty());
    } else {
        lemma_flat_map(items.drop_last(), f, g);
        assert(items.map_values(f) =~= items.drop_last().map_values(f).push(f(items.last())));
        assert(g(items) == g(items.drop_last()) + f(items.last()));
    }
}

/// The same, where elements can be left out.
pub(crate) proof fn lemma_filter_map<T, U>(
    items: Seq<T>,
    f: spec_fn(T) -> Option<U>,
    g: spec_fn(Seq<T>) -> Seq<U>,
)
    requires
        g(Seq::empty()) == Seq::<U>::empty(),
        forall|s: Seq<T>|
            s.len() > 0 ==> g(s) == match f(s.last()) {
                Some(made) => (#[trigger] g(s.drop_last())).push(made),
                None => g(s.drop_last()),
            },
    ensures
        g(items) == items.filter_map(f),
    decreases items.len(),
{
    if items.len() == 0 {
        assert(items =~= Seq::empty());
    } else {
        lemma_filter_map(items.drop_last(), f, g);
        assert(g(items) == match f(items.last()) {
            Some(made) => g(items.drop_last()).push(made),
            None => g(items.drop_last()),
        });
    }
}

/// What is made of one element stands behind what is made of those before it.
pub(crate) proof fn lemma_flat_map_split<T>(items: Seq<T>, f: spec_fn(T) -> Seq<Token>, k: int)
    requires
        0 <= k < items.len(),
    ensures
        items.flat_map(f) == items.take(k).flat_map(f) + f(items[k]) + items.skip(k + 1).flat_map(
            f,
        ),
    decreases items.len(),
{
    broadcast use Seq::lemma_flatten_push;

    let before = items.drop_last();
    assert(items.map_values(f) =~= before.map_values(f).push(f(items.last())));
    if k == before.len() {
        assert(items.take(k) =~= before);
        assert(items.skip(k + 1).map_values(f).flatten() =~= Seq::empty());
        assert(items.flat_map(f) =~= before.flat_map(f) + f(items[k]) + Seq::empty());
    } else {
        lemma_flat_map_split(before, f, k);
        assert(before.take(k) =~= items.take(k));
        let (a, b) = (before.skip(k + 1), items.skip(k + 1));
        assert(b.map_values(f) =~= a.map_values(f).push(f(items.last())));
        assert(items.flat_map(f) =~= items.take(k).flat_map(f) + f(items[k]) + (a.flat_map(f) + f(
            items.last(),
        )));
    }
}

/// Whether some tokens stand, one directly behind the other, among others.
pub open spec fn occurs_in(part: Seq<Token>, whole: Seq<Token>) -> bool {
    exists|before: Seq<Token>, after: Seq<Token>| whole == #[trigger] (before + part + after)
}

pub(crate) proof fn lemma_occurs(before: Seq<Token>, part: Seq<Token>, after: Seq<Token>)
    ensures
        occurs_in(part, before + part + after),
{
}

/// What occurs in a part occurs in the whole.
pub(crate) proof fn lemma_occurs_within(inner: Seq<Token>, part: Seq<Token>, whole: Seq<Token>)
    requires
        occurs_in(inner, part),
        occurs_in(part, whole),
    ensures
        occurs_in(inner, whole),
{
    let (a, b) = choose|a: Seq<Token>, b: Seq<Token>| part == #[trigger] (a + inner + b);
    let (c, d) = choose|c: Seq<Token>, d: Seq<Token>| whole == #[trigger] (c + part + d);
    assert(whole =~= (c + a) + inner + (b + d));
}

/// What is made of an element occurs in what is made of all.
pub(crate) proof fn lemma_occurs_in_flat_map<T>(
    items: Seq<T>,
    f: spec_fn(T) -> Seq<Token>,
    k: int,
)
    requires
        0 <= k < items.len(),
    ensures
        occurs_in(f(items[k]), items.flat_map(f)),
{
    lemma_flat_map_split(items, f, k);
}

} // verus!
