use vstd::prelude::*;

verus! {

/// The position of the first item of `s` that satisfies `p`, if there is one.
pub open spec fn first_index<A>(s: Seq<A>, p: spec_fn(A) -> bool) -> Option<int>
    decreases s.len(),
{
    if s.len() == 0 {
        None
    } else {
        match first_index(s.drop_last(), p) {
            Some(i) => Some(i),
            None => if p(s.last()) {
                Some(s.len() - 1)
            } else {
                None
            },
        }
    }
}

/// `first_index` finds an item that satisfies `p` and has none before it, and
/// finds nothing only where no item satisfies `p`.
pub proof fn lemma_first_index<A>(s: Seq<A>, p: spec_fn(A) -> bool)
    ensures
        match first_index(s, p) {
            Some(i) => 0 <= i < s.len() && p(s[i]) && forall|j: int| 0 <= j < i ==> !p(s[j]),
            None => forall|j: int| 0 <= j < s.len() ==> !p(s[j]),
        },
    decreases s.len(),
{
    if s.len() > 0 {
        lemma_first_index(s.drop_last(), p);
        match first_index(s.drop_last(), p) {
            Some(i) => {
                assert(s.drop_last()[i] == s[i]);
                assert forall|j: int| 0 <= j < i implies !p(s[j]) by {
                    assert(s.drop_last()[j] == s[j]);
                }
            },
            None => {
                assert forall|j: int| 0 <= j < s.len() - 1 implies !p(s[j]) by {
                    assert(s.drop_last()[j] == s[j]);
                }
            },
        }
    }
}

/// An item that satisfies `p` and has none before it is what `first_index`
/// finds.
pub proof fn lemma_first_index_is<A>(s: Seq<A>, p: spec_fn(A) -> bool, i: int)
    requires
        0 <= i < s.len(),
        p(s[i]),
        forall|j: int| 0 <= j < i ==> !p(s[j]),
    ensures
        first_index(s, p) == Some(i),
{
    lemma_first_index(s, p);
}

/// Where no item satisfies `p`, `first_index` finds nothing.
pub proof fn lemma_first_index_none<A>(s: Seq<A>, p: spec_fn(A) -> bool)
    requires
        forall|j: int| 0 <= j < s.len() ==> !p(s[j]),
    ensures
        first_index(s, p) is None,
{
    lemma_first_index(s, p);
}

/// Filtering a sequence with one more item at its end.
pub proof fn lemma_filter_push<A>(s: Seq<A>, x: A, p: spec_fn(A) -> bool)
    ensures
        s.push(x).filter(p) == if p(x) {
            s.filter(p).push(x)
        } else {
            s.filter(p)
        },
{
    reveal(Seq::filter);
    assert(s.push(x).drop_last() =~= s);
}

/// Filtering the first `i + 1` items of a sequence.
pub proof fn lemma_filter_take_step<A>(s: Seq<A>, i: int, p: spec_fn(A) -> bool)
    requires
        0 <= i < s.len(),
    ensures
        s.take(i + 1).filter(p) == if p(s[i]) {
            s.take(i).filter(p).push(s[i])
        } else {
            s.take(i).filter(p)
        },
{
    assert(s.take(i + 1) =~= s.take(i).push(s[i]));
    lemma_filter_push(s.take(i), s[i], p);
}

/// What a filter keeps: exactly the items of the sequence that satisfy `p`.
pub proof fn lemma_filter_members<A>(s: Seq<A>, p: spec_fn(A) -> bool)
    ensures
        forall|x: A| #[trigger] s.filter(p).contains(x) ==> s.contains(x) && p(x),
        forall|x: A| #[trigger] s.contains(x) && p(x) ==> s.filter(p).contains(x),
        s.filter(p).len() <= s.len(),
    decreases s.len(),
{
    reveal(Seq::filter);
    if s.len() == 0 {
        assert(s.filter(p) =~= Seq::empty());
    } else {
        let rest = s.drop_last();
        lemma_filter_members(rest, p);
        assert(s =~= rest.push(s.last()));
        lemma_filter_push(rest, s.last(), p);
        assert forall|x: A| #[trigger] s.filter(p).contains(x) implies s.contains(x) && p(x) by {
            if s.filter(p).contains(x) {
                let i = choose|i: int| 0 <= i < s.filter(p).len() && s.filter(p)[i] == x;
                if p(s.last()) && i == s.filter(p).len() - 1 {
                    assert(s[s.len() - 1] == x);
                } else {
                    assert(rest.filter(p)[i] == x);
                    assert(rest.filter(p).contains(x));
                    let j = choose|j: int| 0 <= j < rest.len() && rest[j] == x;
                    assert(s[j] == x);
                }
            }
        }
        assert forall|x: A| #[trigger] s.contains(x) && p(x) implies s.filter(p).contains(x) by {
            if s.contains(x) && p(x) {
                let j = choose|j: int| 0 <= j < s.len() && s[j] == x;
                if j == s.len() - 1 {
                    assert(s.filter(p).last() == x);
                } else {
                    assert(rest[j] == x);
                    assert(rest.filter(p).contains(x));
                    let i = choose|i: int| 0 <= i < rest.filter(p).len() && rest.filter(p)[i] == x;
                    assert(s.filter(p)[i] == x);
                }
            }
        }
    }
}

/// A filter of a sequence without repetitions has no repetitions.
pub proof fn lemma_filter_no_duplicates<A>(s: Seq<A>, p: spec_fn(A) -> bool)
    requires
        s.no_duplicates(),
    ensures
        s.filter(p).no_duplicates(),
    decreases s.len(),
{
    reveal(Seq::filter);
    if s.len() == 0 {
        assert(s.filter(p) =~= Seq::empty());
    } else {
        let rest = s.drop_last();
        assert(rest.no_duplicates());
        lemma_filter_no_duplicates(rest, p);
        assert(s =~= rest.push(s.last()));
        lemma_filter_push(rest, s.last(), p);
        lemma_filter_members(rest, p);
        if p(s.last()) {
            if rest.filter(p).contains(s.last()) {
                let j = choose|j: int| 0 <= j < rest.len() && rest[j] == s.last();
                assert(s[j] == s[s.len() - 1]);
            }
        }
    }
}

/// A filter that every item passes changes nothing.
pub proof fn lemma_filter_all<A>(s: Seq<A>, p: spec_fn(A) -> bool)
    requires
        forall|i: int| 0 <= i < s.len() ==> p(s[i]),
    ensures
        s.filter(p) == s,
    decreases s.len(),
{
    reveal(Seq::filter);
    if s.len() == 0 {
        assert(s.filter(p) =~= s);
    } else {
        let rest = s.drop_last();
        lemma_filter_all(rest, p);
        assert(s =~= rest.push(s.last()));
        lemma_filter_push(rest, s.last(), p);
    }
}

/// A filter that no item passes leaves nothing.
pub proof fn lemma_filter_none<A>(s: Seq<A>, p: spec_fn(A) -> bool)
    requires
        forall|i: int| 0 <= i < s.len() ==> !p(s[i]),
    ensures
        s.filter(p) == Seq::<A>::empty(),
    decreases s.len(),
{
    reveal(Seq::filter);
    if s.len() == 0 {
        assert(s.filter(p) =~= Seq::empty());
    } else {
        let rest = s.drop_last();
        lemma_filter_none(rest, p);
        assert(s =~= rest.push(s.last()));
        lemma_filter_push(rest, s.last(), p);
    }
}

/// The items that pass a filter and those that do not are all the items.
pub proof fn lemma_filter_split_len<A>(s: Seq<A>, p: spec_fn(A) -> bool, q: spec_fn(A) -> bool)
    requires
        forall|x: A| #[trigger] q(x) == !p(x),
    ensures
        s.filter(p).len() + s.filter(q).len() == s.len(),
    decreases s.len(),
{
    reveal(Seq::filter);
    if s.len() == 0 {
        assert(s.filter(p) =~= Seq::empty());
        assert(s.filter(q) =~= Seq::empty());
    } else {
        let rest = s.drop_last();
        lemma_filter_split_len(rest, p, q);
        assert(s =~= rest.push(s.last()));
        lemma_filter_push(rest, s.last(), p);
        lemma_filter_push(rest, s.last(), q);
    }
}

/// The items among the first `n` of `s` that satisfy `p`, in their order.
pub open spec fn filter_upto<A>(s: Seq<A>, p: spec_fn(A) -> bool, n: nat) -> Seq<A>
    decreases n,
{
    if n == 0 {
        Seq::empty()
    } else if p(s[n - 1]) {
        filter_upto(s, p, (n - 1) as nat).push(s[n - 1])
    } else {
        filter_upto(s, p, (n - 1) as nat)
    }
}

/// A filter written out item by item from the front.
pub proof fn lemma_filter_upto<A>(s: Seq<A>, p: spec_fn(A) -> bool, n: nat)
    requires
        n <= s.len(),
    ensures
        s.take(n as int).filter(p) == filter_upto(s, p, n),
        n == s.len() ==> s.filter(p) == filter_upto(s, p, n),
    decreases n,
{
    if n == 0 {
        lemma_filter_none(s.take(0), p);
    } else {
        lemma_filter_upto(s, p, (n - 1) as nat);
        lemma_filter_take_step(s, n - 1, p);
    }
    if n == s.len() {
        assert(s.take(n as int) =~= s);
    }
}

/// Where `q` holds of the image of an item exactly if `p` holds of the
/// item, a filter by `q` keeps as many of the images as a filter by `p` keeps
/// of the items.
pub proof fn lemma_filter_images<A, B>(
    s: Seq<A>,
    f: spec_fn(A) -> B,
    p: spec_fn(A) -> bool,
    q: spec_fn(B) -> bool,
)
    requires
        forall|x: A| #[trigger] q(f(x)) == p(x),
    ensures
        s.map_values(f).filter(q).len() == s.filter(p).len(),
    decreases s.len(),
{
    reveal(Seq::filter);
    if s.len() == 0 {
        assert(s.map_values(f) =~= Seq::empty());
    } else {
        let rest = s.drop_last();
        lemma_filter_images(rest, f, p, q);
        assert(s =~= rest.push(s.last()));
        assert(s.map_values(f) =~= rest.map_values(f).push(f(s.last())));
        lemma_filter_push(rest, s.last(), p);
        lemma_filter_push(rest.map_values(f), f(s.last()), q);
    }
}

} // verus!
