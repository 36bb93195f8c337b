//! Sequences built by going through another sequence in order.

use vstd::prelude::*;

verus! {

/// What `f` gives for each item of `s`, in order, one after another.
pub open spec fn gather<A, B>(s: Seq<A>, f: spec_fn(A) -> Seq<B>) -> Seq<B>
    decreases s.len(),
{
    if s.len() == 0 {
        Seq::empty()
    } else {
        gather(s.drop_last(), f) + f(s.last())
    }
}

/// As `gather`, with the position of each item at hand.
pub open spec fn gather_indexed<A, B>(s: Seq<A>, f: spec_fn(int, A) -> Seq<B>) -> Seq<B>
    decreases s.len(),
{
    if s.len() == 0 {
        Seq::empty()
    } else {
        gather_indexed(s.drop_last(), f) + f(s.len() - 1, s.last())
    }
}

/// As `gather`, ending with the first item for which `f` fails.
pub open spec fn try_gather<A, B, E>(s: Seq<A>, f: spec_fn(A) -> Result<Seq<B>, E>) -> Result<
    Seq<B>,
    E,
>
    decreases s.len(),
{
    if s.len() == 0 {
        Ok(Seq::empty())
    } else {
        match try_gather(s.drop_last(), f) {
            Err(e) => Err(e),
            Ok(head) => match f(s.last()) {
                Err(e) => Err(e),
                Ok(tail) => Ok(head + tail),
            },
        }
    }
}

/// One item where there is a value, none where there is none.
pub open spec fn optional<B>(value: Option<B>) -> Seq<B> {
    match value {
        Some(v) => seq![v],
        None => Seq::empty(),
    }
}

pub proof fn lemma_gather_step<A, B>(s: Seq<A>, f: spec_fn(A) -> Seq<B>, i: int)
    requires
        0 <= i < s.len(),
    ensures
        gather(s.take(i + 1), f) == gather(s.take(i), f) + f(s[i]),
{
    assert(s.take(i + 1).drop_last() == s.take(i));
    assert(s.take(i + 1).last() == s[i]);
}

/// What the first elements give stands first.
pub proof fn lemma_gather_prefix<A, B>(s: Seq<A>, f: spec_fn(A) -> Seq<B>, i: int)
    requires
        0 <= i <= s.len(),
    ensures
        gather(s.take(i), f).len() <= gather(s, f).len(),
        gather(s, f).take(gather(s.take(i), f).len() as int) == gather(s.take(i), f),
    decreases s.len() - i,
{
    if i == s.len() {
        assert(s.take(i) == s);
        assert(gather(s, f).take(gather(s, f).len() as int) == gather(s, f));
    } else {
        lemma_gather_prefix(s, f, i + 1);
        lemma_gather_step(s, f, i);
        let shorter = gather(s.take(i), f);
        let longer = gather(s.take(i + 1), f);
        assert(longer.take(shorter.len() as int) == shorter);
        assert(gather(s, f).take(shorter.len() as int) == gather(s, f).take(
            longer.len() as int,
        ).take(shorter.len() as int));
    }
}

pub proof fn lemma_gather_indexed_step<A, B>(s: Seq<A>, f: spec_fn(int, A) -> Seq<B>, i: int)
    requires
        0 <= i < s.len(),
    ensures
        gather_indexed(s.take(i + 1), f) == gather_indexed(s.take(i), f) + f(i, s[i]),
{
    assert(s.take(i + 1).drop_last() == s.take(i));
    assert(s.take(i + 1).last() == s[i]);
}

pub proof fn lemma_try_gather_step<A, B, E>(
    s: Seq<A>,
    f: spec_fn(A) -> Result<Seq<B>, E>,
    i: int,
)
    requires
        0 <= i < s.len(),
    ensures
        try_gather(s.take(i + 1), f) == (match try_gather(s.take(i), f) {
            Err(e) => Err(e),
            Ok(head) => match f(s[i]) {
                Err(e) => Err(e),
                Ok(tail) => Ok(head + tail),
            },
        }),
{
    assert(s.take(i + 1).drop_last() == s.take(i));
    assert(s.take(i + 1).last() == s[i]);
}

/// A failure before position `i` is the failure of the whole.
pub proof fn lemma_try_gather_fails<A, B, E>(
    s: Seq<A>,
    f: spec_fn(A) -> Result<Seq<B>, E>,
    i: int,
)
    requires
        0 <= i <= s.len(),
        try_gather(s.take(i), f) is Err,
    ensures
        try_gather(s, f) == try_gather(s.take(i), f),
    decreases s.len(),
{
    if i == s.len() {
        assert(s.take(i) == s);
    } else {
        assert(s.drop_last().take(i) == s.take(i));
        lemma_try_gather_fails(s.drop_last(), f, i);
    }
}

/// Every item of `gather` comes from some item of `s`.
pub proof fn lemma_gather_source<A, B>(s: Seq<A>, f: spec_fn(A) -> Seq<B>, k: int) -> (source: (int, int))
    requires
        0 <= k < gather(s, f).len(),
    ensures
        0 <= source.0 < s.len(),
        0 <= source.1 < f(s[source.0]).len(),
        gather(s, f)[k] == f(s[source.0])[source.1],
    decreases s.len(),
{
    let head = gather(s.drop_last(), f);
    if k < head.len() {
        lemma_gather_source(s.drop_last(), f, k)
    } else {
        (s.len() - 1, k - head.len())
    }
}

/// Every item of `try_gather` comes from some item of `s`.
pub proof fn lemma_try_gather_source<A, B, E>(
    s: Seq<A>,
    f: spec_fn(A) -> Result<Seq<B>, E>,
    k: int,
) -> (source: (int, int))
    requires
        try_gather(s, f) matches Ok(all) && 0 <= k < all.len(),
    ensures
        0 <= source.0 < s.len(),
        f(s[source.0]) matches Ok(part) && 0 <= source.1 < part.len() && part[source.1]
            == try_gather(s, f)->Ok_0[k],
    decreases s.len(),
{
    let head = try_gather(s.drop_last(), f)->Ok_0;
    if k < head.len() {
        lemma_try_gather_source(s.drop_last(), f, k)
    } else {
        (s.len() - 1, k - head.len())
    }
}

/// As `lemma_gather_source`, with positions.
pub proof fn lemma_gather_indexed_source<A, B>(
    s: Seq<A>,
    f: spec_fn(int, A) -> Seq<B>,
    k: int,
) -> (source: (int, int))
    requires
        0 <= k < gather_indexed(s, f).len(),
    ensures
        0 <= source.0 < s.len(),
        0 <= source.1 < f(source.0, s[source.0]).len(),
        gather_indexed(s, f)[k] == f(source.0, s[source.0])[source.1],
    decreases s.len(),
{
    let head = gather_indexed(s.drop_last(), f);
    if k < head.len() {
        lemma_gather_indexed_source(s.drop_last(), f, k)
    } else {
        (s.len() - 1, k - head.len())
    }
}

/// What `f` gives for an item of `s` is in `gather`.
pub proof fn lemma_gather_contains<A, B>(s: Seq<A>, f: spec_fn(A) -> Seq<B>, i: int, b: B)
    requires
        0 <= i < s.len(),
        f(s[i]).contains(b),
    ensures
        gather(s, f).contains(b),
    decreases s.len(),
{
    let head = gather(s.drop_last(), f);
    let tail = f(s.last());
    if i == s.len() - 1 {
        let k = choose|k: int| 0 <= k < tail.len() && tail[k] == b;
        assert(gather(s, f)[head.len() + k] == b);
    } else {
        lemma_gather_contains(s.drop_last(), f, i, b);
        let k = choose|k: int| 0 <= k < head.len() && head[k] == b;
        assert(gather(s, f)[k] == b);
    }
}

/// As `lemma_gather_contains`, with positions.
pub proof fn lemma_gather_indexed_contains<A, B>(
    s: Seq<A>,
    f: spec_fn(int, A) -> Seq<B>,
    i: int,
    b: B,
)
    requires
        0 <= i < s.len(),
        f(i, s[i]).contains(b),
    ensures
        gather_indexed(s, f).contains(b),
    decreases s.len(),
{
    let head = gather_indexed(s.drop_last(), f);
    let tail = f(s.len() - 1, s.last());
    if i == s.len() - 1 {
        let k = choose|k: int| 0 <= k < tail.len() && tail[k] == b;
        assert(gather_indexed(s, f)[head.len() + k] == b);
    } else {
        lemma_gather_indexed_contains(s.drop_last(), f, i, b);
        let k = choose|k: int| 0 <= k < head.len() && head[k] == b;
        assert(gather_indexed(s, f)[k] == b);
    }
}

/// What is gathered from one sequence is gathered from another, where each item of the one
/// that gives it has its like in the other.
pub proof fn lemma_gather_indexed_carries<A, B>(
    s: Seq<A>,
    f: spec_fn(int, A) -> Seq<B>,
    t: Seq<A>,
    h: spec_fn(int, A) -> Seq<B>,
    b: B,
)
    requires
        s.len() <= t.len(),
        forall|i: int|
            #![trigger s[i]]
            0 <= i < s.len() && f(i, s[i]).contains(b) ==> h(i, t[i]).contains(b),
        gather_indexed(s, f).contains(b),
    ensures
        gather_indexed(t, h).contains(b),
{
    let all = gather_indexed(s, f);
    let k = choose|k: int| 0 <= k < all.len() && all[k] == b;
    let source = lemma_gather_indexed_source(s, f, k);
    assert(f(source.0, s[source.0])[source.1] == b);
    lemma_gather_indexed_contains(t, h, source.0, b);
}

/// A gathered sequence holds just what some item gives.
pub proof fn lemma_gather_in<A, B>(s: Seq<A>, f: spec_fn(A) -> Seq<B>, b: B)
    ensures
        gather(s, f).contains(b) <==> exists|i: int|
            0 <= i < s.len() && f(#[trigger] s[i]).contains(b),
{
    let all = gather(s, f);
    if all.contains(b) {
        let k = choose|k: int| 0 <= k < all.len() && all[k] == b;
        let source = lemma_gather_source(s, f, k);
        assert(f(s[source.0])[source.1] == b);
        assert(f(s[source.0]).contains(b));
    }
    if exists|i: int| 0 <= i < s.len() && f(#[trigger] s[i]).contains(b) {
        let i = choose|i: int| 0 <= i < s.len() && f(#[trigger] s[i]).contains(b);
        lemma_gather_contains(s, f, i, b);
    }
}

/// As `lemma_gather_in`, with positions.
pub proof fn lemma_gather_indexed_in<A, B>(s: Seq<A>, f: spec_fn(int, A) -> Seq<B>, b: B)
    ensures
        gather_indexed(s, f).contains(b) <==> exists|i: int|
            0 <= i < s.len() && f(i, #[trigger] s[i]).contains(b),
{
    let all = gather_indexed(s, f);
    if all.contains(b) {
        let k = choose|k: int| 0 <= k < all.len() && all[k] == b;
        let source = lemma_gather_indexed_source(s, f, k);
        assert(f(source.0, s[source.0])[source.1] == b);
        assert(f(source.0, s[source.0]).contains(b));
    }
    if exists|i: int| 0 <= i < s.len() && f(i, #[trigger] s[i]).contains(b) {
        let i = choose|i: int| 0 <= i < s.len() && f(i, #[trigger] s[i]).contains(b);
        lemma_gather_indexed_contains(s, f, i, b);
    }
}

/// Two sequences one behind the other hold what either of them holds.
pub proof fn lemma_joined_in<B>(x: Seq<B>, y: Seq<B>, b: B)
    ensures
        (x + y).contains(b) <==> x.contains(b) || y.contains(b),
{
    let all = x + y;
    if x.contains(b) {
        let k = choose|k: int| 0 <= k < x.len() && x[k] == b;
        assert(all[k] == b);
    }
    if y.contains(b) {
        let k = choose|k: int| 0 <= k < y.len() && y[k] == b;
        assert(all[x.len() + k] == b);
    }
    if all.contains(b) {
        let k = choose|k: int| 0 <= k < all.len() && all[k] == b;
        if k < x.len() {
            assert(x[k] == b);
        } else {
            assert(y[k - x.len()] == b);
        }
    }
}

} // verus!
