//! Sequences of records looked up by a textual key: the first record with a
//! key is the one a lookup finds, and removal drops every record with it.
use vstd::prelude::*;

verus! {

/// Some record of `s` has key `k`.
pub open spec fn has_key<A>(s: Seq<A>, key: spec_fn(A) -> Seq<char>, k: Seq<char>) -> bool {
    exists|i: int| 0 <= i < s.len() && key(s[i]) == k
}

/// `i` is the position of the first record of `s` with key `k`.
pub open spec fn first_key_at<A>(
    s: Seq<A>,
    key: spec_fn(A) -> Seq<char>,
    k: Seq<char>,
    i: int,
) -> bool {
    &&& 0 <= i < s.len()
    &&& key(s[i]) == k
    &&& forall|j: int| 0 <= j < i ==> key(s[j]) != k
}

/// The position of the first record of `s` with key `k`.
pub open spec fn key_index<A>(s: Seq<A>, key: spec_fn(A) -> Seq<char>, k: Seq<char>) -> Option<
    int,
> {
    if exists|i: int| first_key_at(s, key, k, i) {
        Some(choose|i: int| first_key_at(s, key, k, i))
    } else {
        None
    }
}

/// The first record of `s` with key `k`.
pub open spec fn lookup<A>(s: Seq<A>, key: spec_fn(A) -> Seq<char>, k: Seq<char>) -> Option<A> {
    match key_index(s, key, k) {
        Some(i) => Some(s[i]),
        None => None,
    }
}

/// `s` without any record whose key is `k`, the others in their order.
pub open spec fn drop_keyed<A>(s: Seq<A>, key: spec_fn(A) -> Seq<char>, k: Seq<char>) -> Seq<A>
    decreases s.len(),
{
    if s.len() == 0 {
        s
    } else {
        let rest = drop_keyed(s.drop_last(), key, k);
        if key(s.last()) == k {
            rest
        } else {
            rest.push(s.last())
        }
    }
}

/// The position of the first record with a key is unique.
pub proof fn lemma_key_index_at<A>(s: Seq<A>, key: spec_fn(A) -> Seq<char>, k: Seq<char>, i: int)
    requires
        first_key_at(s, key, k, i),
    ensures
        key_index(s, key, k) == Some(i),
        lookup(s, key, k) == Some(s[i]),
{
    let c = choose|j: int| first_key_at(s, key, k, j);
    assert(first_key_at(s, key, k, c));
    if c < i {
        assert(key(s[c]) != k);
    } else if c > i {
        assert(key(s[i]) != k);
    }
}

/// Without a record of key `k` there is nothing to find.
pub proof fn lemma_key_index_none<A>(s: Seq<A>, key: spec_fn(A) -> Seq<char>, k: Seq<char>)
    requires
        !has_key(s, key, k),
    ensures
        key_index(s, key, k) == None::<int>,
        lookup(s, key, k) == None::<A>,
{
    if exists|i: int| first_key_at(s, key, k, i) {
        let i = choose|i: int| first_key_at(s, key, k, i);
        assert(0 <= i < s.len() && key(s[i]) == k);
    }
}

/// With a record of key `k` the lookup finds one.
pub proof fn lemma_has_key_found<A>(s: Seq<A>, key: spec_fn(A) -> Seq<char>, k: Seq<char>)
    requires
        has_key(s, key, k),
    ensures
        exists|i: int| first_key_at(s, key, k, i),
        key_index(s, key, k) is Some,
    decreases s.len(),
{
    let w = choose|i: int| 0 <= i < s.len() && key(s[i]) == k;
    if exists|j: int| 0 <= j < w && key(s[j]) == k {
        let j = choose|j: int| 0 <= j < w && key(s[j]) == k;
        let t = s.subrange(0, w);
        assert(t[j] == s[j]);
        assert(has_key(t, key, k));
        lemma_has_key_found(t, key, k);
        let i = choose|i: int| first_key_at(t, key, k, i);
        assert(t[i] == s[i]);
        assert forall|m: int| 0 <= m < i implies key(s[m]) != k by {
            assert(t[m] == s[m]);
        }
        assert(first_key_at(s, key, k, i));
    } else {
        assert(first_key_at(s, key, k, w));
    }
}

/// A record appended under a fresh key is what its key finds; every other
/// key finds what it found before.
pub proof fn lemma_lookup_push<A>(s: Seq<A>, key: spec_fn(A) -> Seq<char>, x: A, k: Seq<char>)
    requires
        !has_key(s, key, key(x)),
    ensures
        k == key(x) ==> lookup(s.push(x), key, k) == Some(x),
        k != key(x) ==> lookup(s.push(x), key, k) == lookup(s, key, k),
{
    let t = s.push(x);
    if k == key(x) {
        assert forall|j: int| 0 <= j < s.len() implies key(t[j]) != k by {
            assert(t[j] == s[j]);
        }
        assert(first_key_at(t, key, k, s.len() as int));
        lemma_key_index_at(t, key, k, s.len() as int);
    } else {
        if has_key(s, key, k) {
            lemma_has_key_found(s, key, k);
            let i = choose|i: int| first_key_at(s, key, k, i);
            lemma_key_index_at(s, key, k, i);
            assert forall|j: int| 0 <= j < i implies key(t[j]) != k by {
                assert(t[j] == s[j]);
            }
            assert(t[i] == s[i]);
            assert(first_key_at(t, key, k, i));
            lemma_key_index_at(t, key, k, i);
        } else {
            assert(!has_key(t, key, k)) by {
                if has_key(t, key, k) {
                    let i = choose|i: int| 0 <= i < t.len() && key(t[i]) == k;
                    if i < s.len() {
                        assert(t[i] == s[i]);
                    }
                }
            }
            lemma_key_index_none(s, key, k);
            lemma_key_index_none(t, key, k);
        }
    }
}

/// Dropping a key that no record has changes nothing.
pub proof fn lemma_drop_keyed_absent<A>(s: Seq<A>, key: spec_fn(A) -> Seq<char>, k: Seq<char>)
    requires
        !has_key(s, key, k),
    ensures
        drop_keyed(s, key, k) == s,
    decreases s.len(),
{
    if s.len() > 0 {
        assert(!has_key(s.drop_last(), key, k)) by {
            if has_key(s.drop_last(), key, k) {
                let i = choose|i: int| 0 <= i < s.drop_last().len() && key(s.drop_last()[i]) == k;
                assert(s.drop_last()[i] == s[i]);
            }
        }
        lemma_drop_keyed_absent(s.drop_last(), key, k);
        assert(key(s[s.len() - 1]) != k);
        assert(s.drop_last().push(s.last()) =~= s);
    }
}

/// After dropping key `k` no record has it, and the records kept are
/// records of `s`.
pub proof fn lemma_drop_keyed_removes<A>(s: Seq<A>, key: spec_fn(A) -> Seq<char>, k: Seq<char>)
    ensures
        !has_key(drop_keyed(s, key, k), key, k),
        forall|j: int|
            0 <= j < drop_keyed(s, key, k).len() ==> s.contains(#[trigger] drop_keyed(
                s,
                key,
                k,
            )[j]),
    decreases s.len(),
{
    if s.len() > 0 {
        let rest = drop_keyed(s.drop_last(), key, k);
        lemma_drop_keyed_removes(s.drop_last(), key, k);
        let d = drop_keyed(s, key, k);
        assert forall|j: int| 0 <= j < d.len() implies s.contains(#[trigger] d[j]) by {
            if j < rest.len() {
                assert(d[j] == rest[j]);
                assert(s.drop_last().contains(rest[j]));
                let m = choose|m: int| 0 <= m < s.drop_last().len() && s.drop_last()[m] == rest[j];
                assert(s[m] == rest[j]);
            } else {
                assert(d[j] == s.last());
                assert(s[s.len() - 1] == s.last());
            }
        }
        if has_key(d, key, k) {
            let i = choose|i: int| 0 <= i < d.len() && key(d[i]) == k;
            if i < rest.len() {
                assert(d[i] == rest[i]);
            }
        }
    }
}

/// Appending a record and then dropping its (fresh) key gives back the
/// sequence as it was.
pub proof fn lemma_drop_keyed_push<A>(s: Seq<A>, key: spec_fn(A) -> Seq<char>, x: A)
    requires
        !has_key(s, key, key(x)),
    ensures
        drop_keyed(s.push(x), key, key(x)) == s,
{
    assert(s.push(x).drop_last() =~= s);
    lemma_drop_keyed_absent(s, key, key(x));
}

} // verus!
