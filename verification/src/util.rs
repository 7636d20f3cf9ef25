//! Small sequence and string helpers shared by the store and the services.

use vstd::prelude::*;

verus! {

/// The first element of `s` satisfying `p`, scanning from the front.
pub open spec fn find_first<T>(s: Seq<T>, p: spec_fn(T) -> bool) -> Option<T>
    decreases s.len(),
{
    if s.len() == 0 {
        None
    } else if p(s[0]) {
        Some(s[0])
    } else {
        find_first(s.drop_first(), p)
    }
}

/// Skipping a prefix with no match leaves the first match unchanged.
pub proof fn lemma_find_first_prefix_misses<T>(s: Seq<T>, p: spec_fn(T) -> bool, i: int)
    requires
        0 <= i <= s.len(),
        forall|j: int| 0 <= j < i ==> !p(s[j]),
    ensures
        find_first(s, p) == find_first(s.skip(i), p),
    decreases i,
{
    if i == 0 {
        assert(s.skip(0) =~= s);
    } else {
        lemma_find_first_prefix_misses(s, p, i - 1);
        assert(s.skip(i - 1)[0] == s[i - 1]);
        assert(s.skip(i - 1).drop_first() =~= s.skip(i));
    }
}

/// If everything before index `i` misses and `s[i]` matches, the scan stops at `i`.
pub proof fn lemma_find_first_at<T>(s: Seq<T>, p: spec_fn(T) -> bool, i: int)
    requires
        0 <= i < s.len(),
        forall|j: int| 0 <= j < i ==> !p(s[j]),
        p(s[i]),
    ensures
        find_first(s, p) == Some(s[i]),
{
    lemma_find_first_prefix_misses(s, p, i);
    assert(s.skip(i)[0] == s[i]);
}

/// If nothing matches, the scan comes back empty.
pub proof fn lemma_find_first_none<T>(s: Seq<T>, p: spec_fn(T) -> bool)
    requires
        forall|j: int| 0 <= j < s.len() ==> !p(s[j]),
    ensures
        find_first(s, p) is None,
{
    lemma_find_first_prefix_misses(s, p, s.len() as int);
    assert(s.skip(s.len() as int) =~= Seq::<T>::empty());
}

/// What a `find_first` result says about the sequence it was drawn from.
pub proof fn lemma_find_first_characterize<T>(s: Seq<T>, p: spec_fn(T) -> bool)
    ensures
        match find_first(s, p) {
            Some(x) => p(x) && exists|i: int| 0 <= i < s.len() && s[i] == x,
            None => forall|j: int| 0 <= j < s.len() ==> !p(s[j]),
        },
    decreases s.len(),
{
    if s.len() > 0 {
        if p(s[0]) {
            assert(s[0] == s[0]);
        } else {
            lemma_find_first_characterize(s.drop_first(), p);
            match find_first(s.drop_first(), p) {
                Some(x) => {
                    let i = choose|i: int|
                        0 <= i < s.drop_first().len() && s.drop_first()[i] == x;
                    assert(s[i + 1] == x);
                },
                None => {
                    assert forall|j: int| 0 <= j < s.len() implies !p(s[j]) by {
                        if j > 0 {
                            assert(s.drop_first()[j - 1] == s[j]);
                        }
                    }
                },
            }
        }
    }
}

/// Appending an element that matches, after a sequence with no match,
/// makes the new element the first match.
pub proof fn lemma_find_first_push_fresh<T>(s: Seq<T>, p: spec_fn(T) -> bool, x: T)
    requires
        forall|j: int| 0 <= j < s.len() ==> !p(s[j]),
        p(x),
    ensures
        find_first(s.push(x), p) == Some(x),
{
    assert forall|j: int| 0 <= j < s.len() implies !p(s.push(x)[j]) by {
        assert(s.push(x)[j] == s[j]);
    }
    lemma_find_first_at(s.push(x), p, s.len() as int);
}

/// Filtering one more element appends it exactly when it is kept.
pub proof fn lemma_filter_take_succ<T>(s: Seq<T>, p: spec_fn(T) -> bool, i: int)
    requires
        0 <= i < s.len(),
    ensures
        s.take(i + 1).filter(p) == if p(s[i]) {
            s.take(i).filter(p).push(s[i])
        } else {
            s.take(i).filter(p)
        },
{
    assert(s.take(i + 1).drop_last() =~= s.take(i));
    assert(s.take(i + 1).last() == s[i]);
    reveal(Seq::filter);
}

/// A full-length take is the sequence itself; convenient at loop exit.
pub proof fn lemma_take_all<T>(s: Seq<T>)
    ensures
        s.take(s.len() as int) == s,
{
    assert(s.take(s.len() as int) =~= s);
}

/// Whether `prefix`'s UTF-8 encoding starts `s`'s; how the store matches
/// name prefixes.
pub open spec fn is_byte_prefix(prefix: Seq<char>, s: Seq<char>) -> bool {
    vstd::utf8::encode_utf8(prefix).is_prefix_of(vstd::utf8::encode_utf8(s))
}

/// Tests whether `prefix` starts `s`, byte for byte.
pub fn str_prefix(prefix: &str, s: &str) -> (r: bool)
    ensures
        r == is_byte_prefix(prefix@, s@),
{
    let pb = prefix.as_bytes();
    let sb = s.as_bytes();
    if pb.len() > sb.len() {
        return false;
    }
    let mut i: usize = 0;
    while i < pb.len()
        invariant
            0 <= i <= pb@.len() <= sb@.len(),
            forall|j: int| 0 <= j < i ==> pb@[j] == sb@[j],
        decreases pb@.len() - i,
    {
        if *vstd::slice::slice_index_get(pb, i) != *vstd::slice::slice_index_get(sb, i) {
            proof {
                let cut = sb@.subrange(0, pb@.len() as int);
                assert(pb@[i as int] != cut[i as int]);
            }
            return false;
        }
        i += 1;
    }
    proof {
        assert(pb@ =~= sb@.subrange(0, pb@.len() as int));
    }
    true
}

/// Copies a vector of ids, element for element.
pub fn clone_id_vec(v: &Vec<u64>) -> (r: Vec<u64>)
    ensures
        r@ == v@,
{
    let mut out: Vec<u64> = Vec::new();
    let mut i: usize = 0;
    while i < v.len()
        invariant
            0 <= i <= v.len(),
            out@ == v@.take(i as int),
        decreases v.len() - i,
    {
        out.push(v[i]);
        assert(v@.take(i + 1 as int) =~= v@.take(i as int).push(v@[i as int]));
        i = i + 1;
    }
    proof {
        lemma_take_all(v@);
    }
    out
}

/// Copies an optional string.
pub fn clone_opt_string(v: &Option<String>) -> (r: Option<String>)
    ensures
        r == v,
{
    match v {
        Some(s) => Some(s.clone()),
        None => None,
    }
}

} // verus!
