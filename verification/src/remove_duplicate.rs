//! Deduplication of the canonical `(process_name, port, pid)` records: some
//! diagnostic tools report the same triple once per protocol family, and the
//! caller must see it once.

use vstd::prelude::*;

verus! {

/// A sequence without repeated elements.
pub open spec fn no_dups<T>(s: Seq<T>) -> bool {
    forall|i: int, j: int| 0 <= i < j < s.len() ==> s[i] != s[j]
}

/// The deduplicated sequence: every element stands at its first occurrence,
/// later repetitions are removed.
pub open spec fn spec_dedup<T>(s: Seq<T>) -> Seq<T>
    decreases s.len(),
{
    if s.len() == 0 {
        Seq::empty()
    } else {
        let rest = spec_dedup(s.drop_last());
        if rest.contains(s.last()) {
            rest
        } else {
            rest.push(s.last())
        }
    }
}

/// Deduplication keeps exactly the elements of the input.
pub proof fn lemma_dedup_contains<T>(s: Seq<T>, x: T)
    ensures
        spec_dedup(s).contains(x) <==> s.contains(x),
    decreases s.len(),
{
    if s.len() == 0 {
    } else {
        lemma_dedup_contains(s.drop_last(), x);
        let rest = spec_dedup(s.drop_last());
        let d = spec_dedup(s);
        if s.contains(x) {
            let i = choose|i: int| 0 <= i < s.len() && s[i] == x;
            if i < s.len() - 1 {
                assert(s.drop_last()[i] == x);
                assert(s.drop_last().contains(x));
                let j = choose|j: int| 0 <= j < rest.len() && rest[j] == x;
                assert(d[j] == x);
            } else {
                assert(x == s.last());
                if rest.contains(s.last()) {
                } else {
                    assert(d[d.len() - 1] == x);
                }
            }
            assert(d.contains(x));
        }
        if d.contains(x) {
            let i = choose|i: int| 0 <= i < d.len() && d[i] == x;
            if rest.contains(s.last()) || i < d.len() - 1 {
                assert(rest[i] == x);
                assert(rest.contains(x));
                let j = choose|j: int| 0 <= j < s.drop_last().len() && s.drop_last()[j] == x;
                assert(s[j] == x);
            } else {
                assert(x == s.last());
                assert(s[s.len() - 1] == x);
            }
            assert(s.contains(x));
        }
    }
}

/// The deduplicated sequence has no repeated elements.
pub proof fn lemma_dedup_no_dups<T>(s: Seq<T>)
    ensures
        no_dups(spec_dedup(s)),
    decreases s.len(),
{
    if s.len() == 0 {
    } else {
        lemma_dedup_no_dups(s.drop_last());
        let rest = spec_dedup(s.drop_last());
        if !rest.contains(s.last()) {
            let d = rest.push(s.last());
            assert forall|i: int, j: int| 0 <= i < j < d.len() implies d[i] != d[j] by {
                if j == d.len() - 1 {
                    assert(d[i] == rest[i]);
                    assert(rest[i] != s.last());
                }
            }
        }
    }
}

/// A sequence without repeated elements is its own deduplication.
pub proof fn lemma_dedup_of_no_dups<T>(s: Seq<T>)
    requires
        no_dups(s),
    ensures
        spec_dedup(s) == s,
    decreases s.len(),
{
    if s.len() == 0 {
        assert(spec_dedup(s) =~= s);
    } else {
        assert forall|i: int, j: int|
            0 <= i < j < s.drop_last().len() implies s.drop_last()[i] != s.drop_last()[j] by {
            assert(s[i] != s[j]);
        }
        lemma_dedup_of_no_dups(s.drop_last());
        assert(!s.drop_last().contains(s.last())) by {
            if s.drop_last().contains(s.last()) {
                let i = choose|i: int|
                    0 <= i < s.drop_last().len() && s.drop_last()[i] == s.last();
                assert(s[i] == s[s.len() - 1]);
            }
        }
        assert(spec_dedup(s) =~= s);
    }
}

/// Law: deduplication is idempotent — deduplicating an already
/// deduplicated sequence changes nothing.
pub proof fn lemma_dedup_idempotent<T>(s: Seq<T>)
    ensures
        spec_dedup(spec_dedup(s)) == spec_dedup(s),
{
    lemma_dedup_no_dups(s);
    lemma_dedup_of_no_dups(spec_dedup(s));
}

/// Whether the records `a` and `b` agree in all three fields.
fn record_eq(a: &(String, String, String), b: &(String, String, String)) -> (r: bool)
    ensures
        r == (a.deep_view() == b.deep_view()),
{
    let r = a.0 == b.0 && a.1 == b.1 && a.2 == b.2;
    proof {
        if a.0@ == b.0@ && a.1@ == b.1@ && a.2@ == b.2@ {
            assert(a.deep_view() == b.deep_view());
        } else {
            assert(a.deep_view() != b.deep_view());
        }
    }
    r
}

/// Whether `v` already holds the record `x`.
fn contains_record(v: &Vec<(String, String, String)>, x: &(String, String, String)) -> (r: bool)
    ensures
        r == v.deep_view().contains(x.deep_view()),
{
    let mut k: usize = 0;
    while k < v.len()
        invariant
            k <= v.len(),
            forall|m: int| 0 <= m < k ==> v.deep_view()[m] != x.deep_view(),
        decreases v.len() - k,
    {
        if record_eq(&v[k], x) {
            proof {
                assert(v.deep_view()[k as int] == x.deep_view());
            }
            return true;
        }
        k += 1;
    }
    false
}

/// Removes duplicate records: a record stays at its first occurrence, later
/// repetitions are dropped, so no two records of the result are equal.
pub fn remove_duplicates(ports: Vec<(String, String, String)>) -> (r: Vec<(String, String, String)>)
    ensures
        r.deep_view() == spec_dedup(ports.deep_view()),
        no_dups(r.deep_view()),
{
    let mut out: Vec<(String, String, String)> = Vec::new();
    let mut i: usize = 0;
    proof {
        assert(out.deep_view() =~= spec_dedup(ports.deep_view().take(0)));
    }
    while i < ports.len()
        invariant
            i <= ports.len(),
            out.deep_view() == spec_dedup(ports.deep_view().take(i as int)),
        decreases ports.len() - i,
    {
        let x = (ports[i].0.clone(), ports[i].1.clone(), ports[i].2.clone());
        proof {
            assert(x.deep_view() == ports.deep_view()[i as int]);
            let p = ports.deep_view().take(i as int + 1);
            assert(p.drop_last() =~= ports.deep_view().take(i as int));
            assert(p.last() == ports.deep_view()[i as int]);
        }
        if !contains_record(&out, &x) {
            out.push(x);
        }
        i += 1;
    }
    proof {
        assert(ports.deep_view().take(ports.len() as int) =~= ports.deep_view());
        lemma_dedup_no_dups(ports.deep_view());
    }
    out
}

} // verus!
