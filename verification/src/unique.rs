//! Removing repeated names while keeping the first occurrence of each.

use vstd::prelude::*;

verus! {

/// The names of `s` without repetitions: each name kept where it first
/// occurs, in the original order.
pub open spec fn unique(s: Seq<Seq<char>>) -> Seq<Seq<char>>
    decreases s.len(),
{
    if s.len() == 0 {
        Seq::empty()
    } else {
        let u = unique(s.drop_last());
        if u.contains(s.last()) {
            u
        } else {
            u.push(s.last())
        }
    }
}

/// No name occurs twice.
pub open spec fn no_repeats(s: Seq<Seq<char>>) -> bool {
    forall|i: int, j: int| 0 <= i < j < s.len() ==> s[i] != s[j]
}

/// Removing repetitions leaves no repetition and exactly the names that
/// were there.
pub proof fn lemma_unique(s: Seq<Seq<char>>)
    ensures
        no_repeats(unique(s)),
        forall|x: Seq<char>| #[trigger] unique(s).contains(x) <==> s.contains(x),
    decreases s.len(),
{
    if s.len() > 0 {
        let p = s.drop_last();
        lemma_unique(p);
        let u = unique(p);
        assert forall|x: Seq<char>| #[trigger] unique(s).contains(x) <==> s.contains(x) by {
            if s.contains(x) {
                let k = choose|k: int| 0 <= k < s.len() && s[k] == x;
                if k < s.len() - 1 {
                    assert(p[k] == x);
                    assert(p.contains(x));
                }
                if u.contains(x) {
                    let m = choose|m: int| 0 <= m < u.len() && u[m] == x;
                    assert(unique(s)[m] == x);
                } else {
                    assert(x == s.last());
                    assert(unique(s)[u.len() as int] == x);
                }
            }
            if unique(s).contains(x) {
                let k = choose|k: int| 0 <= k < unique(s).len() && unique(s)[k] == x;
                if k < u.len() {
                    assert(u[k] == x);
                    assert(u.contains(x));
                    let m = choose|m: int| 0 <= m < p.len() && p[m] == x;
                    assert(s[m] == x);
                } else {
                    assert(x == s.last());
                    assert(s[s.len() - 1] == x);
                }
            }
        }
    }
}

/// A list that has no repetitions is left as it is.
pub proof fn lemma_unique_of_distinct(s: Seq<Seq<char>>)
    requires
        no_repeats(s),
    ensures
        unique(s) == s,
    decreases s.len(),
{
    if s.len() > 0 {
        let p = s.drop_last();
        assert(no_repeats(p));
        lemma_unique_of_distinct(p);
        if unique(p).contains(s.last()) {
            let k = choose|k: int| 0 <= k < p.len() && p[k] == s.last();
            assert(s[k] == s[s.len() - 1]);
        }
        assert(unique(s) =~= s);
    }
}

/// Removing repetitions twice is the same as once.
pub proof fn lemma_unique_idempotent(s: Seq<Seq<char>>)
    ensures
        unique(unique(s)) == unique(s),
{
    lemma_unique(s);
    lemma_unique_of_distinct(unique(s));
}

fn contains_name(names: &Vec<String>, x: &String) -> (r: bool)
    ensures
        r == names.deep_view().contains(x@),
{
    let mut i: usize = 0;
    while i < names.len()
        invariant
            i <= names.len(),
            forall|k: int| 0 <= k < i ==> names.deep_view()[k] != x@,
        decreases names.len() - i,
    {
        if names[i] == *x {
            assert(names.deep_view()[i as int] == x@);
            return true;
        }
        i += 1;
    }
    false
}

/// The names of `names` without repetitions, first occurrences first.
pub fn unique_names(names: Vec<String>) -> (r: Vec<String>)
    ensures
        r.deep_view() == unique(names.deep_view()),
{
    let ghost s = names.deep_view();
    let mut out: Vec<String> = Vec::new();
    assert(s.take(0) =~= Seq::<Seq<char>>::empty());
    assert(out.deep_view() =~= Seq::<Seq<char>>::empty());
    let mut i: usize = 0;
    while i < names.len()
        invariant
            i <= names.len(),
            s == names.deep_view(),
            out.deep_view() == unique(s.take(i as int)),
        decreases names.len() - i,
    {
        assert(s.take(i + 1).drop_last() =~= s.take(i as int));
        assert(s.take(i + 1).last() == names[i as int]@);
        if !contains_name(&out, &names[i]) {
            let ghost before = out.deep_view();
            out.push(names[i].clone());
            assert(out.deep_view() =~= before.push(names[i as int]@));
        }
        i += 1;
    }
    assert(s.take(names.len() as int) =~= s);
    out
}

} // verus!
