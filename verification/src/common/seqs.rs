//! Facts about lists of names kept without repetition.
use vstd::prelude::*;

verus! {

/// The names of a list of strings.
pub open spec fn names_view(v: Seq<String>) -> Seq<Seq<char>> {
    v.map_values(|s: String| s@)
}

/// `s` with every occurrence of `x` left out, the rest in order.
pub open spec fn without(s: Seq<Seq<char>>, x: Seq<char>) -> Seq<Seq<char>> {
    s.filter(differs_from(x))
}

pub open spec fn differs_from(x: Seq<char>) -> spec_fn(Seq<char>) -> bool {
    |y: Seq<char>| y != x
}

/// `s` with `x` appended, unless it already holds `x`.
pub open spec fn with_added(s: Seq<Seq<char>>, x: Seq<char>) -> Seq<Seq<char>> {
    if s.contains(x) {
        s
    } else {
        s.push(x)
    }
}

pub proof fn lemma_without(s: Seq<Seq<char>>, x: Seq<char>)
    ensures
        forall|y: Seq<char>| #[trigger] without(s, x).contains(y) <==> (s.contains(y) && y != x),
        s.no_duplicates() ==> without(s, x).no_duplicates(),
    decreases s.len(),
{
    let p = differs_from(x);
    if s.len() == 0 {
        assert(without(s, x) =~= Seq::<Seq<char>>::empty()) by {
            reveal(Seq::filter);
        }
    } else {
        let r = s.drop_last();
        let e = s.last();
        lemma_without(r, x);
        assert(r.push(e) =~= s);
        r.lemma_filter_push(e, p);
        if p(e) {
            assert(without(s, x) == without(r, x).push(e));
        } else {
            assert(without(s, x) == without(r, x));
        }
        assert forall|y: Seq<char>| #[trigger] without(s, x).contains(y) <==> (s.contains(y) && y != x) by {
            let w = without(r, x);
            if s.contains(y) && y != x {
                let i = choose|i: int| 0 <= i < s.len() && s[i] == y;
                if i < r.len() {
                    assert(r[i] == y);
                    assert(r.contains(y));
                    assert(w.contains(y));
                    let k = choose|k: int| 0 <= k < w.len() && w[k] == y;
                    if p(e) {
                        assert(w.push(e)[k] == y);
                    }
                } else {
                    assert(y == e);
                    assert(w.push(e)[w.len() as int] == y);
                }
            }
            if without(s, x).contains(y) {
                if p(e) {
                    let i = choose|i: int| 0 <= i < w.push(e).len() && w.push(e)[i] == y;
                    if i < w.len() {
                        assert(w[i] == y);
                        assert(w.contains(y));
                        let j = choose|j: int| 0 <= j < r.len() && r[j] == y;
                        assert(s[j] == y);
                    } else {
                        assert(s[s.len() - 1] == y);
                    }
                } else {
                    assert(w.contains(y));
                    let j = choose|j: int| 0 <= j < r.len() && r[j] == y;
                    assert(s[j] == y);
                }
            }
        }
        if s.no_duplicates() {
            assert(r.no_duplicates()) by {
                assert forall|i: int, j: int| 0 <= i < r.len() && 0 <= j < r.len() && i != j implies r[i] != r[j] by {
                    assert(r[i] == s[i] && r[j] == s[j]);
                }
            }
            if p(e) {
                assert(!r.contains(e)) by {
                    if r.contains(e) {
                        let j = choose|j: int| 0 <= j < r.len() && r[j] == e;
                        assert(s[j] == s[s.len() - 1]);
                    }
                }
                assert(!without(r, x).contains(e));
                let w = without(r, x);
                assert forall|i: int, j: int| 0 <= i < w.push(e).len() && 0 <= j < w.push(e).len() && i != j implies w.push(e)[i] != w.push(e)[j] by {
                    if i < w.len() && j < w.len() {
                    } else if i < w.len() {
                        assert(w.contains(w[i]));
                    } else {
                        assert(w.contains(w[j]));
                    }
                }
            }
        }
    }
}

pub proof fn lemma_with_added(s: Seq<Seq<char>>, x: Seq<char>)
    ensures
        forall|y: Seq<char>| #[trigger] with_added(s, x).contains(y) <==> (s.contains(y) || y == x),
        s.no_duplicates() ==> with_added(s, x).no_duplicates(),
{
    if !s.contains(x) {
        let t = s.push(x);
        assert forall|y: Seq<char>| #[trigger] t.contains(y) <==> (s.contains(y) || y == x) by {
            if t.contains(y) {
                let i = choose|i: int| 0 <= i < t.len() && t[i] == y;
                if i < s.len() {
                    assert(s[i] == y);
                }
            }
            if s.contains(y) {
                let i = choose|i: int| 0 <= i < s.len() && s[i] == y;
                assert(t[i] == y);
            }
            if y == x {
                assert(t[s.len() as int] == y);
            }
        }
        if s.no_duplicates() {
            assert forall|i: int, j: int| 0 <= i < t.len() && 0 <= j < t.len() && i != j implies t[i] != t[j] by {
                if i < s.len() && j < s.len() {
                } else if i < s.len() {
                    assert(s.contains(s[i]));
                } else {
                    assert(s.contains(s[j]));
                }
            }
        }
    }
}

/// An owned copy of a list of strings.
pub fn copy_strings(v: &Vec<String>) -> (r: Vec<String>)
    ensures
        r@ == v@,
{
    let mut r: Vec<String> = Vec::new();
    let mut i: usize = 0;
    while i < v.len()
        invariant
            i <= v.len(),
            r@ == v@.take(i as int),
        decreases v.len() - i,
    {
        r.push(v[i].clone());
        i = i + 1;
        assert(r@ =~= v@.take(i as int));
    }
    assert(v@.take(v.len() as int) =~= v@);
    r
}

/// Whether a list of strings holds `x`.
pub fn strings_contain(v: &Vec<String>, x: &str) -> (r: bool)
    ensures
        r == names_view(v@).contains(x@),
{
    let mut i: usize = 0;
    while i < v.len()
        invariant
            i <= v.len(),
            forall|j: int| 0 <= j < i ==> v@[j]@ != x@,
        decreases v.len() - i,
    {
        if crate::common::text::str_equals(v[i].as_str(), x) {
            assert(names_view(v@)[i as int] == x@);
            return true;
        }
        i = i + 1;
    }
    assert forall|j: int| 0 <= j < names_view(v@).len() implies names_view(v@)[j] != x@ by {
        assert(names_view(v@)[j] == v@[j]@);
    }
    false
}

} // verus!
