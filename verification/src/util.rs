//! Small verified helpers over vectors.

use vstd::prelude::*;

verus! {

/// The first problem reported among positions `0..n`, in order, where `f`
/// says what is wrong at one position.
pub open spec fn first_problem<T>(f: spec_fn(int) -> Option<T>, n: int) -> Option<T>
    decreases n,
{
    if n <= 0 {
        None
    } else if first_problem(f, n - 1) is Some {
        first_problem(f, n - 1)
    } else {
        f(n - 1)
    }
}

/// Once a problem is found, looking further does not change it.
pub proof fn lemma_first_problem_stays<T>(f: spec_fn(int) -> Option<T>, k: int, n: int)
    requires
        0 <= k <= n,
        first_problem(f, k) is Some,
    ensures
        first_problem(f, n) == first_problem(f, k),
    decreases n - k,
{
    if k < n {
        lemma_first_problem_stays(f, k, n - 1);
    }
}

/// The problem found at position `i`, after a clean prefix, is the first one.
pub proof fn lemma_first_problem_at<T>(f: spec_fn(int) -> Option<T>, i: int, n: int)
    requires
        0 <= i < n,
        first_problem(f, i) is None,
        f(i) is Some,
    ensures
        first_problem(f, n) == f(i),
{
    assert(first_problem(f, i + 1) == f(i));
    lemma_first_problem_stays(f, i + 1, n);
}

/// A copy of a vector of plain values.
pub fn copy_vec<T: Copy>(v: &Vec<T>) -> (out: Vec<T>)
    ensures
        out@ == v@,
{
    let mut out: Vec<T> = Vec::new();
    let mut i: usize = 0;
    while i < v.len()
        invariant
            i <= v@.len(),
            out@ == v@.subrange(0, i as int),
        decreases v@.len() - i,
    {
        out.push(v[i]);
        assert(out@ =~= v@.subrange(0, i + 1));
        i = i + 1;
    }
    assert(v@.subrange(0, v@.len() as int) =~= v@);
    out
}

/// A copy of a vector of strings.
pub fn copy_strings(v: &Vec<String>) -> (out: Vec<String>)
    ensures
        out@ == v@,
{
    let mut out: Vec<String> = Vec::new();
    let mut i: usize = 0;
    while i < v.len()
        invariant
            i <= v@.len(),
            out@ == v@.subrange(0, i as int),
        decreases v@.len() - i,
    {
        out.push(v[i].clone());
        assert(out@ =~= v@.subrange(0, i + 1));
        i = i + 1;
    }
    assert(v@.subrange(0, v@.len() as int) =~= v@);
    out
}
 
/// A copy of an optional string.
pub fn copy_opt_string(o: &Option<String>) -> (out: Option<String>)
    ensures
        out == *o,
{
    match o {
        Some(s) => Some(s.clone()),
        None => None,
    }
}

/// A value that can produce an equal copy of itself.
pub trait Duplicate: Sized {
    /// An equal copy.
    fn duplicate(&self) -> (r: Self)
        ensures
            r == *self,
    ;
}

impl Duplicate for String {
    fn duplicate(&self) -> (r: Self) {
        self.clone()
    }
}

/// A copy of a vector whose items can be duplicated.
pub fn duplicate_all<T: Duplicate>(v: &Vec<T>) -> (out: Vec<T>)
    ensures
        out@ == v@,
{
    let mut out: Vec<T> = Vec::new();
    let mut i: usize = 0;
    while i < v.len()
        invariant
            i <= v@.len(),
            out@ == v@.subrange(0, i as int),
        decreases v@.len() - i,
    {
        out.push(v[i].duplicate());
        assert(out@ =~= v@.subrange(0, i + 1));
        i = i + 1;
    }
    assert(v@.subrange(0, v@.len() as int) =~= v@);
    out
}

} // verus!
