use vstd::prelude::*;

verus! {

/// Whether `part` stands in `text` from position `at` on.
pub open spec fn occurs_at(text: Seq<char>, part: Seq<char>, at: int) -> bool {
    &&& 0 <= at
    &&& at + part.len() <= text.len()
    &&& text.subrange(at, at + part.len()) == part
}

/// Whether `part` stands somewhere in `text`. The empty text stands in every
/// text.
pub open spec fn contains(text: Seq<char>, part: Seq<char>) -> bool {
    exists|at: int| occurs_at(text, part, at)
}

/// The empty text stands in every text.
pub proof fn lemma_contains_empty(text: Seq<char>)
    ensures
        contains(text, Seq::<char>::empty()),
{
    assert(text.subrange(0, 0) =~= Seq::<char>::empty());
    assert(occurs_at(text, Seq::<char>::empty(), 0));
}

/// The characters of `s`, in order.
pub fn chars_of(s: &str) -> (out: Vec<char>)
    ensures
        out@ == s@,
{
    let mut out: Vec<char> = Vec::new();
    for c in it: s.chars()
        invariant
            it.seq() == s@,
            out@ =~= it.seq().take(it.index()),
    {
        out.push(c);
    }
    out
}

/// Whether `part` stands in `text` from position `at` on.
pub fn stands_at(text: &[char], part: &[char], at: usize) -> (found: bool)
    requires
        at + part.len() <= text.len(),
    ensures
        found == occurs_at(text@, part@, at as int),
{
    let m: usize = part.len();
    let mut k: usize = 0;
    while k < m
        invariant
            k <= m,
            m == part.len(),
            at + m <= text.len(),
            forall|j: int| 0 <= j < k ==> text@[at + j] == part@[j],
        decreases m - k,
    {
        if text[at + k] != part[k] {
            return false;
        }
        k = k + 1;
    }
    assert(text@.subrange(at as int, at + m) =~= part@);
    true
}

/// Whether `part` stands somewhere in `text`.
pub fn has_part(text: &[char], part: &[char]) -> (found: bool)
    ensures
        found == contains(text@, part@),
{
    let n: usize = text.len();
    let m: usize = part.len();
    if m > n {
        return false;
    }
    let last: usize = n - m;
    let mut at: usize = 0;
    loop
        invariant
            at <= last,
            last == n - m,
            n == text.len(),
            m == part.len(),
            forall|j: int| 0 <= j < at ==> !occurs_at(text@, part@, j),
        decreases last - at,
    {
        if stands_at(text, part, at) {
            return true;
        }
        if at == last {
            return false;
        }
        at = at + 1;
    }
}

} // verus!
