use vstd::prelude::*;

verus! {

/// `s` ends with `suffix`.
pub open spec fn has_suffix(s: Seq<char>, suffix: Seq<char>) -> bool {
    suffix.len() <= s.len() && s.subrange(s.len() - suffix.len(), s.len() as int) == suffix
}

/// `part` occurs somewhere in `s`.
pub open spec fn has_infix(s: Seq<char>, part: Seq<char>) -> bool {
    exists|i: int| 0 <= i <= s.len() - part.len() && #[trigger] s.subrange(i, i + part.len()) == part
}

/// Whether two strings hold the same characters.
pub fn same_text(a: &str, b: &str) -> (r: bool)
    ensures
        r == (a@ == b@),
{
    let n = a.unicode_len();
    if n != b.unicode_len() {
        return false;
    }
    let mut i: usize = 0;
    while i < n
        invariant
            n == a@.len(),
            n == b@.len(),
            i <= n,
            a@.take(i as int) == b@.take(i as int),
        decreases n - i,
    {
        if a.get_char(i) != b.get_char(i) {
            return false;
        }
        assert(a@.take(i + 1) == a@.take(i as int).push(a@[i as int]));
        assert(b@.take(i + 1) == b@.take(i as int).push(b@[i as int]));
        i = i + 1;
    }
    assert(a@ == a@.take(n as int));
    assert(b@ == b@.take(n as int));
    true
}

/// The characters of `s`, one by one.
pub fn chars_of(s: &str) -> (r: Vec<char>)
    ensures
        r@ == s@,
{
    let n = s.unicode_len();
    let mut v: Vec<char> = Vec::new();
    let mut i: usize = 0;
    while i < n
        invariant
            n == s@.len(),
            i <= n,
            v@ == s@.take(i as int),
        decreases n - i,
    {
        v.push(s.get_char(i));
        assert(s@.take(i + 1) =~= s@.take(i as int).push(s@[i as int]));
        i = i + 1;
    }
    assert(s@.take(n as int) =~= s@);
    v
}

/// Whether `part` stands in `s` from position `at` on.
fn matches_at(s: &Vec<char>, part: &Vec<char>, at: usize) -> (r: bool)
    requires
        at + part@.len() <= s@.len(),
    ensures
        r == (s@.subrange(at as int, at + part@.len()) == part@),
{
    let m = part.len();
    let n = s.len();
    let mut j: usize = 0;
    while j < m
        invariant
            m == part@.len(),
            n == s@.len(),
            at + m <= n,
            at + m <= s@.len(),
            j <= m,
            s@.subrange(at as int, at + j) == part@.take(j as int),
        decreases m - j,
    {
        if s[at + j] != part[j] {
            assert(s@.subrange(at as int, at + m)[j as int] != part@[j as int]);
            return false;
        }
        assert(s@.subrange(at as int, at + j + 1) =~= s@.subrange(at as int, at + j).push(s@[at + j]));
        assert(part@.take(j + 1) =~= part@.take(j as int).push(part@[j as int]));
        j = j + 1;
    }
    assert(part@.take(m as int) =~= part@);
    true
}

/// Whether `s` ends with `suffix`.
pub fn ends_with_text(s: &str, suffix: &str) -> (r: bool)
    ensures
        r == has_suffix(s@, suffix@),
{
    let sc = chars_of(s);
    let pc = chars_of(suffix);
    if pc.len() > sc.len() {
        return false;
    }
    matches_at(&sc, &pc, sc.len() - pc.len())
}

/// Whether `part` occurs in `s`.
pub fn contains_text(s: &str, part: &str) -> (r: bool)
    ensures
        r == has_infix(s@, part@),
{
    let sc = chars_of(s);
    let pc = chars_of(part);
    if pc.len() > sc.len() {
        return false;
    }
    if pc.len() == 0 {
        assert(s@.subrange(0, 0 + part@.len() as int) =~= part@);
        return true;
    }
    let n = sc.len();
    let last = n - pc.len();
    let mut i: usize = 0;
    while i <= last
        invariant
            last < n,
            n == sc@.len(),
            last + pc@.len() == sc@.len(),
            sc@ == s@,
            pc@ == part@,
            forall|k: int| 0 <= k < i ==> #[trigger] s@.subrange(k, k + part@.len()) != part@,
        decreases last + 1 - i,
    {
        if matches_at(&sc, &pc, i) {
            return true;
        }
        i = i + 1;
    }
    false
}

} // verus!
