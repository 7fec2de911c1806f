//! Operations on text held as a sequence of characters.
use vstd::prelude::*;

verus! {

/// Relies on `str::chars`: the characters of the string, in order.
#[verifier::external_body]
pub(crate) fn chars_of(s: &str) -> (r: Vec<char>)
    ensures
        r@ == s@,
{
    s.chars().collect()
}

/// Relies on `String`'s `FromIterator<char>`: the string of the characters,
/// in order.
#[verifier::external_body]
pub(crate) fn string_of(cs: &[char]) -> (r: String)
    ensures
        r@ == cs@,
{
    cs.iter().collect()
}

/// The characters that Unicode gives the `White_Space` property.
pub open spec fn is_space(c: char) -> bool {
    c == '\t' || c == '\n' || c == '\u{0B}' || c == '\u{0C}' || c == '\r' || c == ' ' || c
        == '\u{85}' || c == '\u{A0}' || c == '\u{1680}' || ('\u{2000}' <= c && c <= '\u{200A}')
        || c == '\u{2028}' || c == '\u{2029}' || c == '\u{202F}' || c == '\u{205F}' || c
        == '\u{3000}'
}

/// Whether the character is white space.
pub fn space(c: char) -> (r: bool)
    ensures
        r == is_space(c),
{
    c == '\t' || c == '\n' || c == '\u{0B}' || c == '\u{0C}' || c == '\r' || c == ' ' || c
        == '\u{85}' || c == '\u{A0}' || c == '\u{1680}' || ('\u{2000}' <= c && c <= '\u{200A}')
        || c == '\u{2028}' || c == '\u{2029}' || c == '\u{202F}' || c == '\u{205F}' || c
        == '\u{3000}'
}

/// `p` occurs in `s` at position `i`.
pub open spec fn occurs_at(s: Seq<char>, p: Seq<char>, i: int) -> bool {
    0 <= i && i + p.len() <= s.len() && s.subrange(i, i + p.len()) == p
}

/// `s` without its leading white space.
pub open spec fn trim_start(s: Seq<char>) -> Seq<char>
    decreases s.len(),
{
    if s.len() > 0 && is_space(s[0]) {
        trim_start(s.drop_first())
    } else {
        s
    }
}

/// `s` without its trailing white space.
pub open spec fn trim_end(s: Seq<char>) -> Seq<char>
    decreases s.len(),
{
    if s.len() > 0 && is_space(s.last()) {
        trim_end(s.drop_last())
    } else {
        s
    }
}

/// `s` without its leading and trailing white space.
pub open spec fn trimmed(s: Seq<char>) -> Seq<char> {
    trim_end(trim_start(s))
}

/// The first position, from `i` on, at which `p` occurs in `s`.
pub open spec fn first_occ_from(s: Seq<char>, p: Seq<char>, i: int) -> Option<int>
    decreases s.len() + 1 - i,
{
    if i < 0 || i > s.len() {
        None
    } else if occurs_at(s, p, i) {
        Some(i)
    } else {
        first_occ_from(s, p, i + 1)
    }
}

/// The first position at which `p` occurs in `s`.
pub open spec fn first_occ(s: Seq<char>, p: Seq<char>) -> Option<int> {
    first_occ_from(s, p, 0)
}

/// The last position, up to `i`, at which `p` occurs in `s`.
pub open spec fn last_occ_to(s: Seq<char>, p: Seq<char>, i: int) -> Option<int>
    decreases i + 1,
{
    if i < 0 {
        None
    } else if occurs_at(s, p, i) {
        Some(i)
    } else {
        last_occ_to(s, p, i - 1)
    }
}

/// The last position at which `p` occurs in `s`.
pub open spec fn last_occ(s: Seq<char>, p: Seq<char>) -> Option<int> {
    last_occ_to(s, p, s.len() as int)
}

/// A position as the specifications speak of it.
pub open spec fn pos_view(r: Option<usize>) -> Option<int> {
    match r {
        Some(i) => Some(i as int),
        None => None,
    }
}

/// The characters `s[a..b]`.
pub fn slice_of(s: &[char], a: usize, b: usize) -> (r: Vec<char>)
    requires
        a <= b <= s@.len(),
    ensures
        r@ == s@.subrange(a as int, b as int),
{
    let mut out: Vec<char> = Vec::new();
    let mut i: usize = a;
    while i < b
        invariant
            a <= i <= b <= s@.len(),
            out@ == s@.subrange(a as int, i as int),
        decreases b - i,
    {
        out.push(s[i]);
        i = i + 1;
        assert(out@ =~= s@.subrange(a as int, i as int));
    }
    out
}

/// `s` without its leading and trailing white space.
pub fn trim(s: &[char]) -> (r: Vec<char>)
    ensures
        r@ == trimmed(s@),
{
    let n = s.len();
    let mut a: usize = 0;
    assert(s@.subrange(0, n as int) =~= s@);
    while a < n && space(s[a])
        invariant
            a <= n == s@.len(),
            trim_start(s@) == trim_start(s@.subrange(a as int, n as int)),
        decreases n - a,
    {
        assert(s@.subrange(a as int, n as int).drop_first() =~= s@.subrange(a + 1, n as int));
        a = a + 1;
    }
    let ghost t = s@.subrange(a as int, n as int);
    assert(trim_start(s@) == t);
    let mut b: usize = n;
    while b > a && space(s[b - 1])
        invariant
            a <= b <= n == s@.len(),
            t == s@.subrange(a as int, n as int),
            trim_end(t) == trim_end(s@.subrange(a as int, b as int)),
        decreases b,
    {
        assert(s@.subrange(a as int, b as int).drop_last() =~= s@.subrange(a as int, b - 1));
        b = b - 1;
    }
    slice_of(s, a, b)
}

/// Whether `p` occurs in `s` at position `i`.
pub fn matches_at(s: &[char], p: &[char], i: usize) -> (r: bool)
    ensures
        r == occurs_at(s@, p@, i as int),
{
    if i > s.len() || p.len() > s.len() - i {
        return false;
    }
    let mut k: usize = 0;
    while k < p.len()
        invariant
            k <= p@.len(),
            i + p@.len() <= s@.len(),
            s@.len() <= usize::MAX,
            forall|m: int| 0 <= m < k ==> s@[i + m] == p@[m],
        decreases p@.len() - k,
    {
        if s[i + k] != p[k] {
            assert(s@.subrange(i as int, i + p@.len())[k as int] != p@[k as int]);
            return false;
        }
        k = k + 1;
    }
    assert(s@.subrange(i as int, i + p@.len()) =~= p@);
    true
}

/// Whether `s` starts with `p`.
pub fn starts_with(s: &[char], p: &[char]) -> (r: bool)
    ensures
        r == occurs_at(s@, p@, 0),
{
    matches_at(s, p, 0)
}

/// Whether the two hold the same characters.
pub fn equal_chars(a: &[char], b: &[char]) -> (r: bool)
    ensures
        r == (a@ == b@),
{
    if a.len() != b.len() {
        return false;
    }
    let r = matches_at(a, b, 0);
    if r {
        assert(a@ =~= a@.subrange(0, b@.len() as int));
    } else {
        assert(a@.subrange(0, b@.len() as int) =~= a@);
    }
    r
}

/// Whether `s` ends with `p`.
pub fn ends_with(s: &[char], p: &[char]) -> (r: bool)
    ensures
        r == (p@.len() <= s@.len() && occurs_at(s@, p@, s@.len() - p@.len())),
{
    if p.len() > s.len() {
        false
    } else {
        matches_at(s, p, s.len() - p.len())
    }
}

/// The first position at which `p` occurs in `s`.
pub fn find(s: &[char], p: &[char]) -> (r: Option<usize>)
    ensures
        match r {
            Some(i) => occurs_at(s@, p@, i as int) && forall|j: int|
                0 <= j < i ==> !occurs_at(s@, p@, j),
            None => forall|j: int| 0 <= j ==> !occurs_at(s@, p@, j),
        },
        pos_view(r) == first_occ(s@, p@),
        s@.len() <= usize::MAX,
{
    let n = s.len();
    let mut i: usize = 0;
    loop
        invariant
            i <= n == s@.len(),
            forall|j: int| 0 <= j < i ==> !occurs_at(s@, p@, j),
            first_occ(s@, p@) == first_occ_from(s@, p@, i as int),
        decreases n - i,
    {
        if matches_at(s, p, i) {
            return Some(i);
        }
        if i == n {
            assert(first_occ_from(s@, p@, n + 1) == None::<int>);
            return None;
        }
        i = i + 1;
    }
}

/// The last position at which `p` occurs in `s`.
pub fn rfind(s: &[char], p: &[char]) -> (r: Option<usize>)
    ensures
        match r {
            Some(i) => occurs_at(s@, p@, i as int) && forall|j: int|
                i < j ==> !occurs_at(s@, p@, j),
            None => forall|j: int| 0 <= j ==> !occurs_at(s@, p@, j),
        },
        pos_view(r) == last_occ(s@, p@),
        s@.len() <= usize::MAX,
{
    let n = s.len();
    let mut i: usize = n;
    loop
        invariant
            i <= n == s@.len(),
            forall|j: int| i < j ==> !occurs_at(s@, p@, j),
            last_occ(s@, p@) == last_occ_to(s@, p@, i as int),
        decreases i,
    {
        if matches_at(s, p, i) {
            return Some(i);
        }
        if i == 0 {
            assert(last_occ_to(s@, p@, -1) == None::<int>);
            return None;
        }
        i = i - 1;
    }
}

/// `s` with each occurrence of `from`, left to right and not overlapping,
/// replaced by `to`.
pub open spec fn replaced(s: Seq<char>, from: Seq<char>, to: Seq<char>) -> Seq<char>
    decreases s.len(),
{
    if from.len() == 0 || s.len() == 0 {
        s
    } else if occurs_at(s, from, 0) {
        to + replaced(s.subrange(from.len() as int, s.len() as int), from, to)
    } else {
        seq![s[0]] + replaced(s.drop_first(), from, to)
    }
}

/// `s` with each occurrence of `from` replaced by `to`.
pub fn replace(s: &[char], from: &[char], to: &[char]) -> (r: Vec<char>)
    requires
        from@.len() > 0,
    ensures
        r@ == replaced(s@, from@, to@),
{
    let n = s.len();
    let mut out: Vec<char> = Vec::new();
    let mut i: usize = 0;
    assert(s@.subrange(0, n as int) =~= s@);
    assert(out@ + replaced(s@, from@, to@) =~= replaced(s@, from@, to@));
    while i < n
        invariant
            i <= n == s@.len(),
            from@.len() > 0,
            out@ + replaced(s@.subrange(i as int, n as int), from@, to@) == replaced(
                s@,
                from@,
                to@,
            ),
        decreases n - i,
    {
        let ghost rest = s@.subrange(i as int, n as int);
        let m = matches_at(s, from, i);
        proof {
            if i + from@.len() <= n {
                assert(rest.subrange(0, from@.len() as int) =~= s@.subrange(
                    i as int,
                    i + from@.len(),
                ));
            }
        }
        if m {
            let mut k: usize = 0;
            let ghost before = out@;
            while k < to.len()
                invariant
                    k <= to@.len(),
                    out@ == before + to@.subrange(0, k as int),
                decreases to@.len() - k,
            {
                out.push(to[k]);
                k = k + 1;
                assert(out@ =~= before + to@.subrange(0, k as int));
            }
            assert(to@.subrange(0, k as int) =~= to@);
            assert(rest.subrange(from@.len() as int, rest.len() as int) =~= s@.subrange(
                i + from@.len(),
                n as int,
            ));
            assert(out@ + replaced(s@.subrange(i + from@.len(), n as int), from@, to@) =~= before
                + replaced(rest, from@, to@));
            i = i + from.len();
        } else {
            let ghost before = out@;
            out.push(s[i]);
            assert(rest.drop_first() =~= s@.subrange(i + 1, n as int));
            assert(out@ + replaced(s@.subrange(i + 1, n as int), from@, to@) =~= before + replaced(
                rest,
                from@,
                to@,
            ));
            i = i + 1;
        }
    }
    assert(out@ + replaced(s@.subrange(n as int, n as int), from@, to@) =~= out@);
    out
}

} // verus!
