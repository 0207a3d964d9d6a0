//! Small verified text utilities shared by the parsers, the registry codec,
//! the hook expansion and the name generators.

use vstd::prelude::*;

verus! {

/// Relies on `String::push`: appends exactly one character at the end.
pub assume_specification[ String::push ](s: &mut String, c: char)
    ensures
        final(s)@ == old(s)@.push(c),
;

/// The decimal digit character for a value below ten.
pub open spec fn dec_digit(d: int) -> char {
    ((d + 0x30) as u8) as char
}

/// The decimal representation of a natural number, most significant digit first.
pub open spec fn spec_dec(n: int) -> Seq<char>
    decreases n,
{
    if n < 10 {
        seq![dec_digit(n)]
    } else {
        spec_dec(n / 10).push(dec_digit(n % 10))
    }
}

/// Render a number in decimal.
pub fn u64_to_string(n: u64) -> (r: String)
    ensures
        r@ == spec_dec(n as int),
    decreases n,
{
    if n < 10 {
        let mut r = String::new();
        r.push((0x30u8 + n as u8) as char);
        r
    } else {
        let mut r = u64_to_string(n / 10);
        r.push((0x30u8 + (n % 10) as u8) as char);
        r
    }
}

/// An owned copy of an optional string.
pub fn clone_opt_string(s: &Option<String>) -> (r: Option<String>)
    ensures
        r == *s,
{
    match s {
        Some(x) => Some(x.clone()),
        None => None,
    }
}

/// An owned copy of a vector of strings.
pub fn clone_string_vec(v: &Vec<String>) -> (r: Vec<String>)
    ensures
        r@ == v@,
{
    let mut out: Vec<String> = Vec::new();
    let n = v.len();
    let mut i: usize = 0;
    while i < n
        invariant
            0 <= i <= n == v@.len(),
            out@.len() == i,
            forall|j: int| 0 <= j < i ==> out@[j] == v@[j],
        decreases n - i,
    {
        out.push(v[i].clone());
        i += 1;
    }
    proof {
        assert(out@ =~= v@);
    }
    out
}

/// An owned copy of a vector of string pairs.
pub fn clone_pairs(v: &Vec<(String, String)>) -> (r: Vec<(String, String)>)
    ensures
        r@ == v@,
{
    let mut out: Vec<(String, String)> = Vec::new();
    let n = v.len();
    let mut i: usize = 0;
    while i < n
        invariant
            0 <= i <= n == v@.len(),
            out@.len() == i,
            forall|j: int| 0 <= j < i ==> out@[j] == v@[j],
        decreases n - i,
    {
        let k = v[i].0.clone();
        let w = v[i].1.clone();
        proof {
            let pair = v@[i as int];
            assert(k == pair.0 && w == pair.1);
        }
        out.push((k, w));
        i += 1;
    }
    proof {
        assert(out@ =~= v@);
    }
    out
}

/// Whether two string slices hold the same characters.
pub fn str_eq(a: &str, b: &str) -> (r: bool)
    ensures
        r == (a@ == b@),
{
    let al = a.unicode_len();
    let bl = b.unicode_len();
    if al != bl {
        return false;
    }
    let mut i: usize = 0;
    while i < al
        invariant
            0 <= i <= al,
            al == a@.len() == b@.len(),
            forall|j: int| 0 <= j < i ==> a@[j] == b@[j],
        decreases al - i,
    {
        if a.get_char(i) != b.get_char(i) {
            return false;
        }
        i += 1;
    }
    assert(a@ =~= b@);
    true
}

/// Whether the vector holds a string equal to `s`.
pub fn contains_string(v: &Vec<String>, s: &str) -> (r: bool)
    ensures
        r == v@.map_values(|x: String| x@).contains(s@),
{
    let n = v.len();
    let mut i: usize = 0;
    while i < n
        invariant
            0 <= i <= n == v@.len(),
            forall|j: int| 0 <= j < i ==> (#[trigger] v@[j])@ != s@,
        decreases n - i,
    {
        if str_eq(v[i].as_str(), s) {
            assert(v@.map_values(|x: String| x@)[i as int] == s@);
            return true;
        }
        i += 1;
    }
    proof {
        let m = v@.map_values(|x: String| x@);
        assert forall|j: int| 0 <= j < v@.len() implies #[trigger] m[j] != s@ by {
            assert(m[j] == v@[j]@);
        }
    }
    false
}

/// Whether `p` is a prefix of `s`.
pub fn has_prefix(s: &str, p: &str) -> (r: bool)
    ensures
        r == p@.is_prefix_of(s@),
{
    let sl = s.unicode_len();
    let pl = p.unicode_len();
    if pl > sl {
        return false;
    }
    let mut i: usize = 0;
    while i < pl
        invariant
            0 <= i <= pl,
            pl == p@.len(),
            pl <= sl == s@.len(),
            forall|j: int| 0 <= j < i ==> s@[j] == p@[j],
        decreases pl - i,
    {
        if s.get_char(i) != p.get_char(i) {
            assert(!p@.is_prefix_of(s@)) by {
                assert(s@.subrange(0, pl as int)[i as int] == s@[i as int]);
            }
            return false;
        }
        i += 1;
    }
    assert(p@ =~= s@.subrange(0, pl as int));
    true
}

/// The characters of `s` from position `from` (inclusive) to `to` (exclusive).
pub fn substring(s: &str, from: usize, to: usize) -> (r: String)
    requires
        from <= to <= s@.len(),
    ensures
        r@ == s@.subrange(from as int, to as int),
{
    let mut r = String::new();
    let mut i: usize = from;
    while i < to
        invariant
            from <= i <= to <= s@.len(),
            r@ =~= s@.subrange(from as int, i as int),
        decreases to - i,
    {
        r.push(s.get_char(i));
        assert(r@ =~= s@.subrange(from as int, i + 1 as int));
        i += 1;
    }
    r
}

/// Copy a string slice into an owned string.
pub fn str_to_string(s: &str) -> (r: String)
    ensures
        r@ == s@,
{
    String::from_str(s)
}

/// Concatenate two string slices.
pub fn concat2(a: &str, b: &str) -> (r: String)
    ensures
        r@ == a@ + b@,
{
    let mut r = String::from_str(a);
    r.append(b);
    r
}

/// Concatenate three string slices.
pub fn concat3(a: &str, b: &str, c: &str) -> (r: String)
    ensures
        r@ == a@ + b@ + c@,
{
    let mut r = String::from_str(a);
    r.append(b);
    r.append(c);
    r
}

/// Where the first occurrence of `c` starts in `s`, or `s.len()` if `c` does
/// not occur.
pub open spec fn spec_find(s: Seq<char>, c: char) -> int
    decreases s.len(),
{
    if s.len() == 0 {
        0
    } else if s[0] == c {
        0
    } else {
        1 + spec_find(s.skip(1), c)
    }
}

pub proof fn lemma_spec_find(s: Seq<char>, c: char)
    ensures
        0 <= spec_find(s, c) <= s.len(),
        spec_find(s, c) < s.len() ==> s[spec_find(s, c)] == c,
        forall|j: int| 0 <= j < spec_find(s, c) ==> s[j] != c,
        spec_find(s, c) == s.len() ==> !s.contains(c),
    decreases s.len(),
{
    if s.len() == 0 {
    } else if s[0] == c {
    } else {
        lemma_spec_find(s.skip(1), c);
        assert forall|j: int| 0 <= j < spec_find(s, c) implies s[j] != c by {
            if j > 0 {
                assert(s.skip(1)[j - 1] == s[j]);
            }
        }
        if spec_find(s, c) == s.len() {
            assert forall|j: int| 0 <= j < s.len() implies s[j] != c by {}
            assert(!s.contains(c));
        }
    }
}

/// If `c` does not occur in `x`, the first occurrence of `c` in
/// `x + [c] + r` is exactly at `x.len()`.
pub proof fn lemma_find_boundary(x: Seq<char>, c: char, r: Seq<char>)
    requires
        !x.contains(c),
    ensures
        spec_find(x + seq![c] + r, c) == x.len(),
    decreases x.len(),
{
    let s = x + seq![c] + r;
    if x.len() == 0 {
        assert(s[0] == c);
    } else {
        assert(s[0] == x[0]);
        assert(x.contains(x[0]));
        lemma_find_boundary(x.skip(1), c, r);
        assert(s.skip(1) =~= x.skip(1) + seq![c] + r);
    }
}

/// The segments of `s` delimited by `c`; a trailing delimiter closes the last
/// segment without opening an empty one.
pub open spec fn spec_split(s: Seq<char>, c: char) -> Seq<Seq<char>>
    decreases s.len(),
    via spec_split_dec
{
    if s.len() == 0 {
        Seq::empty()
    } else {
        let i = spec_find(s, c);
        if i == s.len() {
            seq![s]
        } else {
            seq![s.take(i)] + spec_split(s.skip(i + 1), c)
        }
    }
}

#[via_fn]
proof fn spec_split_dec(s: Seq<char>, c: char) {
    lemma_spec_find(s, c);
}

proof fn lemma_split_step(x: Seq<char>, c: char, r: Seq<char>)
    requires
        !x.contains(c),
    ensures
        spec_split(x + seq![c] + r, c) == seq![x] + spec_split(r, c),
{
    let s = x + seq![c] + r;
    lemma_find_boundary(x, c, r);
    lemma_spec_find(x, c);
    assert(s.len() > 0);
    assert(s.take(x.len() as int) =~= x);
    assert(s.skip(x.len() as int + 1) =~= r);
}

proof fn lemma_split_whole(x: Seq<char>, c: char)
    requires
        !x.contains(c),
        x.len() > 0,
    ensures
        spec_split(x, c) == seq![x],
{
    lemma_spec_find(x, c);
    if spec_find(x, c) < x.len() {
        assert(x.contains(x[spec_find(x, c)]));
    }
}

/// Split `s` into the lines delimited by newline characters.
pub fn split_lines(s: &str) -> (r: Vec<String>)
    ensures
        r@.map_values(|l: String| l@) == spec_split(s@, '\n'),
{
    split_char(s, '\n')
}

/// Split `s` into the segments delimited by `c`, exactly as `spec_split`
/// describes.
pub fn split_char(s: &str, c: char) -> (r: Vec<String>)
    ensures
        r@.map_values(|l: String| l@) == spec_split(s@, c),
{
    let n = s.unicode_len();
    let mut out: Vec<String> = Vec::new();
    let mut cur = String::new();
    let mut i: usize = 0;
    proof {
        assert(cur@ + s@.skip(0) =~= s@);
        assert(out@.map_values(|l: String| l@) =~= Seq::<Seq<char>>::empty());
    }
    while i < n
        invariant
            0 <= i <= n == s@.len(),
            !cur@.contains(c),
            spec_split(s@, c) == out@.map_values(|l: String| l@) + spec_split(
                cur@ + s@.skip(i as int),
                c,
            ),
        decreases n - i,
    {
        let ch = s.get_char(i);
        let ghost rest = s@.skip(i as int);
        let ghost rest1 = s@.skip(i + 1 as int);
        proof {
            assert(rest =~= seq![s@[i as int]] + rest1);
        }
        if ch == c {
            proof {
                assert(cur@ + rest =~= cur@ + seq![c] + rest1);
                lemma_split_step(cur@, c, rest1);
            }
            out.push(cur);
            cur = String::new();
            proof {
                assert(out@.map_values(|l: String| l@) =~= out@.drop_last().map_values(
                    |l: String| l@,
                ).push(out@.last()@));
            }
        } else {
            proof {
                assert((cur@ + rest) =~= (cur@.push(ch) + rest1));
            }
            cur.push(ch);
        }
        i += 1;
    }
    proof {
        assert(cur@ + s@.skip(n as int) =~= cur@);
    }
    if cur.unicode_len() > 0 {
        proof {
            lemma_split_whole(cur@, c);
        }
        out.push(cur);
        proof {
            assert(out@.map_values(|l: String| l@) =~= out@.drop_last().map_values(
                |l: String| l@,
            ).push(out@.last()@));
        }
    }
    out
}

} // verus!

verus! {

/// `s` with every occurrence of `pat` replaced by `rep`, scanning left to
/// right without revisiting replaced text.
pub open spec fn spec_replace(s: Seq<char>, pat: Seq<char>, rep: Seq<char>) -> Seq<char>
    decreases s.len(),
    when pat.len() > 0
{
    if s.len() < pat.len() {
        s
    } else if pat.is_prefix_of(s) {
        rep + spec_replace(s.skip(pat.len() as int), pat, rep)
    } else {
        seq![s[0]] + spec_replace(s.skip(1), pat, rep)
    }
}

/// Whether `pat` matches `s` at position `i`.
pub fn matches_at(s: &str, i: usize, pat: &str) -> (r: bool)
    requires
        i <= s@.len(),
    ensures
        r == pat@.is_prefix_of(s@.skip(i as int)),
{
    let sl = s.unicode_len();
    let pl = pat.unicode_len();
    if pl > sl - i {
        proof {
            assert(s@.skip(i as int).len() < pat@.len());
        }
        return false;
    }
    let mut j: usize = 0;
    while j < pl
        invariant
            0 <= j <= pl == pat@.len(),
            i + pl <= sl == s@.len(),
            forall|k: int| 0 <= k < j ==> s@[i + k] == pat@[k],
        decreases pl - j,
    {
        if s.get_char(i + j) != pat.get_char(j) {
            proof {
                let suf = s@.skip(i as int);
                assert(suf[j as int] == s@[i + j]);
                if pat@.is_prefix_of(suf) {
                    assert(suf.subrange(0, pl as int)[j as int] == suf[j as int]);
                }
            }
            return false;
        }
        j += 1;
    }
    proof {
        let suf = s@.skip(i as int);
        assert forall|k: int| 0 <= k < pl implies suf.subrange(0, pl as int)[k] == pat@[k] by {
            assert(suf[k] == s@[i + k]);
        }
        assert(pat@ =~= suf.subrange(0, pl as int));
    }
    true
}

/// Replace every occurrence of `pat` in `s` by `rep`, left to right.
pub fn replace_all(s: &str, pat: &str, rep: &str) -> (r: String)
    requires
        pat@.len() > 0,
    ensures
        r@ == spec_replace(s@, pat@, rep@),
{
    let sl = s.unicode_len();
    let pl = pat.unicode_len();
    let mut out = String::new();
    let mut i: usize = 0;
    proof {
        assert(s@.skip(0) =~= s@);
        assert(out@ + spec_replace(s@.skip(0), pat@, rep@) =~= spec_replace(s@, pat@, rep@));
    }
    while pl <= sl && i <= sl - pl
        invariant
            0 <= i <= sl == s@.len(),
            pl == pat@.len() > 0,
            spec_replace(s@, pat@, rep@) == out@ + spec_replace(s@.skip(i as int), pat@, rep@),
        decreases sl - i,
    {
        let ghost suf = s@.skip(i as int);
        if matches_at(s, i, pat) {
            out.append(rep);
            proof {
                assert(suf.len() >= pl);
                assert(suf.skip(pl as int) =~= s@.skip(i + pl));
            }
            i += pl;
        } else {
            proof {
                assert(suf.len() >= pl);
                assert(suf[0] == s@[i as int]);
                assert(suf.skip(1) =~= s@.skip(i + 1));
            }
            out.push(s.get_char(i));
            i += 1;
        }
    }
    let tail = substring(s, i, sl);
    out.append(tail.as_str());
    proof {
        let suf = s@.skip(i as int);
        assert(suf.len() < pl);
        assert(spec_replace(suf, pat@, rep@) == suf);
        assert(tail@ =~= suf);
    }
    out
}

/// Whether `pat` occurs anywhere in `s`.
pub open spec fn occurs(s: Seq<char>, pat: Seq<char>) -> bool {
    exists|q: int|
        0 <= q && q + pat.len() <= s.len() && #[trigger] s.subrange(q, q + pat.len() as int)
            == pat
}

/// A suffix of the placeholder that is a prefix of the replaced text is
/// already a prefix of the original text, provided the replacement value
/// shares no character with the placeholder.
pub(crate) proof fn lemma_prefix_pullback(s: Seq<char>, p: Seq<char>, pat: Seq<char>, rep: Seq<char>)
    requires
        pat.len() > 0,
        rep.len() > 0,
        forall|a: int, b: int| 0 <= a < p.len() && 0 <= b < rep.len() ==> p[a] != rep[b],
        p.is_prefix_of(spec_replace(s, pat, rep)),
    ensures
        p.is_prefix_of(s),
    decreases s.len(),
{
    let r = spec_replace(s, pat, rep);
    if p.len() == 0 {
        assert(p =~= s.subrange(0, 0));
    } else if s.len() < pat.len() {
    } else if pat.is_prefix_of(s) {
        assert(r == rep + spec_replace(s.skip(pat.len() as int), pat, rep));
        assert(r[0] == rep[0]);
        assert(p[0] == r.subrange(0, p.len() as int)[0]);
        assert(p[0] != rep[0]);
        assert(false);
    } else {
        assert(r == seq![s[0]] + spec_replace(s.skip(1), pat, rep));
        assert(p[0] == r.subrange(0, p.len() as int)[0]);
        assert(r[0] == s[0]);
        let r1 = spec_replace(s.skip(1), pat, rep);
        assert forall|k: int|
            0 <= k < p.len() - 1 implies #[trigger] p.skip(1).subrange(0, p.len() - 1)[k]
            == r1.subrange(0, p.len() - 1)[k] by {
            assert(p.skip(1)[k] == p[k + 1]);
            assert(p[k + 1] == r.subrange(0, p.len() as int)[k + 1]);
            assert(r[k + 1] == r1[k]);
        }
        assert(p.skip(1).subrange(0, p.len() - 1) =~= p.skip(1));
        assert(p.skip(1) =~= r1.subrange(0, p.len() - 1));
        assert forall|a: int, b: int|
            0 <= a < p.skip(1).len() && 0 <= b < rep.len() implies #[trigger] p.skip(1)[a]
            != #[trigger] rep[b] by {
            assert(p.skip(1)[a] == p[a + 1]);
        }
        lemma_prefix_pullback(s.skip(1), p.skip(1), pat, rep);
        assert forall|k: int|
            0 <= k < p.len() implies #[trigger] s.subrange(0, p.len() as int)[k] == p[k] by {
            if k == 0 {
            } else {
                assert(p.skip(1)[k - 1] == p[k]);
                assert(s.skip(1).subrange(0, p.len() - 1)[k - 1] == s[k]);
            }
        }
        assert(p =~= s.subrange(0, p.len() as int));
    }
}

/// After replacement, no occurrence of the placeholder remains, provided the
/// replacement value is nonempty and shares no character with the
/// placeholder.
pub proof fn lemma_replace_removes_all(s: Seq<char>, pat: Seq<char>, rep: Seq<char>)
    requires
        pat.len() > 0,
        rep.len() > 0,
        forall|a: int, b: int|
            0 <= a < rep.len() && 0 <= b < pat.len() ==> rep[a] != pat[b],
    ensures
        !occurs(spec_replace(s, pat, rep), pat),
    decreases s.len(),
{
    let r = spec_replace(s, pat, rep);
    if s.len() < pat.len() {
        if occurs(r, pat) {
            let q = choose|q: int|
                0 <= q && q + pat.len() <= r.len() && #[trigger] r.subrange(
                    q,
                    q + pat.len() as int,
                ) == pat;
            assert(false);
        }
    } else if pat.is_prefix_of(s) {
        let r1 = spec_replace(s.skip(pat.len() as int), pat, rep);
        lemma_replace_removes_all(s.skip(pat.len() as int), pat, rep);
        if occurs(r, pat) {
            let q = choose|q: int|
                0 <= q && q + pat.len() <= r.len() && #[trigger] r.subrange(
                    q,
                    q + pat.len() as int,
                ) == pat;
            if q < rep.len() {
                assert(r.subrange(q, q + pat.len() as int)[0] == pat[0]);
                assert(r[q] == rep[q]);
                assert(rep[q] != pat[0]);
                assert(false);
            } else {
                assert forall|k: int|
                    0 <= k < pat.len() implies #[trigger] r1.subrange(
                    q - rep.len(),
                    q - rep.len() + pat.len(),
                )[k] == pat[k] by {
                    assert(r1[q - rep.len() + k] == r[q + k]);
                    assert(r.subrange(q, q + pat.len() as int)[k] == pat[k]);
                }
                assert(r1.subrange(q - rep.len(), q - rep.len() + pat.len()) =~= pat);
                assert(occurs(r1, pat));
                assert(false);
            }
        }
    } else {
        let r1 = spec_replace(s.skip(1), pat, rep);
        lemma_replace_removes_all(s.skip(1), pat, rep);
        if occurs(r, pat) {
            let q = choose|q: int|
                0 <= q && q + pat.len() <= r.len() && #[trigger] r.subrange(
                    q,
                    q + pat.len() as int,
                ) == pat;
            if q == 0 {
                assert(r.subrange(0, pat.len() as int) == pat);

                assert(pat =~= r.subrange(0, pat.len() as int));
                assert(pat.is_prefix_of(r));
                assert forall|a: int, b: int|
                    0 <= a < pat.len() && 0 <= b < rep.len() implies #[trigger] pat[a]
                    != #[trigger] rep[b] by {}
                lemma_prefix_pullback(s, pat, pat, rep);
                assert(false);
            } else {
                assert forall|k: int|
                    0 <= k < pat.len() implies #[trigger] r1.subrange(q - 1, q - 1 + pat.len())[
                    k
                ] == pat[k] by {
                    assert(r1[q - 1 + k] == r[q + k]);
                    assert(r.subrange(q, q + pat.len() as int)[k] == pat[k]);
                }
                assert(r1.subrange(q - 1, q - 1 + pat.len()) =~= pat);
                assert(occurs(r1, pat));
                assert(false);
            }
        }
    }
}

} // verus!
