//! Byte-level text helpers for header parsing: splitting on a separator,
//! trimming spaces, prefix tests and decimal parsing, each with an exact
//! functional contract.

use vstd::prelude::*;

verus! {

/// ASCII space or horizontal tab.
pub open spec fn is_ws(b: u8) -> bool {
    b == 32 || b == 9
}

/// `s` with leading whitespace removed.
pub open spec fn trim_front(s: Seq<u8>) -> Seq<u8>
    decreases s.len(),
{
    if s.len() > 0 && is_ws(s[0]) {
        trim_front(s.drop_first())
    } else {
        s
    }
}

/// `s` with trailing whitespace removed.
pub open spec fn trim_back(s: Seq<u8>) -> Seq<u8>
    decreases s.len(),
{
    if s.len() > 0 && is_ws(s[s.len() - 1]) {
        trim_back(s.drop_last())
    } else {
        s
    }
}

/// `s` with whitespace removed at both ends.
pub open spec fn spec_trim(s: Seq<u8>) -> Seq<u8> {
    trim_back(trim_front(s))
}

/// The fields of `s` split on the separator: one more field than there are
/// separators, in order, separators not included.
pub open spec fn split_on(s: Seq<u8>, sep: u8) -> Seq<Seq<u8>>
    decreases s.len(),
{
    if s.len() == 0 {
        seq![Seq::<u8>::empty()]
    } else if s[0] == sep {
        seq![Seq::<u8>::empty()] + split_on(s.drop_first(), sep)
    } else {
        let rest = split_on(s.drop_first(), sep);
        seq![seq![s[0]] + rest[0]] + rest.drop_first()
    }
}

/// Splitting never yields an empty field list.
pub proof fn lemma_split_on_nonempty(s: Seq<u8>, sep: u8)
    ensures
        split_on(s, sep).len() >= 1,
    decreases s.len(),
{
    if s.len() > 0 {
        lemma_split_on_nonempty(s.drop_first(), sep);
    }
}

/// The views of a list of byte vectors, in order.
pub open spec fn seq_views(fs: Seq<Vec<u8>>) -> Seq<Seq<u8>> {
    Seq::new(fs.len(), |k: int| fs[k]@)
}

/// Split a byte vector on a separator, as `split_on` describes.
pub fn split_bytes(v: &Vec<u8>, sep: u8) -> (r: Vec<Vec<u8>>)
    ensures
        seq_views(r@) == split_on(v@, sep),
        r@.len() >= 1,
{
    let ghost total = split_on(v@, sep);
    let mut fields: Vec<Vec<u8>> = Vec::new();
    let mut cur: Vec<u8> = Vec::new();
    let mut i: usize = 0;
    proof {
        lemma_split_on_nonempty(v@, sep);
        assert(v@.subrange(0, v@.len() as int) =~= v@);
    }
    while i < v.len()
        invariant
            i <= v@.len(),
            total == split_on(v@, sep),
            split_on(v@.subrange(i as int, v@.len() as int), sep).len() >= 1,
            total =~~= seq_views(fields@) + seq![
                cur@ + split_on(v@.subrange(i as int, v@.len() as int), sep)[0],
            ] + split_on(v@.subrange(i as int, v@.len() as int), sep).drop_first(),
        decreases v@.len() - i,
    {
        let ghost suf = v@.subrange(i as int, v@.len() as int);
        let ghost suf2 = v@.subrange(i + 1, v@.len() as int);
        proof {
            lemma_split_on_nonempty(suf2, sep);
            assert(suf.drop_first() =~= suf2);
            assert(suf[0] == v@[i as int]);
        }
        if v[i] == sep {
            let ghost fs = fields@;
            let ghost c0 = cur@;
            fields.push(cur);
            cur = Vec::new();
            proof {
                assert(seq_views(fields@) =~~= seq_views(fs) + seq![c0]);
                assert(split_on(suf, sep) =~= seq![Seq::<u8>::empty()] + split_on(suf2, sep));
                assert(total =~~= seq_views(fields@) + seq![
                    Seq::<u8>::empty() + split_on(suf2, sep)[0],
                ] + split_on(suf2, sep).drop_first());
            }
        } else {
            let b = v[i];
            let ghost c = cur@;
            cur.push(b);
            proof {
                assert(cur@ =~= c + seq![b]);
                assert(split_on(suf, sep)[0] == seq![b] + split_on(suf2, sep)[0]);
                assert(split_on(suf, sep).drop_first() =~= split_on(suf2, sep).drop_first());
                assert(c + (seq![b] + split_on(suf2, sep)[0]) =~= cur@ + split_on(suf2, sep)[0]);
            }
        }
        i = i + 1;
    }
    proof {
        let suf = v@.subrange(i as int, v@.len() as int);
        assert(suf =~= Seq::<u8>::empty());
        assert(split_on(suf, sep) =~= seq![Seq::<u8>::empty()]);
        assert(cur@ + Seq::<u8>::empty() =~= cur@);
    }
    let ghost fs = fields@;
    fields.push(cur);
    proof {
        assert(seq_views(fields@) =~= seq_views(fs) + seq![fields@[fs.len() as int]@]);
        assert(seq_views(fields@) =~~= total);
    }
    fields
}

/// Copy the byte range `[from, to)` out of `v`.
pub fn subvec(v: &Vec<u8>, from: usize, to: usize) -> (r: Vec<u8>)
    requires
        from <= to <= v@.len(),
    ensures
        r@ == v@.subrange(from as int, to as int),
{
    let mut r: Vec<u8> = Vec::new();
    let mut i: usize = from;
    while i < to
        invariant
            from <= i <= to <= v@.len(),
            r@ == v@.subrange(from as int, i as int),
        decreases to - i,
    {
        r.push(v[i]);
        assert(v@.subrange(from as int, i + 1 as int) =~= v@.subrange(from as int, i as int)
            + seq![v@[i as int]]);
        i = i + 1;
    }
    r
}

/// Whether two byte vectors hold the same bytes.
pub fn bytes_eq(a: &Vec<u8>, b: &Vec<u8>) -> (r: bool)
    ensures
        r == (a@ == b@),
{
    if a.len() != b.len() {
        assert(a@ != b@) by {
            assert(a@.len() != b@.len());
        }
        return false;
    }
    let mut i: usize = 0;
    while i < a.len()
        invariant
            a@.len() == b@.len(),
            i <= a@.len(),
            forall|j: int| 0 <= j < i ==> a@[j] == b@[j],
        decreases a@.len() - i,
    {
        if a[i] != b[i] {
            return false;
        }
        i = i + 1;
    }
    assert(a@ =~= b@);
    true
}

/// Whether `p` is a prefix of `s`.
pub open spec fn spec_starts_with(s: Seq<u8>, p: Seq<u8>) -> bool {
    p.len() <= s.len() && s.subrange(0, p.len() as int) == p
}

/// Prefix test on byte vectors.
pub fn starts_with(s: &Vec<u8>, p: &Vec<u8>) -> (r: bool)
    ensures
        r == spec_starts_with(s@, p@),
{
    if p.len() > s.len() {
        return false;
    }
    let mut i: usize = 0;
    while i < p.len()
        invariant
            p@.len() <= s@.len(),
            i <= p@.len(),
            forall|j: int| 0 <= j < i ==> s@[j] == p@[j],
        decreases p@.len() - i,
    {
        if s[i] != p[i] {
            assert(s@.subrange(0, p@.len() as int)[i as int] != p@[i as int]);
            return false;
        }
        i = i + 1;
    }
    assert(s@.subrange(0, p@.len() as int) =~= p@);
    true
}

/// Whether some byte of `s` equals `b`.
pub fn contains_byte(s: &Vec<u8>, b: u8) -> (r: bool)
    ensures
        r == s@.contains(b),
{
    let mut i: usize = 0;
    while i < s.len()
        invariant
            i <= s@.len(),
            forall|j: int| 0 <= j < i ==> s@[j] != b,
        decreases s@.len() - i,
    {
        if s[i] == b {
            return true;
        }
        i = i + 1;
    }
    false
}

/// Remove whitespace from both ends of a byte vector.
pub fn trim(v: Vec<u8>) -> (r: Vec<u8>)
    ensures
        r@ == spec_trim(v@),
{
    let mut v = v;
    let ghost orig = v@;
    while v.len() > 0 && (v[0] == 32 || v[0] == 9)
        invariant
            trim_front(v@) == trim_front(orig),
        decreases v@.len(),
    {
        let ghost before = v@;
        v.remove(0);
        assert(v@ =~= before.drop_first());
    }
    assert(v@ == trim_front(orig));
    let ghost f = v@;
    while v.len() > 0 && (v[v.len() - 1] == 32 || v[v.len() - 1] == 9)
        invariant
            trim_back(v@) == trim_back(f),
        decreases v@.len(),
    {
        let ghost before = v@;
        v.pop();
        assert(v@ =~= before.drop_last());
    }
    assert(v@ == trim_back(f));
    v
}

/// The first position where `pat` occurs in `b`, if any.
pub open spec fn spec_find_pat(b: Seq<u8>, pat: Seq<u8>) -> Option<int>
    decreases b.len(),
{
    if pat.len() == 0 {
        Some(0int)
    } else if b.len() < pat.len() {
        None
    } else if b.subrange(0, pat.len() as int) == pat {
        Some(0int)
    } else {
        match spec_find_pat(b.drop_first(), pat) {
            Some(i) => Some(i + 1),
            None => None,
        }
    }
}

/// A found occurrence really is one, and lies within the buffer.
pub proof fn lemma_find_pat_found(b: Seq<u8>, pat: Seq<u8>)
    requires
        spec_find_pat(b, pat) is Some,
    ensures
        0 <= spec_find_pat(b, pat)->0,
        spec_find_pat(b, pat)->0 + pat.len() <= b.len(),
        b.subrange(spec_find_pat(b, pat)->0, spec_find_pat(b, pat)->0 + pat.len() as int) == pat,
    decreases b.len(),
{
    let i = spec_find_pat(b, pat)->0;
    if pat.len() == 0 {
        assert(b.subrange(0, 0) =~= pat);
    } else if b.len() < pat.len() {
    } else if b.subrange(0, pat.len() as int) == pat {
    } else {
        lemma_find_pat_found(b.drop_first(), pat);
        let j = spec_find_pat(b.drop_first(), pat)->0;
        assert(b.drop_first().subrange(j, j + pat.len() as int) =~= b.subrange(
            i,
            i + pat.len() as int,
        ));
    }
}

/// Find the first occurrence of `pat` in `v`.
pub fn find_pat(v: &Vec<u8>, pat: &Vec<u8>) -> (r: Option<usize>)
    requires
        pat@.len() >= 1,
    ensures
        match r {
            Some(u) => spec_find_pat(v@, pat@) == Some(u as int),
            None => spec_find_pat(v@, pat@) is None,
        },
{
    let n = v.len();
    let m = pat.len();
    if n < m {
        return None;
    }
    let mut i: usize = 0;
    proof {
        assert(v@.subrange(0, n as int) =~= v@);
    }
    while i <= n - m
        invariant
            m >= 1,
            n == v@.len(),
            m == pat@.len(),
            n >= m,
            i <= n - m + 1,
            spec_find_pat(v@, pat@) == (match spec_find_pat(
                v@.subrange(i as int, n as int),
                pat@,
            ) {
                Some(j) => Some(i + j),
                None => None,
            }),
        decreases n - i,
    {
        let ghost suf = v@.subrange(i as int, n as int);
        let mut j: usize = 0;
        let mut hit = true;
        while j < m
            invariant
                m >= 1,
                n == v@.len(),
                m == pat@.len(),
                i + m <= n,
                j <= m,
                suf == v@.subrange(i as int, n as int),
                hit <==> (forall|t: int| 0 <= t < j ==> suf[t] == pat@[t]),
            decreases m - j,
        {
            if v[i + j] != pat[j] {
                hit = false;
                proof {
                    assert(suf[j as int] != pat@[j as int]);
                }
                j = m;
            } else {
                j = j + 1;
            }
        }
        proof {
            if hit {
                assert(suf.subrange(0, m as int) =~= pat@);
            } else {
                assert(suf.subrange(0, m as int) != pat@) by {
                    let t = choose|t: int| 0 <= t < m && suf[t] != pat@[t];
                    assert(suf.subrange(0, m as int)[t] != pat@[t]);
                }
            }
        }
        if hit {
            proof {
                assert(spec_find_pat(suf, pat@) == Some(0int));
            }
            return Some(i);
        }
        proof {
            assert(suf.drop_first() =~= v@.subrange(i + 1, n as int));
        }
        i = i + 1;
    }
    proof {
        let suf = v@.subrange(i as int, n as int);
        assert(suf.len() < m);
        assert(spec_find_pat(suf, pat@) is None);
    }
    None
}

/// The decimal value of a digit run, most significant digit first.
pub open spec fn digits_val(s: Seq<u8>) -> int
    decreases s.len(),
{
    if s.len() == 0 {
        0
    } else {
        digits_val(s.drop_last()) * 10 + (s[s.len() - 1] - 48)
    }
}

/// Whether every byte is an ASCII digit.
pub open spec fn all_digits(s: Seq<u8>) -> bool {
    forall|i: int| 0 <= i < s.len() ==> 48 <= #[trigger] s[i] <= 57
}

/// What `str::parse::<u8>` accepts: an optional leading `+`, then one or
/// more digits, with a value that fits in eight bits.
pub open spec fn spec_parse_u8(s: Seq<u8>) -> Option<u8> {
    let t = if s.len() > 0 && s[0] == 43 { s.drop_first() } else { s };
    if t.len() > 0 && all_digits(t) && digits_val(t) < 256 {
        Some(digits_val(t) as u8)
    } else {
        None
    }
}

/// A digit run's value is never negative.
proof fn lemma_digits_val_nonneg(s: Seq<u8>)
    requires
        all_digits(s),
    ensures
        digits_val(s) >= 0,
    decreases s.len(),
{
    if s.len() > 0 {
        assert(all_digits(s.drop_last()));
        lemma_digits_val_nonneg(s.drop_last());
    }
}

/// Parse a decimal number the way `str::parse::<u8>` does.
pub fn parse_u8_bytes(s: &Vec<u8>) -> (r: Option<u8>)
    ensures
        r == spec_parse_u8(s@),
{
    let start: usize = if s.len() > 0 && s[0] == 43 { 1 } else { 0 };
    let ghost t = if s@.len() > 0 && s@[0] == 43 { s@.drop_first() } else { s@ };
    assert(t =~= s@.subrange(start as int, s@.len() as int));
    if s.len() == start {
        return None;
    }
    let mut acc: u32 = 0;
    let mut i: usize = start;
    while i < s.len()
        invariant
            start <= i <= s@.len(),
            start < s@.len(),
            t == (if s@.len() > 0 && s@[0] == 43 { s@.drop_first() } else { s@ }),
            t =~= s@.subrange(start as int, s@.len() as int),
            all_digits(t.subrange(0, i - start)),
            acc <= 2569,
            digits_val(t.subrange(0, i - start)) < 256 ==> acc == digits_val(
                t.subrange(0, i - start),
            ),
            digits_val(t.subrange(0, i - start)) >= 256 ==> acc >= 256,
        decreases s@.len() - i,
    {
        let b = s[i];
        if b < 48 || b > 57 {
            proof {
                assert(0 <= i - start < t.len());
                assert(t[i - start] == b);
                assert(!(48 <= t[i - start] <= 57));
                assert(!all_digits(t));
            }
            return None;
        }
        proof {
            let p = t.subrange(0, i - start);
            let q = t.subrange(0, i + 1 - start);
            assert(q.drop_last() =~= p);
            assert(q[q.len() - 1] == b);
            lemma_digits_val_nonneg(p);
            if digits_val(p) >= 256 {
                assert(digits_val(q) == digits_val(p) * 10 + (b - 48));
                assert(digits_val(q) >= 256);
            }
        }
        if acc > 255 {
            acc = 256;
        }
        acc = acc * 10 + ((b - 48) as u32);
        i = i + 1;
    }
    proof {
        assert(t.subrange(0, s@.len() - start) =~= t);
        if digits_val(t) >= 256 {
            assert(acc >= 256);
        }
    }
    if acc > 255 {
        proof {
            lemma_digits_val_nonneg(t);
        }
        None
    } else {
        Some(acc as u8)
    }
}

/// The part of `s` after its last `sep`; all of `s` when `sep` does not
/// occur.
pub open spec fn after_last(s: Seq<u8>, sep: u8) -> Seq<u8>
    decreases s.len(),
{
    if s.len() == 0 {
        s
    } else if s[s.len() - 1] == sep {
        s.subrange(s.len() as int, s.len() as int)
    } else {
        after_last(s.drop_last(), sep) + seq![s[s.len() - 1]]
    }
}

/// The suffix after the last separator, as `split('=').last()` yields it.
pub fn after_last_byte(s: &Vec<u8>, sep: u8) -> (r: Vec<u8>)
    ensures
        r@ == after_last(s@, sep),
{
    let mut i: usize = s.len();
    proof {
        assert(s@.subrange(0, s@.len() as int) =~= s@);
        assert(after_last(s@, sep) + s@.subrange(s@.len() as int, s@.len() as int) =~= after_last(
            s@,
            sep,
        ));
    }
    while i > 0 && s[i - 1] != sep
        invariant
            i <= s@.len(),
            after_last(s@, sep) == after_last(s@.subrange(0, i as int), sep) + s@.subrange(
                i as int,
                s@.len() as int,
            ),
        decreases i,
    {
        proof {
            let p = s@.subrange(0, i as int);
            let q = s@.subrange(0, i - 1);
            let mid = s@.subrange(i as int, s@.len() as int);
            let tail = s@.subrange(i - 1, s@.len() as int);
            assert(p.drop_last() =~= q);
            assert(after_last(p, sep) == after_last(q, sep) + seq![s@[i - 1]]);
            assert(after_last(q, sep) + seq![s@[i - 1]] + mid =~= after_last(q, sep) + tail);
        }
        i = i - 1;
    }
    proof {
        if i > 0 {
            let p = s@.subrange(0, i as int);
            assert(p[p.len() - 1] == sep);
            assert(after_last(p, sep) =~= Seq::<u8>::empty());
            assert(Seq::<u8>::empty() + s@.subrange(i as int, s@.len() as int) =~= s@.subrange(
                i as int,
                s@.len() as int,
            ));
        } else {
            assert(s@.subrange(0, 0) =~= Seq::<u8>::empty());
            assert(after_last(Seq::<u8>::empty(), sep) =~= Seq::<u8>::empty());
            assert(Seq::<u8>::empty() + s@.subrange(0, s@.len() as int) =~= s@.subrange(
                0,
                s@.len() as int,
            ));
        }
    }
    subvec(s, i, s.len())
}

} // verus!
