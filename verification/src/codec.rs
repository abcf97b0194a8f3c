//! The byte format of the attribute files: ASCII decimal numerals
//! surrounded by whitespace, and whitespace-separated token lists.
//! Everything here is stated over the raw bytes that a read returns or a
//! write expects.

use vstd::prelude::*;

verus! {

/// Whitespace as the kernel may surround an attribute value with: space
/// and the ASCII control characters HT, LF, VT, FF and CR.
pub open spec fn is_space(b: u8) -> bool {
    b == 32 || (9 <= b && b <= 13)
}

/// ASCII decimal digit.
pub open spec fn is_digit(b: u8) -> bool {
    48 <= b && b <= 57
}

/// Every byte of `s` is a decimal digit.
pub open spec fn all_digits(s: Seq<u8>) -> bool {
    forall|i: int| 0 <= i < s.len() ==> is_digit(#[trigger] s[i])
}

/// Numeric value of a digit string, most significant digit first.
pub open spec fn dec_value(s: Seq<u8>) -> int
    decreases s.len(),
{
    if s.len() == 0 {
        0
    } else {
        dec_value(s.drop_last()) * 10 + s.last() - 48
    }
}

/// The digit portion of a numeral: everything after an optional leading
/// plus sign.
pub open spec fn digits_of(s: Seq<u8>) -> Seq<u8> {
    if s.len() > 0 && s[0] == 43 {
        s.drop_first()
    } else {
        s
    }
}

/// `s` is a numeral an eight-bit attribute accepts: an optional plus sign,
/// then one or more digits, denoting a value of at most 255. Leading
/// zeros are allowed and do not change the value.
pub open spec fn is_u8_numeral(s: Seq<u8>) -> bool {
    &&& digits_of(s).len() > 0
    &&& all_digits(digits_of(s))
    &&& dec_value(digits_of(s)) <= 255
}

/// The value a numeral denotes.
pub open spec fn numeral_value(s: Seq<u8>) -> int {
    dec_value(digits_of(s))
}

/// `s` without its leading whitespace.
pub open spec fn trim_start(s: Seq<u8>) -> Seq<u8>
    decreases s.len(),
{
    if s.len() > 0 && is_space(s[0]) {
        trim_start(s.drop_first())
    } else {
        s
    }
}

/// `s` without its trailing whitespace.
pub open spec fn trim_end(s: Seq<u8>) -> Seq<u8>
    decreases s.len(),
{
    if s.len() > 0 && is_space(s.last()) {
        trim_end(s.drop_last())
    } else {
        s
    }
}

/// `s` without surrounding whitespace.
pub open spec fn trim(s: Seq<u8>) -> Seq<u8> {
    trim_end(trim_start(s))
}

/// A digit string denotes a nonnegative value.
proof fn lemma_dec_value_nonneg(s: Seq<u8>)
    requires
        all_digits(s),
    ensures
        dec_value(s) >= 0,
    decreases s.len(),
{
    if s.len() > 0 {
        let p = s.drop_last();
        assert forall|k: int| 0 <= k < p.len() implies is_digit(#[trigger] p[k]) by {
            assert(is_digit(s[k]));
        }
        lemma_dec_value_nonneg(p);
        assert(is_digit(s[s.len() - 1]));
    }
}

/// Extending a digit string to the right never lowers its value.
proof fn lemma_dec_value_grows(s: Seq<u8>, k: int)
    requires
        all_digits(s),
        0 <= k <= s.len(),
    ensures
        dec_value(s.subrange(0, k)) <= dec_value(s),
    decreases s.len() - k,
{
    if k == s.len() {
        assert(s.subrange(0, k) =~= s);
    } else {
        let p = s.drop_last();
        assert forall|k2: int| 0 <= k2 < p.len() implies is_digit(#[trigger] p[k2]) by {
            assert(is_digit(s[k2]));
        }
        lemma_dec_value_nonneg(p);
        assert(is_digit(s[s.len() - 1]));
        lemma_dec_value_grows(p, k);
        assert(p.subrange(0, k) =~= s.subrange(0, k));
    }
}

/// Where the leading whitespace ends, `trim_start` cuts.
proof fn lemma_trim_start_at(s: Seq<u8>, k: int)
    requires
        0 <= k <= s.len(),
        forall|i: int| 0 <= i < k ==> is_space(#[trigger] s[i]),
        k == s.len() || !is_space(s[k]),
    ensures
        trim_start(s) == s.subrange(k, s.len() as int),
    decreases k,
{
    if k == 0 {
        assert(s.subrange(0, s.len() as int) =~= s);
    } else {
        let t = s.drop_first();
        assert(is_space(s[0]));
        assert forall|i: int| 0 <= i < k - 1 implies is_space(#[trigger] t[i]) by {
            assert(is_space(s[i + 1]));
        }
        lemma_trim_start_at(t, k - 1);
        assert(t.subrange(k - 1, t.len() as int) =~= s.subrange(k, s.len() as int));
    }
}

/// Where the trailing whitespace begins, `trim_end` cuts.
proof fn lemma_trim_end_at(s: Seq<u8>, k: int)
    requires
        0 <= k <= s.len(),
        forall|i: int| k <= i < s.len() ==> is_space(#[trigger] s[i]),
        k == 0 || !is_space(s[k - 1]),
    ensures
        trim_end(s) == s.subrange(0, k),
    decreases s.len(),
{
    if k == s.len() {
        assert(s.subrange(0, k) =~= s);
    } else {
        assert(is_space(s[s.len() - 1]));
        let p = s.drop_last();
        assert forall|i: int| k <= i < p.len() implies is_space(#[trigger] p[i]) by {
            assert(is_space(s[i]));
        }
        lemma_trim_end_at(p, k);
        assert(p.subrange(0, k) =~= s.subrange(0, k));
    }
}

/// Parse the bytes of `s` between `start` and `end` as an eight-bit
/// decimal numeral.
fn parse_u8_range(s: &[u8], start: usize, end: usize) -> (parsed: Option<u8>)
    requires
        start <= end <= s@.len(),
    ensures
        ({
            let t = s@.subrange(start as int, end as int);
            match parsed {
                Some(v) => is_u8_numeral(t) && v == numeral_value(t),
                None => !is_u8_numeral(t),
            }
        }),
{
    let ghost t = s@.subrange(start as int, end as int);
    let mut i: usize = start;
    if i < end && s[i] == 43 {
        i += 1;
    }
    proof {
        assert(s@.subrange(i as int, end as int) =~= digits_of(t));
    }
    let ghost ds = digits_of(t);
    if i == end {
        return None;
    }
    let mut acc: u16 = 0;
    let mut j: usize = i;
    while j < end
        invariant
            start <= i <= j <= end <= s@.len(),
            t == s@.subrange(start as int, end as int),
            ds == digits_of(t),
            ds == s@.subrange(i as int, end as int),
            all_digits(s@.subrange(i as int, j as int)),
            acc == dec_value(s@.subrange(i as int, j as int)),
            acc <= 255,
        decreases end - j,
    {
        let b: u8 = s[j];
        if !(48 <= b && b <= 57) {
            proof {
                assert(ds[j - i] == b);
            }
            return None;
        }
        proof {
            assert(s@.subrange(i as int, j + 1 as int).drop_last() =~= s@.subrange(
                i as int,
                j as int,
            ));
            assert(s@.subrange(i as int, j + 1 as int).last() == b);
            assert forall|k: int|
                0 <= k < s@.subrange(i as int, j + 1 as int).len() implies is_digit(
                #[trigger] s@.subrange(i as int, j + 1 as int)[k],
            ) by {
                if k < j - i {
                    assert(is_digit(s@.subrange(i as int, j as int)[k]));
                }
            }
        }
        let next: u16 = acc * 10 + (b - 48) as u16;
        if next > 255 {
            proof {
                if all_digits(ds) {
                    lemma_dec_value_grows(ds, j - i + 1);
                    assert(ds.subrange(0, j - i + 1) =~= s@.subrange(i as int, j + 1 as int));
                }
            }
            return None;
        }
        acc = next;
        j += 1;
    }
    proof {
        assert(s@.subrange(i as int, j as int) =~= ds);
    }
    Some(acc as u8)
}

/// Parse a whole byte string as an eight-bit decimal numeral, with no
/// surrounding whitespace allowed.
pub fn parse_u8_numeral(s: &[u8]) -> (parsed: Option<u8>)
    ensures
        match parsed {
            Some(v) => is_u8_numeral(s@) && v == numeral_value(s@),
            None => !is_u8_numeral(s@),
        },
{
    let r = parse_u8_range(s, 0, s.len());
    proof {
        assert(s@.subrange(0, s@.len() as int) =~= s@);
    }
    r
}

/// Parse attribute-file content as an eight-bit decimal numeral after
/// stripping surrounding whitespace, as a brightness read does.
pub fn parse_attr_u8(content: &[u8]) -> (parsed: Option<u8>)
    ensures
        match parsed {
            Some(v) => is_u8_numeral(trim(content@)) && v == numeral_value(trim(content@)),
            None => !is_u8_numeral(trim(content@)),
        },
{
    let n: usize = content.len();
    let mut lo: usize = 0;
    while lo < n && (content[lo] == 32 || (9 <= content[lo] && content[lo] <= 13))
        invariant
            0 <= lo <= n == content@.len(),
            forall|i: int| 0 <= i < lo ==> is_space(#[trigger] content@[i]),
        decreases n - lo,
    {
        lo += 1;
    }
    if lo == n {
        proof {
            lemma_trim_start_at(content@, n as int);
            assert(trim_start(content@) =~= Seq::<u8>::empty());
        }
        return None;
    }
    let mut hi: usize = n;
    while hi > lo && (content[hi - 1] == 32 || (9 <= content[hi - 1] && content[hi - 1] <= 13))
        invariant
            lo < hi <= n == content@.len(),
            !is_space(content@[lo as int]),
            forall|i: int| hi <= i < n ==> is_space(#[trigger] content@[i]),
        decreases hi,
    {
        hi -= 1;
    }
    proof {
        lemma_trim_start_at(content@, lo as int);
        let t1 = content@.subrange(lo as int, n as int);
        assert forall|i: int| hi - lo <= i < t1.len() implies is_space(#[trigger] t1[i]) by {
            assert(is_space(content@[lo + i]));
        }
        assert(t1[hi - lo - 1] == content@[hi - 1]);
        lemma_trim_end_at(t1, hi - lo);
        assert(t1.subrange(0, hi - lo) =~= content@.subrange(lo as int, hi as int));
    }
    parse_u8_range(content, lo, hi)
}

/// The whitespace-separated tokens of `s`, in order. Any run of
/// whitespace separates; leading and trailing whitespace is ignored.
pub open spec fn tokens(s: Seq<u8>) -> Seq<Seq<u8>>
    decreases s.len(),
{
    if s.len() == 0 {
        Seq::<Seq<u8>>::empty()
    } else {
        let pre = tokens(s.drop_last());
        let b = s.last();
        if is_space(b) {
            pre
        } else if s.len() >= 2 && !is_space(s[s.len() - 2]) {
            pre.update(pre.len() - 1, pre.last().push(b))
        } else {
            pre.push(seq![b])
        }
    }
}

/// Content that ends in a token byte has at least one token.
proof fn lemma_tokens_nonempty(s: Seq<u8>)
    requires
        s.len() > 0,
        !is_space(s.last()),
    ensures
        tokens(s).len() > 0,
    decreases s.len(),
{
    if s.len() >= 2 && !is_space(s[s.len() - 2]) {
        let p = s.drop_last();
        assert(p.last() == s[s.len() - 2]);
        lemma_tokens_nonempty(p);
    }
}

/// Space-free content is one single token.
proof fn lemma_tokens_single(u: Seq<u8>)
    requires
        u.len() > 0,
        forall|i: int| 0 <= i < u.len() ==> !is_space(#[trigger] u[i]),
    ensures
        tokens(u) == seq![u],
    decreases u.len(),
{
    if u.len() == 1 {
        assert(u.drop_last() =~= Seq::<u8>::empty());
        assert(!is_space(u.last()));
        assert(tokens(Seq::<u8>::empty()) =~= Seq::<Seq<u8>>::empty());
        assert(tokens(u) =~= seq![seq![u.last()]]);
        assert(seq![u.last()] =~= u);
        assert(tokens(u) =~= seq![u]);
    } else {
        let p = u.drop_last();
        assert forall|i: int| 0 <= i < p.len() implies !is_space(#[trigger] p[i]) by {
            assert(!is_space(u[i]));
        }
        lemma_tokens_single(p);
        assert(!is_space(u[u.len() - 2]));
        assert(p.push(u.last()) =~= u);
        assert(seq![p].update(0, u) =~= seq![u]);
    }
}

/// Appending one whitespace byte leaves the token list unchanged.
proof fn lemma_tokens_append_space(a: Seq<u8>, sp: u8)
    requires
        is_space(sp),
    ensures
        tokens(a.push(sp)) == tokens(a),
{
    assert(a.push(sp).drop_last() =~= a);
}

/// Appending a space-free token to content that is empty or ends in
/// whitespace appends exactly that token to the token list.
proof fn lemma_tokens_append_token(a: Seq<u8>, u: Seq<u8>)
    requires
        a.len() == 0 || is_space(a.last()),
        u.len() > 0,
        forall|i: int| 0 <= i < u.len() ==> !is_space(#[trigger] u[i]),
    ensures
        tokens(a + u) == tokens(a).push(u),
    decreases u.len(),
{
    let s = a + u;
    if u.len() == 1 {
        assert(s.drop_last() =~= a);
        assert(s.last() == u[0]);
        if a.len() > 0 {
            assert(s[s.len() - 2] == a.last());
        }
        assert(seq![u[0]] =~= u);
    } else {
        let u0 = u.drop_last();
        assert forall|i: int| 0 <= i < u0.len() implies !is_space(#[trigger] u0[i]) by {
            assert(!is_space(u[i]));
        }
        lemma_tokens_append_token(a, u0);
        assert(s.drop_last() =~= a + u0);
        assert(s.last() == u.last());
        assert(s[s.len() - 2] == u[u.len() - 2]);
        assert(!is_space(u.last()));
        let pre = tokens(a).push(u0);
        assert(pre.last() == u0);
        assert(u0.push(u.last()) =~= u);
        assert(pre.update(pre.len() - 1, u) =~= tokens(a).push(u));
    }
}

/// Three space-free tokens joined by single spaces tokenize back into
/// exactly those three tokens.
pub proof fn lemma_triple_tokens(x: Seq<u8>, y: Seq<u8>, z: Seq<u8>)
    requires
        x.len() > 0,
        y.len() > 0,
        z.len() > 0,
        forall|i: int| 0 <= i < x.len() ==> !is_space(#[trigger] x[i]),
        forall|i: int| 0 <= i < y.len() ==> !is_space(#[trigger] y[i]),
        forall|i: int| 0 <= i < z.len() ==> !is_space(#[trigger] z[i]),
    ensures
        tokens(x + seq![32u8] + y + seq![32u8] + z) == seq![x, y, z],
{
    lemma_tokens_single(x);
    let s1 = x + seq![32u8];
    assert(s1 =~= x.push(32u8));
    lemma_tokens_append_space(x, 32u8);
    assert(tokens(s1) == seq![x]);
    let s2 = s1 + y;
    lemma_tokens_append_token(s1, y);
    assert(tokens(s2) == seq![x].push(y));
    let s3 = s2 + seq![32u8];
    assert(s3 =~= s2.push(32u8));
    lemma_tokens_append_space(s2, 32u8);
    let s4 = s3 + z;
    assert(s3.last() == 32u8);
    lemma_tokens_append_token(s3, z);
    assert(tokens(s4) == seq![x].push(y).push(z));
    assert(seq![x].push(y).push(z) =~= seq![x, y, z]);
}

/// Split attribute-file content into its whitespace-separated tokens, as
/// an RGB read does.
pub fn split_tokens(content: &[u8]) -> (toks: Vec<Vec<u8>>)
    ensures
        toks@.len() == tokens(content@).len(),
        forall|k: int| 0 <= k < toks@.len() ==> toks@[k]@ == tokens(content@)[k],
{
    let n: usize = content.len();
    let mut toks: Vec<Vec<u8>> = Vec::new();
    let mut i: usize = 0;
    while i < n
        invariant
            0 <= i <= n == content@.len(),
            toks@.len() == tokens(content@.subrange(0, i as int)).len(),
            forall|k: int|
                0 <= k < toks@.len() ==> toks@[k]@ == tokens(content@.subrange(0, i as int))[k],
        decreases n - i,
    {
        let b: u8 = content[i];
        proof {
            assert(content@.subrange(0, i + 1 as int).drop_last() =~= content@.subrange(
                0,
                i as int,
            ));
            assert(content@.subrange(0, i + 1 as int).last() == b);
        }
        if b == 32 || (9 <= b && b <= 13) {
            // a separator: the token list does not change
        } else if i > 0 && !(content[i - 1] == 32 || (9 <= content[i - 1] && content[i - 1]
            <= 13)) {
            // the current token continues
            proof {
                assert(content@.subrange(0, i as int).last() == content@[i - 1]);
                lemma_tokens_nonempty(content@.subrange(0, i as int));
            }
            let mut last_tok: Vec<u8> = toks.pop().unwrap();
            last_tok.push(b);
            toks.push(last_tok);
            proof {
                let prev = tokens(content@.subrange(0, i as int));
                let cur = tokens(content@.subrange(0, i + 1 as int));
                assert(cur == prev.update(prev.len() - 1, prev.last().push(b)));
                assert forall|k: int| 0 <= k < toks@.len() implies toks@[k]@ == cur[k] by {
                    if k < toks@.len() - 1 {
                        assert(toks@[k]@ == prev[k]);
                    }
                }
            }
        } else {
            // a new token begins
            let mut t: Vec<u8> = Vec::new();
            t.push(b);
            toks.push(t);
            proof {
                let prev = tokens(content@.subrange(0, i as int));
                let cur = tokens(content@.subrange(0, i + 1 as int));
                if i > 0 {
                    assert(content@.subrange(0, i as int).last() == content@[i - 1]);
                }
                assert(cur == prev.push(seq![b]));
                assert(t@ =~= seq![b]);
            }
        }
        i += 1;
    }
    proof {
        assert(content@.subrange(0, n as int) =~= content@);
    }
    toks
}

/// The decimal numeral of `n`: most significant digit first, no sign, no
/// leading zero except for zero itself.
pub open spec fn dec_of(n: nat) -> Seq<u8>
    decreases n,
{
    if n < 10 {
        seq![(48 + n) as u8]
    } else {
        dec_of(n / 10).push((48 + n % 10) as u8)
    }
}

/// The decimal numeral of `n` is a digit string denoting `n`.
pub proof fn lemma_dec_of(n: nat)
    ensures
        dec_of(n).len() > 0,
        all_digits(dec_of(n)),
        dec_value(dec_of(n)) == n,
    decreases n,
{
    if n < 10 {
        let d = (48 + n) as u8;
        assert(seq![d].drop_last() =~= Seq::<u8>::empty());
        assert(dec_value(Seq::<u8>::empty()) == 0);
        assert(dec_value(seq![d]) == d - 48);
    } else {
        lemma_dec_of(n / 10);
        let p = dec_of(n / 10);
        let d = (48 + n % 10) as u8;
        assert(p.push(d).drop_last() =~= p);
        assert forall|k: int| 0 <= k < p.push(d).len() implies is_digit(#[trigger] p.push(d)[k]) by {
            if k < p.len() {
                assert(is_digit(p[k]));
            }
        }
        assert(dec_value(p.push(d)) == dec_value(p) * 10 + d - 48);
        assert(n / 10 * 10 + n % 10 == n);
    }
}

/// A numeral written by the library parses back to the value it was
/// written from, with nothing to trim and no sign to skip.
pub proof fn lemma_u8_numeral_round_trip(n: u8)
    ensures
        trim(dec_of(n as nat)) == dec_of(n as nat),
        is_u8_numeral(dec_of(n as nat)),
        numeral_value(dec_of(n as nat)) == n,
{
    lemma_dec_of(n as nat);
    let s = dec_of(n as nat);
    assert(is_digit(s[0]));
    assert(digits_of(s) == s);
    lemma_trim_start_at(s, 0);
    assert(s.subrange(0, s.len() as int) =~= s);
    assert(is_digit(s[s.len() - 1]));
    lemma_trim_end_at(s, s.len() as int);
    assert(trim_end(s) =~= s);
}

/// Render `n` as the decimal bytes a brightness write sends.
pub fn dec_digits(n: u8) -> (digits: Vec<u8>)
    ensures
        digits@ == dec_of(n as nat),
{
    let mut v: Vec<u8> = Vec::new();
    if n >= 100 {
        v.push(48 + n / 100);
    }
    if n >= 10 {
        v.push(48 + (n / 10) % 10);
    }
    v.push(48 + n % 10);
    proof {
        if n < 10 {
            assert(v@ =~= dec_of(n as nat));
        } else if n < 100 {
            assert(dec_of(n as nat) == dec_of(n as nat / 10).push((48 + n as nat % 10) as u8));
            assert(v@ =~= dec_of(n as nat));
        } else {
            let m = n as nat / 10;
            assert(m >= 10);
            assert(dec_of(n as nat) == dec_of(m).push((48 + n as nat % 10) as u8));
            assert(dec_of(m) == dec_of(m / 10).push((48 + m % 10) as u8));
            assert(m / 10 == n as nat / 100) by (nonlinear_arith)
                requires
                    m == n as nat / 10,
                    100 <= n < 256,
            ;
            assert(m / 10 < 10);
            assert(v@ =~= dec_of(n as nat));
        }
    }
    v
}

} // verus!
