//! Character-level string helpers shared by the wire codec, the renderers
//! and the validators: conversions between `String` and `Vec<char>`,
//! decimal digits for `u64`, and ASCII case folding.

use vstd::prelude::*;

verus! {

/// Relies on `String::push`: appends exactly one character at the end.
#[verifier::external_body]
pub(crate) fn push_char(s: &mut String, c: char)
    ensures
        final(s)@ == old(s)@ + seq![c],
{
    s.push(c);
}

/// Collects the characters of a string slice into a vector.
pub fn str_to_chars(s: &str) -> (v: Vec<char>)
    ensures
        v@ == s@,
{
    let len = s.unicode_len();
    let mut v: Vec<char> = Vec::new();
    let mut i: usize = 0;
    while i < len
        invariant
            i <= len,
            len == s@.len(),
            v@ == s@.subrange(0, i as int),
        decreases len - i,
    {
        v.push(s.get_char(i));
        proof {
            assert(v@ =~= s@.subrange(0, i + 1 as int));
        }
        i = i + 1;
    }
    proof {
        assert(v@ =~= s@);
    }
    v
}

/// Builds a `String` holding exactly the given characters.
pub fn chars_to_string(v: &Vec<char>) -> (s: String)
    ensures
        s@ == v@,
{
    let mut s = String::new();
    let mut i: usize = 0;
    while i < v.len()
        invariant
            i <= v@.len(),
            s@ == v@.subrange(0, i as int),
        decreases v@.len() - i,
    {
        push_char(&mut s, v[i]);
        proof {
            assert(s@ =~= v@.subrange(0, i + 1 as int));
        }
        i = i + 1;
    }
    proof {
        assert(s@ =~= v@);
    }
    s
}

/// Appends the characters of a string slice to a vector.
pub fn append_str(out: &mut Vec<char>, s: &str)
    ensures
        final(out)@ == old(out)@ + s@,
{
    let len = s.unicode_len();
    let mut i: usize = 0;
    while i < len
        invariant
            i <= len,
            len == s@.len(),
            out@ == old(out)@ + s@.subrange(0, i as int),
        decreases len - i,
    {
        out.push(s.get_char(i));
        proof {
            assert(out@ =~= old(out)@ + s@.subrange(0, i + 1 as int));
        }
        i = i + 1;
    }
    proof {
        assert(out@ =~= old(out)@ + s@);
    }
}

/// The decimal digit character for a value below ten.
pub open spec fn digit_char(d: int) -> char {
    if d == 0 { '0' } else if d == 1 { '1' } else if d == 2 { '2' } else if d == 3 { '3' }
    else if d == 4 { '4' } else if d == 5 { '5' } else if d == 6 { '6' } else if d == 7 { '7' }
    else if d == 8 { '8' } else { '9' }
}

/// The canonical decimal rendering of a natural number.
pub open spec fn spec_u64_chars(n: int) -> Seq<char>
    decreases n,
{
    if n < 10 {
        seq![digit_char(n)]
    } else {
        spec_u64_chars(n / 10) + seq![digit_char(n % 10)]
    }
}

fn digit_char_exec(d: u64) -> (c: char)
    requires
        d < 10,
    ensures
        c == digit_char(d as int),
{
    match d {
        0 => '0', 1 => '1', 2 => '2', 3 => '3', 4 => '4',
        5 => '5', 6 => '6', 7 => '7', 8 => '8', _ => '9',
    }
}

/// Appends the decimal rendering of `n` to `out`.
pub fn append_u64_chars(n: u64, out: &mut Vec<char>)
    ensures
        final(out)@ == old(out)@ + spec_u64_chars(n as int),
    decreases n,
{
    if n < 10 {
        out.push(digit_char_exec(n));
    } else {
        append_u64_chars(n / 10, out);
        out.push(digit_char_exec(n % 10));
        proof {
            assert(old(out)@ + spec_u64_chars((n / 10) as int) + seq![digit_char((n % 10) as int)]
                =~= old(out)@ + spec_u64_chars(n as int));
        }
    }
}

/// Whether `c` is a decimal digit.
pub open spec fn is_digit(c: char) -> bool {
    '0' <= c && c <= '9'
}

/// The numeric value of a digit character.
pub open spec fn digit_val(c: char) -> int {
    c as int - '0' as int
}

/// The number denoted by a digit sequence, read left to right.
pub open spec fn spec_digits_val(s: Seq<char>) -> int
    decreases s.len(),
{
    if s.len() == 0 {
        0
    } else {
        spec_digits_val(s.drop_last()) * 10 + digit_val(s.last())
    }
}

/// Every character of the canonical rendering is a digit, the sequence is
/// non-empty, and it denotes the number it was made from.
pub proof fn lemma_u64_chars_val(n: int)
    requires
        0 <= n,
    ensures
        spec_u64_chars(n).len() >= 1,
        forall|i: int| 0 <= i < spec_u64_chars(n).len() ==> is_digit(#[trigger] spec_u64_chars(n)[i]),
        spec_digits_val(spec_u64_chars(n)) == n,
        spec_u64_chars(n)[0] != '0' || n < 10,
    decreases n,
{
    if n < 10 {
        assert(spec_u64_chars(n) =~= seq![digit_char(n)]);
        assert(spec_digits_val(seq![digit_char(n)].drop_last()) == 0);
    } else {
        lemma_u64_chars_val(n / 10);
        let pre = spec_u64_chars(n / 10);
        let whole = spec_u64_chars(n);
        assert(whole =~= pre + seq![digit_char(n % 10)]);
        assert(whole.drop_last() =~= pre);
        assert(digit_val(digit_char(n % 10)) == n % 10);
        assert(spec_digits_val(whole) == spec_digits_val(pre) * 10 + n % 10);
        assert(spec_digits_val(pre) * 10 + n % 10 == (n / 10) * 10 + n % 10);
        assert((n / 10) * 10 + n % 10 == n) by (nonlinear_arith)
            requires n >= 10,
        ;
    }
}

/// How many leading digits a sequence has.
pub open spec fn digit_prefix_len(s: Seq<char>) -> int
    decreases s.len(),
{
    if s.len() == 0 || !is_digit(s[0]) {
        0
    } else {
        1 + digit_prefix_len(s.skip(1))
    }
}

/// Reads the leading decimal number of a sequence: the value of its
/// maximal digit prefix, if there is one and it fits in a `u64`.
pub open spec fn spec_parse_u64(s: Seq<char>) -> Option<(u64, int)> {
    let k = digit_prefix_len(s);
    if k == 0 {
        None
    } else if spec_digits_val(s.take(k)) > u64::MAX {
        None
    } else {
        Some((spec_digits_val(s.take(k)) as u64, k))
    }
}

/// A digit sequence denotes a value of at least zero.
pub proof fn lemma_digits_val_nonneg(s: Seq<char>)
    requires
        forall|i: int| 0 <= i < s.len() ==> is_digit(#[trigger] s[i]),
    ensures
        spec_digits_val(s) >= 0,
    decreases s.len(),
{
    if s.len() > 0 {
        lemma_digits_val_nonneg(s.drop_last());
        assert(digit_val(s.last()) >= 0);
    }
}

/// Extending a digit sequence never shrinks its value.
pub proof fn lemma_digits_val_monotone(s: Seq<char>, j: int)
    requires
        forall|i: int| 0 <= i < s.len() ==> is_digit(#[trigger] s[i]),
        0 <= j <= s.len(),
    ensures
        spec_digits_val(s) >= spec_digits_val(s.take(j)),
    decreases s.len() - j,
{
    if j == s.len() {
        assert(s.take(j) =~= s);
    } else {
        lemma_digits_val_monotone(s, j + 1);
        let p = s.take(j + 1);
        assert(p.drop_last() =~= s.take(j));
        assert(p.last() == s[j]);
        assert(spec_digits_val(s.take(j + 1)) == spec_digits_val(s.take(j)) * 10 + digit_val(s[j]));
        lemma_digits_val_nonneg(s.take(j));
        assert(spec_digits_val(s.take(j)) * 10 >= spec_digits_val(s.take(j))) by (nonlinear_arith)
            requires spec_digits_val(s.take(j)) >= 0,
        ;
        assert(digit_val(s[j]) >= 0);
    }
}

/// The digit prefix of all-digit characters followed by a non-digit is
/// exactly those characters.
pub proof fn lemma_digit_prefix_exact(ds: Seq<char>, rest: Seq<char>)
    requires
        forall|i: int| 0 <= i < ds.len() ==> is_digit(#[trigger] ds[i]),
        rest.len() > 0,
        !is_digit(rest[0]),
    ensures
        digit_prefix_len(ds + rest) == ds.len(),
    decreases ds.len(),
{
    let s = ds + rest;
    if ds.len() == 0 {
        assert(s =~= rest);
    } else {
        let dt = ds.skip(1);
        assert(forall|i: int| 0 <= i < dt.len() ==> is_digit(#[trigger] dt[i])) by {
            assert(forall|i: int| 0 <= i < dt.len() ==> dt[i] == ds[i + 1]);
        }
        lemma_digit_prefix_exact(dt, rest);
        assert(s[0] == ds[0]);
        assert(s.skip(1) =~= dt + rest);
    }
}

/// Reading back the canonical rendering of `n`, followed by anything that
/// does not continue the number, yields exactly `n`.
pub proof fn lemma_parse_canonical_u64(n: u64, rest: Seq<char>)
    requires
        rest.len() > 0,
        !is_digit(rest[0]),
    ensures
        spec_parse_u64(spec_u64_chars(n as int) + rest)
            == Some((n, spec_u64_chars(n as int).len() as int)),
{
    let ds = spec_u64_chars(n as int);
    lemma_u64_chars_val(n as int);
    lemma_digit_prefix_exact(ds, rest);
    let s = ds + rest;
    assert(s.take(ds.len() as int) =~= ds);
}

/// ASCII lower-casing of one character: `A`..`Z` map to `a`..`z`.
pub open spec fn ascii_lower_char(c: char) -> char {
    match c {
        'A' => 'a', 'B' => 'b', 'C' => 'c', 'D' => 'd', 'E' => 'e', 'F' => 'f',
        'G' => 'g', 'H' => 'h', 'I' => 'i', 'J' => 'j', 'K' => 'k', 'L' => 'l',
        'M' => 'm', 'N' => 'n', 'O' => 'o', 'P' => 'p', 'Q' => 'q', 'R' => 'r',
        'S' => 's', 'T' => 't', 'U' => 'u', 'V' => 'v', 'W' => 'w', 'X' => 'x',
        'Y' => 'y', 'Z' => 'z',
        _ => c,
    }
}

/// ASCII lower-casing of a character sequence.
pub open spec fn spec_ascii_lower(s: Seq<char>) -> Seq<char> {
    s.map_values(|c: char| ascii_lower_char(c))
}

fn ascii_lower_char_exec(c: char) -> (r: char)
    ensures
        r == ascii_lower_char(c),
{
    match c {
        'A' => 'a', 'B' => 'b', 'C' => 'c', 'D' => 'd', 'E' => 'e', 'F' => 'f',
        'G' => 'g', 'H' => 'h', 'I' => 'i', 'J' => 'j', 'K' => 'k', 'L' => 'l',
        'M' => 'm', 'N' => 'n', 'O' => 'o', 'P' => 'p', 'Q' => 'q', 'R' => 'r',
        'S' => 's', 'T' => 't', 'U' => 'u', 'V' => 'v', 'W' => 'w', 'X' => 'x',
        'Y' => 'y', 'Z' => 'z',
        _ => c,
    }
}

/// Lower-cases the ASCII letters of a vector of characters.
pub fn ascii_lower(v: &Vec<char>) -> (r: Vec<char>)
    ensures
        r@ == spec_ascii_lower(v@),
{
    let mut r: Vec<char> = Vec::new();
    let mut i: usize = 0;
    while i < v.len()
        invariant
            i <= v@.len(),
            r@ == spec_ascii_lower(v@.subrange(0, i as int)),
        decreases v@.len() - i,
    {
        r.push(ascii_lower_char_exec(v[i]));
        proof {
            assert(r@ =~= spec_ascii_lower(v@.subrange(0, i + 1 as int)));
        }
        i = i + 1;
    }
    proof {
        assert(v@.subrange(0, v@.len() as int) =~= v@);
    }
    r
}

/// Checks whether the characters of `lit` stand at position `i` of `v`,
/// and returns the position just after them if so.
pub fn try_lit(v: &Vec<char>, i: usize, lit: &str) -> (r: Option<usize>)
    requires
        i <= v@.len(),
    ensures
        match r {
            Some(j) => lit@.is_prefix_of(v@.skip(i as int)) && j as int == i + lit@.len()
                && i <= j <= v@.len(),
            None => !lit@.is_prefix_of(v@.skip(i as int)),
        },
{
    let n = lit.unicode_len();
    let vlen = v.len();
    if vlen - i < n {
        return None;
    }
    let mut j: usize = 0;
    while j < n
        invariant
            j <= n,
            i + n <= vlen,
            vlen == v@.len(),
            n == lit@.len(),
            forall|k: int| 0 <= k < j ==> v@[i + k] == lit@[k],
        decreases n - j,
    {
        if v[i + j] != lit.get_char(j) {
            proof {
                let suf = v@.skip(i as int);
                if lit@.is_prefix_of(suf) {
                    assert(suf.subrange(0, n as int)[j as int] == lit@[j as int]);
                    assert(suf.subrange(0, n as int)[j as int] == suf[j as int]);
                    assert(suf[j as int] == v@[i + j]);
                }
            }
            return None;
        }
        j = j + 1;
    }
    proof {
        let suf = v@.skip(i as int);
        assert(lit@ =~= suf.subrange(0, n as int));
    }
    Some(i + n)
}

/// Reads the leading decimal number at position `start` of `v`.
pub fn parse_u64_tok(v: &Vec<char>, start: usize) -> (r: Option<(u64, usize)>)
    requires
        start <= v@.len(),
    ensures
        match r {
            Some(p) => spec_parse_u64(v@.skip(start as int)) == Some((p.0, p.1 as int - start))
                && start < p.1 <= v@.len(),
            None => spec_parse_u64(v@.skip(start as int)) is None,
        },
{
    let s = Ghost(v@.skip(start as int));
    // Find the end of the digit run.
    let mut j: usize = start;
    while j < v.len() && is_digit_exec(v[j])
        invariant
            start <= j <= v@.len(),
            forall|k: int| start <= k < j ==> is_digit(#[trigger] v@[k]),
        decreases v@.len() - j,
    {
        j = j + 1;
    }
    proof {
        let ds = v@.subrange(start as int, j as int);
        assert(forall|k: int| 0 <= k < ds.len() ==> is_digit(#[trigger] ds[k]));
        if j < v@.len() {
            let rest = v@.skip(j as int);
            assert(!is_digit(rest[0]));
            assert(s@ =~= ds + rest);
            lemma_digit_prefix_exact(ds, rest);
        } else {
            assert(s@ =~= ds);
            lemma_digit_prefix_all(ds);
        }
        assert(digit_prefix_len(s@) == j - start);
        assert(s@.take(j - start) =~= ds);
    }
    if j == start {
        return None;
    }
    // Accumulate the value, watching for overflow.
    let mut acc: u64 = 0;
    let mut t: usize = start;
    while t < j
        invariant
            start <= t <= j <= v@.len(),
            forall|k: int| start <= k < j ==> is_digit(#[trigger] v@[k]),
            digit_prefix_len(v@.skip(start as int)) == j - start,
            v@.skip(start as int).take(j - start) =~= v@.subrange(start as int, j as int),
            acc as int == spec_digits_val(v@.subrange(start as int, t as int)),
        decreases j - t,
    {
        let c = v[t];
        let d: u64 = digit_val_exec(c);
        if acc > (u64::MAX - d) / 10 {
            proof {
                let s0 = v@.skip(start as int);
                let cur = v@.subrange(start as int, t as int);
                let nxt = v@.subrange(start as int, t as int + 1);
                assert(nxt.drop_last() =~= cur);
                assert(nxt.last() == v@[t as int]);
                assert(spec_digits_val(nxt) == acc as int * 10 + d);
                assert(acc as int * 10 + d > u64::MAX) by (nonlinear_arith)
                    requires
                        acc > (u64::MAX - d) / 10,
                        0 <= d <= 9,
                        acc <= u64::MAX,
                ;
                let ds = s0.take(j - start);
                assert(forall|k: int| 0 <= k < ds.len() ==> is_digit(#[trigger] ds[k]));
                lemma_digits_val_monotone(ds, t as int + 1 - start);
                assert(ds.take(t as int + 1 - start) =~= nxt);
                assert(spec_digits_val(ds) > u64::MAX);
            }
            return None;
        }
        proof {
            assert(acc * 10 + d <= u64::MAX) by (nonlinear_arith)
                requires
                    acc <= (u64::MAX - d) / 10,
                    0 <= d <= 9,
            ;
        }
        acc = acc * 10 + d;
        proof {
            let cur = v@.subrange(start as int, t as int);
            let nxt = v@.subrange(start as int, t as int + 1);
            assert(nxt.drop_last() =~= cur);
            assert(nxt.last() == v@[t as int]);
        }
        t = t + 1;
    }
    proof {
        assert(v@.subrange(start as int, j as int) =~= v@.skip(start as int).take(j - start));
    }
    Some((acc, j))
}

fn is_digit_exec(c: char) -> (r: bool)
    ensures
        r == is_digit(c),
{
    '0' <= c && c <= '9'
}

fn digit_val_exec(c: char) -> (d: u64)
    requires
        is_digit(c),
    ensures
        d as int == digit_val(c),
        d <= 9,
{
    (c as u32 - '0' as u32) as u64
}

/// A sequence of digits only is all digit prefix.
proof fn lemma_digit_prefix_all(ds: Seq<char>)
    requires
        forall|i: int| 0 <= i < ds.len() ==> is_digit(#[trigger] ds[i]),
    ensures
        digit_prefix_len(ds) == ds.len(),
    decreases ds.len(),
{
    if ds.len() > 0 {
        let dt = ds.skip(1);
        assert(forall|i: int| 0 <= i < dt.len() ==> dt[i] == ds[i + 1]);
        lemma_digit_prefix_all(dt);
    }
}

/// Whether the characters of `a` equal those of the string slice `b`.
pub fn chars_eq_str(a: &Vec<char>, b: &str) -> (r: bool)
    ensures
        r == (a@ == b@),
{
    let blen = b.unicode_len();
    if a.len() != blen {
        proof {
            assert(a@.len() != b@.len());
        }
        return false;
    }
    let mut i: usize = 0;
    while i < blen
        invariant
            i <= blen,
            blen == b@.len(),
            a@.len() == blen,
            forall|j: int| 0 <= j < i ==> a@[j] == b@[j],
        decreases blen - i,
    {
        if a[i] != b.get_char(i) {
            return false;
        }
        i = i + 1;
    }
    proof {
        assert(a@ =~= b@);
    }
    true
}


/// A prefix of length `len` that is all digits means each of them is one.
pub proof fn lemma_digit_prefix_full(s: Seq<char>)
    requires
        digit_prefix_len(s) == s.len(),
    ensures
        forall|i: int| 0 <= i < s.len() ==> is_digit(#[trigger] s[i]),
    decreases s.len(),
{
    if s.len() > 0 {
        assert(is_digit(s[0]));
        let t = s.skip(1);
        lemma_digit_prefix_full(t);
        assert(forall|i: int| 0 < i < s.len() ==> s[i] == t[i - 1]);
    }
}

/// A digit prefix shorter than the text stops on a non-digit.
pub proof fn lemma_digit_prefix_stop(s: Seq<char>)
    requires
        digit_prefix_len(s) < s.len(),
    ensures
        0 <= digit_prefix_len(s),
        !is_digit(s[digit_prefix_len(s)]),
    decreases s.len(),
{
    if s.len() > 0 && is_digit(s[0]) {
        let t = s.skip(1);
        lemma_digit_prefix_stop(t);
        assert(s[digit_prefix_len(s)] == t[digit_prefix_len(t)]);
    }
}

/// Whether a character is ASCII whitespace as trimming removes it.
pub open spec fn is_ws(c: char) -> bool {
    c == ' ' || c == '\t' || c == '\n' || c == '\r' || c == '\x0b' || c == '\x0c'
}

/// The sequence without its leading whitespace.
pub open spec fn spec_trim_start(s: Seq<char>) -> Seq<char>
    decreases s.len(),
{
    if s.len() > 0 && is_ws(s[0]) {
        spec_trim_start(s.skip(1))
    } else {
        s
    }
}

/// The sequence without its trailing whitespace.
pub open spec fn spec_trim_end(s: Seq<char>) -> Seq<char>
    decreases s.len(),
{
    if s.len() > 0 && is_ws(s.last()) {
        spec_trim_end(s.drop_last())
    } else {
        s
    }
}

/// The sequence without leading and trailing ASCII whitespace.
pub open spec fn spec_trim(s: Seq<char>) -> Seq<char> {
    spec_trim_end(spec_trim_start(s))
}

proof fn lemma_trim_start_at(s: Seq<char>, a: int)
    requires
        0 <= a <= s.len(),
        forall|t: int| 0 <= t < a ==> is_ws(#[trigger] s[t]),
        a < s.len() ==> !is_ws(s[a]),
    ensures
        spec_trim_start(s) == s.skip(a),
    decreases a,
{
    if a == 0 {
        assert(s.skip(0) =~= s);
    } else {
        assert(is_ws(s[0]));
        let t = s.skip(1);
        assert(forall|k: int| 0 <= k < a - 1 ==> t[k] == s[k + 1]);
        lemma_trim_start_at(t, a - 1);
        assert(t.skip(a - 1) =~= s.skip(a));
    }
}

proof fn lemma_trim_end_at(s: Seq<char>, b: int)
    requires
        0 <= b <= s.len(),
        forall|t: int| b <= t < s.len() ==> is_ws(#[trigger] s[t]),
        b > 0 ==> !is_ws(s[b - 1]),
    ensures
        spec_trim_end(s) == s.take(b),
    decreases s.len() - b,
{
    if b == s.len() {
        assert(s.take(b) =~= s);
    } else {
        assert(is_ws(s.last()));
        let t = s.drop_last();
        assert(forall|k: int| b <= k < t.len() ==> t[k] == s[k]);
        lemma_trim_end_at(t, b);
        assert(t.take(b) =~= s.take(b));
    }
}

/// Removes leading and trailing ASCII whitespace, exactly as `spec_trim`
/// states it.
pub fn trim_ascii(s: &str) -> (r: Vec<char>)
    ensures
        r@ == spec_trim(s@),
{
    let v = str_to_chars(s);
    let mut a: usize = 0;
    while a < v.len() && is_ws_exec(v[a])
        invariant
            a <= v@.len(),
            v@ == s@,
            forall|t: int| 0 <= t < a ==> is_ws(#[trigger] v@[t]),
        decreases v@.len() - a,
    {
        a = a + 1;
    }
    let mut b: usize = v.len();
    while b > a && is_ws_exec(v[b - 1])
        invariant
            a <= b <= v@.len(),
            v@ == s@,
            forall|t: int| 0 <= t < a ==> is_ws(#[trigger] v@[t]),
            a < v@.len() ==> !is_ws(v@[a as int]),
            forall|t: int| b <= t < v@.len() ==> is_ws(#[trigger] v@[t]),
        decreases b,
    {
        b = b - 1;
    }
    let mut r: Vec<char> = Vec::new();
    let mut k: usize = a;
    while k < b
        invariant
            a <= k <= b <= v@.len(),
            r@ == v@.subrange(a as int, k as int),
        decreases b - k,
    {
        r.push(v[k]);
        proof {
            assert(r@ =~= v@.subrange(a as int, k + 1 as int));
        }
        k = k + 1;
    }
    proof {
        lemma_trim_start_at(s@, a as int);
        let st = s@.skip(a as int);
        assert(forall|t: int| (b - a) <= t < st.len() ==> st[t] == s@[t + a]);
        assert(forall|t: int| (b - a) <= t < st.len() ==> is_ws(#[trigger] st[t]));
        if b > a {
            assert(st[b - a - 1] == s@[b - 1 as int]);
        }
        lemma_trim_end_at(st, b - a as int);
        assert(st.take(b - a as int) =~= s@.subrange(a as int, b as int));
    }
    r
}

fn is_ws_exec(c: char) -> (r: bool)
    ensures
        r == is_ws(c),
{
    c == ' ' || c == '\t' || c == '\n' || c == '\r' || c == '\x0b' || c == '\x0c'
}

/// The digits of a number string: the text after an optional `+` sign.
pub open spec fn spec_u64_body(s: Seq<char>) -> Seq<char> {
    if s.len() > 0 && s[0] == '+' {
        s.skip(1)
    } else {
        s
    }
}

/// Reads a whole string as an unsigned 64-bit number: an optional `+`
/// sign, then one or more digits denoting a value in range.
pub open spec fn spec_parse_u64_str(s: Seq<char>) -> Option<u64> {
    if spec_u64_body(s).len() > 0 && (forall|i: int| 0 <= i < spec_u64_body(s).len()
        ==> is_digit(#[trigger] spec_u64_body(s)[i])) && spec_digits_val(spec_u64_body(s))
        <= u64::MAX {
        Some(spec_digits_val(spec_u64_body(s)) as u64)
    } else {
        None
    }
}

/// Parses a whole string as an unsigned 64-bit number, exactly as
/// `spec_parse_u64_str` states it.
pub fn parse_u64_str(s: &str) -> (r: Option<u64>)
    ensures
        r == spec_parse_u64_str(s@),
{
    let v = str_to_chars(s);
    let start: usize = if v.len() > 0 && v[0] == '+' {
        1
    } else {
        0
    };
    let ghost body = spec_u64_body(s@);
    proof {
        assert(v@.skip(start as int) =~= body);
    }
    match parse_u64_tok(&v, start) {
        Some((n, j)) => {
            if j == v.len() {
                proof {
                    assert(digit_prefix_len(body) == body.len());
                    lemma_digit_prefix_full(body);
                    assert(body.take(body.len() as int) =~= body);
                }
                Some(n)
            } else {
                proof {
                    assert(digit_prefix_len(body) == j - start < body.len());
                    lemma_digit_prefix_stop(body);
                    let w = digit_prefix_len(body);
                    assert(exists|i: int| 0 <= i < body.len() && !is_digit(#[trigger] body[i]))
                        by {
                        assert(0 <= w < body.len() && !is_digit(body[w]));
                    }
                    assert(spec_parse_u64_str(s@) is None);
                }
                None
            }
        },
        None => {
            proof {
                if body.len() > 0 && (forall|i: int| 0 <= i < body.len() ==> is_digit(
                    #[trigger] body[i],
                )) && spec_digits_val(body) <= u64::MAX {
                    lemma_digit_prefix_all_pub(body);
                    assert(body.take(body.len() as int) =~= body);
                }
                assert(spec_parse_u64_str(s@) is None);
            }
            None
        },
    }
}

/// A sequence of digits only is all digit prefix.
pub proof fn lemma_digit_prefix_all_pub(ds: Seq<char>)
    requires
        forall|i: int| 0 <= i < ds.len() ==> is_digit(#[trigger] ds[i]),
    ensures
        digit_prefix_len(ds) == ds.len(),
    decreases ds.len(),
{
    if ds.len() > 0 {
        let dt = ds.skip(1);
        assert(forall|i: int| 0 <= i < dt.len() ==> dt[i] == ds[i + 1]);
        lemma_digit_prefix_all_pub(dt);
    }
}

/// Whether two string slices hold the same characters.
pub fn str_eq_str(a: &str, b: &str) -> (r: bool)
    ensures
        r == (a@ == b@),
{
    let v = str_to_chars(a);
    chars_eq_str(&v, b)
}

} // verus!
