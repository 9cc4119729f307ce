//! JSON string-content escaping, exactly as the event wire encoding emits
//! it: `"` and `\` get a backslash, the five named control characters use
//! their short forms, all other control characters use `\u00XX` with
//! lower-case hex, and everything else passes through unchanged.

use vstd::prelude::*;

verus! {

/// Lower-case hex digit for a value below sixteen.
pub open spec fn hex_digit_char(d: int) -> char {
    if d == 0 { '0' } else if d == 1 { '1' } else if d == 2 { '2' } else if d == 3 { '3' }
    else if d == 4 { '4' } else if d == 5 { '5' } else if d == 6 { '6' } else if d == 7 { '7' }
    else if d == 8 { '8' } else if d == 9 { '9' } else if d == 10 { 'a' } else if d == 11 { 'b' }
    else if d == 12 { 'c' } else if d == 13 { 'd' } else if d == 14 { 'e' } else { 'f' }
}

/// Value of a lower-case hex digit character, or -1 if it is none.
pub open spec fn hex_char_val(c: char) -> int {
    if c == '0' { 0 } else if c == '1' { 1 } else if c == '2' { 2 } else if c == '3' { 3 }
    else if c == '4' { 4 } else if c == '5' { 5 } else if c == '6' { 6 } else if c == '7' { 7 }
    else if c == '8' { 8 } else if c == '9' { 9 } else if c == 'a' { 10 } else if c == 'b' { 11 }
    else if c == 'c' { 12 } else if c == 'd' { 13 } else if c == 'e' { 14 } else if c == 'f' { 15 }
    else { -1 }
}

/// The control character with the given code point below 0x20.
pub open spec fn control_char_of(v: int) -> char {
    if v == 0x00 { '\x00' } else if v == 0x01 { '\x01' } else if v == 0x02 { '\x02' }
    else if v == 0x03 { '\x03' } else if v == 0x04 { '\x04' } else if v == 0x05 { '\x05' }
    else if v == 0x06 { '\x06' } else if v == 0x07 { '\x07' } else if v == 0x08 { '\x08' }
    else if v == 0x09 { '\x09' } else if v == 0x0a { '\x0a' } else if v == 0x0b { '\x0b' }
    else if v == 0x0c { '\x0c' } else if v == 0x0d { '\x0d' } else if v == 0x0e { '\x0e' }
    else if v == 0x0f { '\x0f' } else if v == 0x10 { '\x10' } else if v == 0x11 { '\x11' }
    else if v == 0x12 { '\x12' } else if v == 0x13 { '\x13' } else if v == 0x14 { '\x14' }
    else if v == 0x15 { '\x15' } else if v == 0x16 { '\x16' } else if v == 0x17 { '\x17' }
    else if v == 0x18 { '\x18' } else if v == 0x19 { '\x19' } else if v == 0x1a { '\x1a' }
    else if v == 0x1b { '\x1b' } else if v == 0x1c { '\x1c' } else if v == 0x1d { '\x1d' }
    else if v == 0x1e { '\x1e' } else { '\x1f' }
}

/// Whether a character can be recovered from its code point below 0x20.
/// Every character a real string holds satisfies this; it is stated
/// explicitly because a spec-level `Seq<char>` does not pin the code
/// points of its elements.
pub open spec fn char_faithful(c: char) -> bool {
    (c as u32) < 0x20 ==> control_char_of((c as u32) as int) == c
}

/// All characters of a sequence are recoverable from their code points.
pub open spec fn chars_faithful(s: Seq<char>) -> bool {
    forall|i: int| 0 <= i < s.len() ==> char_faithful(#[trigger] s[i])
}

/// The wire form of one character inside a JSON string.
pub open spec fn escape_char(c: char) -> Seq<char> {
    if c == '"' { seq!['\\', '"'] }
    else if c == '\\' { seq!['\\', '\\'] }
    else if c == '\x08' { seq!['\\', 'b'] }
    else if c == '\t' { seq!['\\', 't'] }
    else if c == '\n' { seq!['\\', 'n'] }
    else if c == '\x0c' { seq!['\\', 'f'] }
    else if c == '\r' { seq!['\\', 'r'] }
    else if (c as u32) < 0x20 {
        seq!['\\', 'u', '0', '0', hex_digit_char(((c as u32) / 16) as int), hex_digit_char(((c as u32) % 16) as int)]
    } else {
        seq![c]
    }
}

/// The wire form of a whole string content.
pub open spec fn spec_escape(s: Seq<char>) -> Seq<char>
    decreases s.len(),
{
    if s.len() == 0 {
        Seq::<char>::empty()
    } else {
        escape_char(s[0]) + spec_escape(s.subrange(1, s.len() as int))
    }
}

/// Escaping distributes over concatenation.
pub proof fn lemma_escape_append(a: Seq<char>, b: Seq<char>)
    ensures
        spec_escape(a + b) == spec_escape(a) + spec_escape(b),
    decreases a.len(),
{
    if a.len() == 0 {
        assert(a + b =~= b);
        assert(spec_escape(a) + spec_escape(b) =~= spec_escape(b));
    } else {
        let t = a.subrange(1, a.len() as int);
        lemma_escape_append(t, b);
        assert((a + b).subrange(1, (a + b).len() as int) =~= t + b);
        assert((a + b)[0] == a[0]);
        assert(spec_escape(a + b) == escape_char(a[0]) + (spec_escape(t) + spec_escape(b)));
        assert(escape_char(a[0]) + (spec_escape(t) + spec_escape(b))
            =~= (escape_char(a[0]) + spec_escape(t)) + spec_escape(b));
    }
}

/// Escaping a single character is its per-character form.
pub proof fn lemma_escape_single(c: char)
    ensures
        spec_escape(seq![c]) == escape_char(c),
{
    let s = seq![c];
    assert(s.subrange(1, 1) =~= Seq::<char>::empty());
    assert(spec_escape(s) == escape_char(c) + spec_escape(s.subrange(1, 1)));
    assert(spec_escape(s) =~= escape_char(c));
}

fn hex_digit_char_exec(d: u32) -> (c: char)
    requires
        d < 16,
    ensures
        c == hex_digit_char(d as int),
{
    match d {
        0 => '0', 1 => '1', 2 => '2', 3 => '3', 4 => '4', 5 => '5', 6 => '6', 7 => '7',
        8 => '8', 9 => '9', 10 => 'a', 11 => 'b', 12 => 'c', 13 => 'd', 14 => 'e', _ => 'f',
    }
}

/// Appends the escaped form of `c` to `out`.
pub fn append_escaped_char(out: &mut Vec<char>, c: char)
    ensures
        final(out)@ == old(out)@ + escape_char(c),
{
    if c == '"' {
        out.push('\\');
        out.push('"');
        proof { assert(final(out)@ =~= old(out)@ + escape_char(c)); }
    } else if c == '\\' {
        out.push('\\');
        out.push('\\');
        proof { assert(final(out)@ =~= old(out)@ + escape_char(c)); }
    } else if c == '\x08' {
        out.push('\\');
        out.push('b');
        proof { assert(final(out)@ =~= old(out)@ + escape_char(c)); }
    } else if c == '\t' {
        out.push('\\');
        out.push('t');
        proof { assert(final(out)@ =~= old(out)@ + escape_char(c)); }
    } else if c == '\n' {
        out.push('\\');
        out.push('n');
        proof { assert(final(out)@ =~= old(out)@ + escape_char(c)); }
    } else if c == '\x0c' {
        out.push('\\');
        out.push('f');
        proof { assert(final(out)@ =~= old(out)@ + escape_char(c)); }
    } else if c == '\r' {
        out.push('\\');
        out.push('r');
        proof { assert(final(out)@ =~= old(out)@ + escape_char(c)); }
    } else if (c as u32) < 0x20 {
        let v = c as u32;
        out.push('\\');
        out.push('u');
        out.push('0');
        out.push('0');
        out.push(hex_digit_char_exec(v / 16));
        out.push(hex_digit_char_exec(v % 16));
        proof { assert(final(out)@ =~= old(out)@ + escape_char(c)); }
    } else {
        out.push(c);
        proof { assert(final(out)@ =~= old(out)@ + escape_char(c)); }
    }
}

/// Appends the escaped form of a whole string content to `out`.
pub fn append_escaped(out: &mut Vec<char>, s: &Vec<char>)
    ensures
        final(out)@ == old(out)@ + spec_escape(s@),
{
    let mut i: usize = 0;
    while i < s.len()
        invariant
            i <= s@.len(),
            out@ == old(out)@ + spec_escape(s@.subrange(0, i as int)),
        decreases s@.len() - i,
    {
        append_escaped_char(out, s[i]);
        proof {
            let pre = s@.subrange(0, i as int);
            let one = seq![s@[i as int]];
            lemma_escape_append(pre, one);
            lemma_escape_single(s@[i as int]);
            assert(pre + one =~= s@.subrange(0, i + 1 as int));
        }
        i = i + 1;
    }
    proof {
        assert(s@.subrange(0, s@.len() as int) =~= s@);
    }
}

/// Reads escaped string content from the front of `s` up to and including
/// an unescaped closing quote. Returns the decoded content and how many
/// characters were consumed, or nothing if the front is not such content.
pub open spec fn spec_unescape_prefix(s: Seq<char>) -> Option<(Seq<char>, int)>
    decreases s.len(),
{
    if s.len() == 0 {
        None
    } else if s[0] == '"' {
        Some((Seq::<char>::empty(), 1))
    } else if s[0] == '\\' {
        if s.len() < 2 {
            None
        } else {
            let e = s[1];
            if e == '"' || e == '\\' || e == 'b' || e == 't' || e == 'n' || e == 'f' || e == 'r' {
                let c = if e == '"' { '"' } else if e == '\\' { '\\' }
                    else if e == 'b' { '\x08' } else if e == 't' { '\t' }
                    else if e == 'n' { '\n' } else if e == 'f' { '\x0c' } else { '\r' };
                match spec_unescape_prefix(s.subrange(2, s.len() as int)) {
                    Some((content, used)) => Some((seq![c] + content, used + 2)),
                    None => None,
                }
            } else if e == 'u' && s.len() >= 6 && s[2] == '0' && s[3] == '0'
                && hex_char_val(s[4]) >= 0 && hex_char_val(s[5]) >= 0
                && hex_char_val(s[4]) * 16 + hex_char_val(s[5]) < 0x20 {
                let c = control_char_of(hex_char_val(s[4]) * 16 + hex_char_val(s[5]));
                match spec_unescape_prefix(s.subrange(6, s.len() as int)) {
                    Some((content, used)) => Some((seq![c] + content, used + 6)),
                    None => None,
                }
            } else {
                None
            }
        }
    } else if (s[0] as u32) < 0x20 {
        None
    } else {
        match spec_unescape_prefix(s.subrange(1, s.len() as int)) {
            Some((content, used)) => Some((seq![s[0]] + content, used + 1)),
            None => None,
        }
    }
}

/// Unescaping inverts escaping: the escaped form of `m`, a closing quote,
/// and anything after it reads back as exactly `m`, consuming through the
/// quote.
pub proof fn lemma_unescape_escape(m: Seq<char>, t: Seq<char>)
    requires
        chars_faithful(m),
    ensures
        spec_unescape_prefix(spec_escape(m) + seq!['"'] + t)
            == Some::<(Seq<char>, int)>((m, spec_escape(m).len() as int + 1)),
    decreases m.len(),
{
    if m.len() == 0 {
        assert(spec_escape(m) + seq!['"'] + t =~= seq!['"'] + t);
        let s = seq!['"'] + t;
        assert(s[0] == '"');
        assert(m =~= Seq::<char>::empty());
    } else {
        let c = m[0];
        let mrest = m.subrange(1, m.len() as int);
        assert forall|i: int| 0 <= i < mrest.len() implies char_faithful(#[trigger] mrest[i]) by {
            assert(mrest[i] == m[i + 1]);
        }
        lemma_unescape_escape(mrest, t);
        let srest = spec_escape(mrest) + seq!['"'] + t;
        let s = spec_escape(m) + seq!['"'] + t;
        assert(spec_escape(m) == escape_char(c) + spec_escape(mrest));
        let k = escape_char(c).len();
        assert(s =~= escape_char(c) + srest);
        assert forall|i: int| 0 <= i < k implies s[i] == escape_char(c)[i] by {}
        assert(s.subrange(k as int, s.len() as int) =~= srest);
        if c == '"' || c == '\\' {
            assert(s[0] == '\\');
            assert(s.subrange(2, s.len() as int) =~= srest);
            assert(seq![c] + mrest =~= m);
        } else if c == '\x08' || c == '\t' || c == '\n' || c == '\x0c' || c == '\r' {
            assert(s[0] == '\\');
            assert(s.subrange(2, s.len() as int) =~= srest);
            assert(seq![c] + mrest =~= m);
        } else if (c as u32) < 0x20 {
            let v = (c as u32) as int;
            assert(0 <= v && v < 0x20);
            assert(0 <= v / 16 && v / 16 <= 1 && 0 <= v % 16 && v % 16 < 16);
            assert(s[0] == '\\' && s[1] == 'u' && s[2] == '0' && s[3] == '0');
            assert(s[4] == hex_digit_char(v / 16) && s[5] == hex_digit_char(v % 16));
            assert(hex_char_val(hex_digit_char(v / 16)) == v / 16);
            assert(hex_char_val(hex_digit_char(v % 16)) == v % 16);
            assert((v / 16) * 16 + v % 16 == v);
            assert(char_faithful(c));
            assert(control_char_of(v) == c);
            assert(s.subrange(6, s.len() as int) =~= srest);
            assert(seq![c] + mrest =~= m);
        } else {
            assert(s[0] == c);
            assert(c != '"' && c != '\\');
            assert(s.subrange(1, s.len() as int) =~= srest);
            assert(seq![c] + mrest =~= m);
        }
    }
}


fn hex_val_exec(c: char) -> (r: Option<u32>)
    ensures
        match r {
            Some(x) => hex_char_val(c) == x as int && x < 16,
            None => hex_char_val(c) < 0,
        },
{
    match c {
        '0' => Some(0), '1' => Some(1), '2' => Some(2), '3' => Some(3),
        '4' => Some(4), '5' => Some(5), '6' => Some(6), '7' => Some(7),
        '8' => Some(8), '9' => Some(9), 'a' => Some(10), 'b' => Some(11),
        'c' => Some(12), 'd' => Some(13), 'e' => Some(14), 'f' => Some(15),
        _ => None,
    }
}

fn control_char_exec(x: u32) -> (c: char)
    requires
        x < 0x20,
    ensures
        c == control_char_of(x as int),
{
    match x {
        0x00 => '\x00', 0x01 => '\x01', 0x02 => '\x02', 0x03 => '\x03',
        0x04 => '\x04', 0x05 => '\x05', 0x06 => '\x06', 0x07 => '\x07',
        0x08 => '\x08', 0x09 => '\x09', 0x0a => '\x0a', 0x0b => '\x0b',
        0x0c => '\x0c', 0x0d => '\x0d', 0x0e => '\x0e', 0x0f => '\x0f',
        0x10 => '\x10', 0x11 => '\x11', 0x12 => '\x12', 0x13 => '\x13',
        0x14 => '\x14', 0x15 => '\x15', 0x16 => '\x16', 0x17 => '\x17',
        0x18 => '\x18', 0x19 => '\x19', 0x1a => '\x1a', 0x1b => '\x1b',
        0x1c => '\x1c', 0x1d => '\x1d', 0x1e => '\x1e', _ => '\x1f',
    }
}

/// Relates the loop state of `parse_string_tok` across one decoded
/// character that consumed `k` wire characters.
proof fn lemma_unescape_step(whole: Seq<char>, start: int, i: int, prev: Seq<char>, c: char, k: int)
    requires
        0 <= start <= i,
        i + k <= whole.len(),
        k >= 1,
        spec_unescape_prefix(whole.skip(start)) == (match spec_unescape_prefix(whole.skip(i)) {
            Some((m2, u)) => Some((prev + m2, (i - start) + u)),
            None => None::<(Seq<char>, int)>,
        }),
        spec_unescape_prefix(whole.skip(i)) == (match spec_unescape_prefix(whole.skip(i + k)) {
            Some((m2, u)) => Some((seq![c] + m2, u + k)),
            None => None::<(Seq<char>, int)>,
        }),
    ensures
        spec_unescape_prefix(whole.skip(start)) == (match spec_unescape_prefix(whole.skip(i + k)) {
            Some((m2, u)) => Some(((prev + seq![c]) + m2, ((i + k) - start) + u)),
            None => None::<(Seq<char>, int)>,
        }),
{
    match spec_unescape_prefix(whole.skip(i + k)) {
        Some((m2, u)) => {
            assert(prev + (seq![c] + m2) =~= (prev + seq![c]) + m2);
        },
        None => {},
    }
}

/// Reads escaped string content at position `start` of `v`, through the
/// closing quote. Returns the decoded content and the position after the
/// quote.
pub fn parse_string_tok(v: &Vec<char>, start: usize) -> (r: Option<(Vec<char>, usize)>)
    requires
        start <= v@.len(),
    ensures
        match r {
            Some(p) => start < p.1 <= v@.len()
                && spec_unescape_prefix(v@.skip(start as int)) == Some((p.0@, p.1 as int - start)),
            None => spec_unescape_prefix(v@.skip(start as int)) is None,
        },
{
    let mut out: Vec<char> = Vec::new();
    let mut i: usize = start;
    loop
        invariant
            start <= i <= v@.len(),
            spec_unescape_prefix(v@.skip(start as int)) == (match spec_unescape_prefix(
                v@.skip(i as int),
            ) {
                Some((m2, u)) => Some((out@ + m2, (i - start) + u)),
                None => None::<(Seq<char>, int)>,
            }),
        decreases v@.len() - i,
    {
        let ghost s_i = v@.skip(i as int);
        if i == v.len() {
            proof {
                assert(s_i.len() == 0);
            }
            return None;
        }
        let c = v[i];
        proof {
            assert(s_i[0] == c);
        }
        if c == '"' {
            proof {
                assert(spec_unescape_prefix(s_i) == Some((Seq::<char>::empty(), 1int)));
                assert(out@ + Seq::<char>::empty() =~= out@);
            }
            return Some((out, i + 1));
        } else if c == '\\' {
            if i + 1 >= v.len() {
                proof {
                    assert(s_i.len() < 2);
                }
                return None;
            }
            let e = v[i + 1];
            proof {
                assert(s_i[1] == e);
            }
            if e == '"' || e == '\\' || e == 'b' || e == 't' || e == 'n' || e == 'f' || e == 'r' {
                let c2: char = if e == '"' { '"' } else if e == '\\' { '\\' }
                    else if e == 'b' { '\x08' } else if e == 't' { '\t' }
                    else if e == 'n' { '\n' } else if e == 'f' { '\x0c' } else { '\r' };
                let ghost prev = out@;
                out.push(c2);
                proof {
                    assert(s_i.subrange(2, s_i.len() as int) =~= v@.skip(i + 2));
                    assert(spec_unescape_prefix(s_i) == (match spec_unescape_prefix(
                        v@.skip(i + 2),
                    ) {
                        Some((m2, u)) => Some((seq![c2] + m2, u + 2)),
                        None => None::<(Seq<char>, int)>,
                    }));
                    lemma_unescape_step(v@, start as int, i as int, prev, c2, 2);
                }
                i = i + 2;
            } else if e == 'u' {
                if v.len() - i < 6 {
                    proof {
                        assert(s_i.len() < 6);
                    }
                    return None;
                }
                proof {
                    assert(s_i[2] == v@[i + 2] && s_i[3] == v@[i + 3] && s_i[4] == v@[i + 4]
                        && s_i[5] == v@[i + 5]);
                }
                if !(v[i + 2] == '0' && v[i + 3] == '0') {
                    return None;
                }
                let h1 = hex_val_exec(v[i + 4]);
                let h2 = hex_val_exec(v[i + 5]);
                match (h1, h2) {
                    (Some(x1), Some(x2)) => {
                        let val = x1 * 16 + x2;
                        if val >= 0x20 {
                            return None;
                        }
                        let c2 = control_char_exec(val);
                        let ghost prev = out@;
                        out.push(c2);
                        proof {
                            assert(s_i.subrange(6, s_i.len() as int) =~= v@.skip(i + 6));
                            assert(spec_unescape_prefix(s_i) == (match spec_unescape_prefix(
                                v@.skip(i + 6),
                            ) {
                                Some((m2, u)) => Some((seq![c2] + m2, u + 6)),
                                None => None::<(Seq<char>, int)>,
                            }));
                            lemma_unescape_step(v@, start as int, i as int, prev, c2, 6);
                        }
                        i = i + 6;
                    },
                    _ => {
                        return None;
                    },
                }
            } else {
                return None;
            }
        } else if (c as u32) < 0x20 {
            return None;
        } else {
            let ghost prev = out@;
            out.push(c);
            proof {
                assert(s_i.subrange(1, s_i.len() as int) =~= v@.skip(i + 1));
                assert(spec_unescape_prefix(s_i) == (match spec_unescape_prefix(v@.skip(i + 1)) {
                    Some((m2, u)) => Some((seq![c] + m2, u + 1)),
                    None => None::<(Seq<char>, int)>,
                }));
                lemma_unescape_step(v@, start as int, i as int, prev, c, 1);
            }
            i = i + 1;
        }
    }
}


/// Confirms that every character of a string can be recovered from its
/// code point, the premise of the wire round-trip law. Every real string
/// satisfies it; the check exists because the spec-level character model
/// leaves it open.
pub fn chars_are_faithful(s: &str) -> (r: bool)
    ensures
        r ==> chars_faithful(s@),
{
    let len = s.unicode_len();
    let mut i: usize = 0;
    while i < len
        invariant
            i <= len,
            len == s@.len(),
            forall|j: int| 0 <= j < i ==> char_faithful(#[trigger] s@[j]),
        decreases len - i,
    {
        let c = s.get_char(i);
        let u = c as u32;
        if u < 0x20 {
            if control_char_exec(u) != c {
                return false;
            }
        }
        i = i + 1;
    }
    true
}

} // verus!
