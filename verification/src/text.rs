//! Verified text utilities: lexicographic order on strings, the `/` → `%2F`
//! segment encoding, decimal rendering and parsing, and the case-insensitive
//! `Host` header test.

use vstd::prelude::*;

verus! {

// ---------------------------------------------------------------------------
// Lexicographic order on character sequences
// ---------------------------------------------------------------------------

/// `a` is lexicographically at most `b`, comparing characters by code point.
/// This is the order `str` comparison uses, since the byte order of UTF-8
/// agrees with code-point order.
pub open spec fn seq_char_le(a: Seq<char>, b: Seq<char>) -> bool
    decreases a.len(),
{
    if a.len() == 0 {
        true
    } else if b.len() == 0 {
        false
    } else if (a[0] as u32) < (b[0] as u32) {
        true
    } else if (a[0] as u32) > (b[0] as u32) {
        false
    } else {
        seq_char_le(a.drop_first(), b.drop_first())
    }
}

pub proof fn lemma_seq_char_le_refl(a: Seq<char>)
    ensures
        seq_char_le(a, a),
    decreases a.len(),
{
    if a.len() > 0 {
        lemma_seq_char_le_refl(a.drop_first());
    }
}

/// Decides `seq_char_le` on string slices.
pub fn str_le(a: &str, b: &str) -> (r: bool)
    ensures
        r == seq_char_le(a@, b@),
{
    let alen = a.unicode_len();
    let blen = b.unicode_len();
    let mut i: usize = 0;
    proof {
        assert(a@.skip(0) =~= a@);
        assert(b@.skip(0) =~= b@);
    }
    loop
        invariant
            i <= alen,
            i <= blen,
            alen == a@.len(),
            blen == b@.len(),
            seq_char_le(a@, b@) == seq_char_le(a@.skip(i as int), b@.skip(i as int)),
        decreases alen - i,
    {
        if i == alen {
            return true;
        }
        if i == blen {
            return false;
        }
        let ca = a.get_char(i);
        let cb = b.get_char(i);
        if (ca as u32) < (cb as u32) {
            return true;
        }
        if (ca as u32) > (cb as u32) {
            return false;
        }
        proof {
            assert(a@.skip(i as int)[0] == a@[i as int]);
            assert(b@.skip(i as int)[0] == b@[i as int]);
            assert(a@.skip(i as int).drop_first() =~= a@.skip(i as int + 1));
            assert(b@.skip(i as int).drop_first() =~= b@.skip(i as int + 1));
            assert(seq_char_le(a@.skip(i as int), b@.skip(i as int)) == seq_char_le(
                a@.skip(i as int + 1),
                b@.skip(i as int + 1),
            ));
        }
        i = i + 1;
    }
}

/// Decides view equality of two string slices.
pub fn str_eq(a: &str, b: &str) -> (r: bool)
    ensures
        r == (a@ == b@),
{
    let oa: String = a.to_owned();
    let ob: String = b.to_owned();
    oa == ob
}

// ---------------------------------------------------------------------------
// Slash encoding of path segments
// ---------------------------------------------------------------------------

/// Every `/` replaced by the three characters `%2F`; all else kept.
pub open spec fn encode_slash_spec(s: Seq<char>) -> Seq<char>
    decreases s.len(),
{
    if s.len() == 0 {
        Seq::empty()
    } else {
        (if s[0] == '/' {
            seq!['%', '2', 'F']
        } else {
            seq![s[0]]
        }) + encode_slash_spec(s.drop_first())
    }
}

pub proof fn lemma_encode_slash_concat(a: Seq<char>, b: Seq<char>)
    ensures
        encode_slash_spec(a + b) == encode_slash_spec(a) + encode_slash_spec(b),
    decreases a.len(),
{
    if a.len() == 0 {
        assert(a + b =~= b);
        assert(encode_slash_spec(a) + encode_slash_spec(b) =~= encode_slash_spec(b));
    } else {
        assert((a + b).drop_first() =~= a.drop_first() + b);
        lemma_encode_slash_concat(a.drop_first(), b);
        assert(encode_slash_spec(a + b) =~= encode_slash_spec(a) + encode_slash_spec(b));
    }
}

/// The encoding never leaves a `/` in the result.
pub proof fn lemma_encode_slash_no_slash(s: Seq<char>)
    ensures
        forall|i: int| 0 <= i < encode_slash_spec(s).len() ==> encode_slash_spec(s)[i] != '/',
    decreases s.len(),
{
    if s.len() > 0 {
        lemma_encode_slash_no_slash(s.drop_first());
        let head: Seq<char> = if s[0] == '/' {
            seq!['%', '2', 'F']
        } else {
            seq![s[0]]
        };
        let tail = encode_slash_spec(s.drop_first());
        assert(encode_slash_spec(s) == head + tail);
        assert forall|i: int| 0 <= i < encode_slash_spec(s).len() implies encode_slash_spec(
            s,
        )[i] != '/' by {
            if i < head.len() {
                assert(encode_slash_spec(s)[i] == head[i]);
            } else {
                assert(encode_slash_spec(s)[i] == tail[i - head.len()]);
            }
        }
    }
}

/// Replaces every `/` in `s` by `%2F`.
pub fn encode_slash(s: &str) -> (r: String)
    ensures
        r@ == encode_slash_spec(s@),
{
    let n = s.unicode_len();
    let mut r = String::new();
    let mut i: usize = 0;
    while i < n
        invariant
            i <= n,
            n == s@.len(),
            r@ == encode_slash_spec(s@.subrange(0, i as int)),
        decreases n - i,
    {
        let c = s.get_char(i);
        if c == '/' {
            proof {
                reveal_strlit("%2F");
            }
            r.append("%2F");
        } else {
            let piece = s.substring_char(i, i + 1);
            r.append(piece);
        }
        proof {
            let pre = s@.subrange(0, i as int);
            let one = s@.subrange(i as int, i as int + 1);
            assert(s@.subrange(0, i as int + 1) =~= pre + one);
            lemma_encode_slash_concat(pre, one);
            assert(one.drop_first() =~= Seq::<char>::empty());
            assert(one[0] == s@[i as int]);
            assert(encode_slash_spec(one.drop_first()) =~= Seq::<char>::empty());
            if s@[i as int] == '/' {
                assert(encode_slash_spec(one) == seq!['%', '2', 'F'] + encode_slash_spec(
                    one.drop_first(),
                ));
                assert(encode_slash_spec(one) =~= seq!['%', '2', 'F']);
                assert("%2F"@ =~= seq!['%', '2', 'F']);
            } else {
                assert(encode_slash_spec(one) =~= seq![one[0]] + encode_slash_spec(
                    one.drop_first(),
                ));
                assert(encode_slash_spec(one) =~= seq![s@[i as int]]);
            }
        }
        i = i + 1;
    }
    proof {
        assert(s@.subrange(0, n as int) =~= s@);
    }
    r
}

/// The encoding never shortens its input.
pub proof fn lemma_encode_slash_len(s: Seq<char>)
    ensures
        encode_slash_spec(s).len() >= s.len(),
    decreases s.len(),
{
    if s.len() > 0 {
        lemma_encode_slash_len(s.drop_first());
    }
}

/// Slash-encoding a string other than `.` or `..` never yields `.` or `..`:
/// the output keeps the first character and never gets shorter.
pub proof fn lemma_encode_slash_not_dot(s: Seq<char>)
    requires
        s != "."@,
        s != ".."@,
    ensures
        encode_slash_spec(s) != "."@,
        encode_slash_spec(s) != ".."@,
{
    reveal_strlit(".");
    reveal_strlit("..");
    lemma_encode_slash_len(s);
    let out = encode_slash_spec(s);
    if s.len() == 0 {
        assert(out.len() == 0);
    } else if s[0] == '/' {
        assert(out == seq!['%', '2', 'F'] + encode_slash_spec(s.drop_first()));
        assert(out[0] == '%');
    } else {
        assert(out == seq![s[0]] + encode_slash_spec(s.drop_first()));
        assert(out[0] == s[0]);
        if out == "."@ {
            assert(s.len() == 1);
            assert(s =~= "."@);
        }
        if out == ".."@ {
            assert(s.len() <= 2);
            if s.len() == 1 {
                assert(s.drop_first() =~= Seq::<char>::empty());
                assert(encode_slash_spec(s.drop_first()) =~= Seq::<char>::empty());
                assert(out.len() == 1);
            } else {
                assert(s[0] == '.');
                let t = s.drop_first();
                assert(t.len() == 1);
                lemma_encode_slash_len(t);
                let rest = encode_slash_spec(t);
                assert(rest =~= out.drop_first());
                assert(rest.len() == 1);
                if t[0] == '/' {
                    assert(rest == seq!['%', '2', 'F'] + encode_slash_spec(t.drop_first()));
                    assert(rest.len() >= 3);
                } else {
                    assert(rest == seq![t[0]] + encode_slash_spec(t.drop_first()));
                    assert(rest[0] == t[0]);
                    assert(t[0] == '.');
                    assert(s =~= ".."@);
                }
            }
        }
    }
}

// ---------------------------------------------------------------------------
// Safe path segments: no separator, no traversal
// ---------------------------------------------------------------------------

/// A decoded name as one safe path component: every `/` becomes `%2F`, and
/// a bare `.` or `..` becomes `%2E` or `%2E%2E`, so that no component ever
/// names the current or the parent directory.
pub open spec fn safe_segment_spec(s: Seq<char>) -> Seq<char> {
    if s == "."@ {
        "%2E"@
    } else if s == ".."@ {
        "%2E%2E"@
    } else {
        encode_slash_spec(s)
    }
}

/// A safe segment never contains `/`.
pub proof fn lemma_safe_segment_no_slash(s: Seq<char>)
    ensures
        forall|i: int| 0 <= i < safe_segment_spec(s).len() ==> safe_segment_spec(s)[i] != '/',
{
    reveal_strlit("%2E");
    reveal_strlit("%2E%2E");
    if s == "."@ || s == ".."@ {
    } else {
        lemma_encode_slash_no_slash(s);
    }
}

/// A safe segment never names the current or the parent directory, and a
/// nonempty input yields a nonempty segment.
pub proof fn lemma_safe_segment_not_dot(s: Seq<char>)
    ensures
        safe_segment_spec(s) != "."@,
        safe_segment_spec(s) != ".."@,
        s.len() > 0 ==> safe_segment_spec(s).len() > 0,
{
    reveal_strlit(".");
    reveal_strlit("..");
    reveal_strlit("%2E");
    reveal_strlit("%2E%2E");
    assert("."@.len() == 1);
    assert(".."@.len() == 2);
    assert("%2E"@.len() == 3);
    assert("%2E%2E"@.len() == 6);
    if s == "."@ || s == ".."@ {
    } else {
        lemma_encode_slash_not_dot(s);
        lemma_encode_slash_len(s);
    }
}

/// Renders one decoded name as a safe path component.
pub fn safe_segment(s: &str) -> (r: String)
    ensures
        r@ == safe_segment_spec(s@),
{
    if str_eq(s, ".") {
        String::from_str("%2E")
    } else if str_eq(s, "..") {
        String::from_str("%2E%2E")
    } else {
        encode_slash(s)
    }
}

// ---------------------------------------------------------------------------
// Decimal rendering (characters, for URL authorities)
// ---------------------------------------------------------------------------

/// The decimal digit `d` as a character; meaningful for `0 <= d < 10`.
pub open spec fn dec_digit_char(d: int) -> char {
    if d == 0 {
        '0'
    } else if d == 1 {
        '1'
    } else if d == 2 {
        '2'
    } else if d == 3 {
        '3'
    } else if d == 4 {
        '4'
    } else if d == 5 {
        '5'
    } else if d == 6 {
        '6'
    } else if d == 7 {
        '7'
    } else if d == 8 {
        '8'
    } else {
        '9'
    }
}

/// The decimal rendering of `n` as characters, without leading zeros.
pub open spec fn dec_chars(n: nat) -> Seq<char>
    decreases n,
{
    if n < 10 {
        seq![dec_digit_char(n as int)]
    } else {
        dec_chars(n / 10) + seq![dec_digit_char((n % 10) as int)]
    }
}

fn digit_str(d: u16) -> (r: &'static str)
    requires
        d < 10,
    ensures
        r@ == seq![dec_digit_char(d as int)],
{
    proof {
        reveal_strlit("0");
        reveal_strlit("1");
        reveal_strlit("2");
        reveal_strlit("3");
        reveal_strlit("4");
        reveal_strlit("5");
        reveal_strlit("6");
        reveal_strlit("7");
        reveal_strlit("8");
        reveal_strlit("9");
    }
    let r = if d == 0 {
        "0"
    } else if d == 1 {
        "1"
    } else if d == 2 {
        "2"
    } else if d == 3 {
        "3"
    } else if d == 4 {
        "4"
    } else if d == 5 {
        "5"
    } else if d == 6 {
        "6"
    } else if d == 7 {
        "7"
    } else if d == 8 {
        "8"
    } else {
        "9"
    };
    proof {
        assert(r@ =~= seq![dec_digit_char(d as int)]);
    }
    r
}

/// Renders `n` in decimal.
pub fn u16_to_string(n: u16) -> (r: String)
    ensures
        r@ == dec_chars(n as nat),
    decreases n,
{
    if n < 10 {
        digit_str(n).to_owned()
    } else {
        let r = u16_to_string(n / 10).concat(digit_str(n % 10));
        r
    }
}

// ---------------------------------------------------------------------------
// Decimal rendering and parsing (bytes, for status files)
// ---------------------------------------------------------------------------

/// ASCII decimal digit.
pub open spec fn is_digit_byte(b: u8) -> bool {
    48 <= b <= 57
}

/// ASCII whitespace, the characters `str::trim` strips from our own output.
pub open spec fn is_ws_byte(b: u8) -> bool {
    b == 32 || b == 9 || b == 10 || b == 13
}

/// The decimal rendering of `n` as ASCII bytes, without leading zeros.
pub open spec fn dec_bytes(n: nat) -> Seq<u8>
    decreases n,
{
    if n < 10 {
        seq![(48 + n) as u8]
    } else {
        dec_bytes(n / 10) + seq![(48 + n % 10) as u8]
    }
}

fn push_dec(n: u16, out: &mut Vec<u8>)
    ensures
        final(out)@ == old(out)@ + dec_bytes(n as nat),
    decreases n,
{
    if n < 10 {
        out.push(48 + n as u8);
        proof {
            assert(out@ =~= old(out)@ + dec_bytes(n as nat));
        }
    } else {
        push_dec(n / 10, out);
        out.push(48 + (n % 10) as u8);
        proof {
            assert(out@ =~= old(out)@ + dec_bytes(n as nat));
        }
    }
}

/// Renders `n` in decimal as ASCII bytes.
pub fn u16_to_dec_bytes(n: u16) -> (r: Vec<u8>)
    ensures
        r@ == dec_bytes(n as nat),
{
    let mut out: Vec<u8> = Vec::new();
    push_dec(n, &mut out);
    proof {
        assert(out@ =~= dec_bytes(n as nat));
    }
    out
}

/// The numeric value of a digit sequence; meaningful when all bytes are
/// digits.
pub open spec fn dec_value(s: Seq<u8>) -> int
    decreases s.len(),
{
    if s.len() == 0 {
        0
    } else {
        10 * dec_value(s.drop_last()) + (s.last() - 48)
    }
}

pub open spec fn all_digits(s: Seq<u8>) -> bool {
    forall|i: int| 0 <= i < s.len() ==> is_digit_byte(s[i])
}

pub open spec fn trim_front_spec(s: Seq<u8>) -> Seq<u8>
    decreases s.len(),
{
    if s.len() > 0 && is_ws_byte(s[0]) {
        trim_front_spec(s.drop_first())
    } else {
        s
    }
}

pub open spec fn trim_back_spec(s: Seq<u8>) -> Seq<u8>
    decreases s.len(),
{
    if s.len() > 0 && is_ws_byte(s.last()) {
        trim_back_spec(s.drop_last())
    } else {
        s
    }
}

/// `s` with ASCII whitespace stripped from both ends.
pub open spec fn trim_spec(s: Seq<u8>) -> Seq<u8> {
    trim_front_spec(trim_back_spec(s))
}

proof fn lemma_trim_back_range(s: Seq<u8>, hi: int)
    requires
        0 <= hi <= s.len(),
        forall|i: int| hi <= i < s.len() ==> is_ws_byte(s[i]),
        hi == 0 || !is_ws_byte(s[hi - 1]),
    ensures
        trim_back_spec(s) =~= s.subrange(0, hi),
    decreases s.len(),
{
    if s.len() == 0 {
    } else if is_ws_byte(s.last()) {
        assert(hi < s.len());
        lemma_trim_back_range(s.drop_last(), hi);
        assert(s.drop_last().subrange(0, hi) =~= s.subrange(0, hi));
    } else {
        assert(hi == s.len());
        assert(s.subrange(0, hi) =~= s);
    }
}

proof fn lemma_trim_front_range(s: Seq<u8>, lo: int)
    requires
        0 <= lo <= s.len(),
        forall|i: int| 0 <= i < lo ==> is_ws_byte(s[i]),
        lo == s.len() || !is_ws_byte(s[lo]),
    ensures
        trim_front_spec(s) =~= s.subrange(lo, s.len() as int),
    decreases s.len(),
{
    if s.len() == 0 {
    } else if is_ws_byte(s[0]) {
        assert(lo > 0);
        lemma_trim_front_range(s.drop_first(), lo - 1);
        assert(s.drop_first().subrange(lo - 1, s.drop_first().len() as int) =~= s.subrange(
            lo,
            s.len() as int,
        ));
    } else {
        assert(lo == 0);
        assert(s.subrange(0, s.len() as int) =~= s);
    }
}

/// The status file format: a decimal status in 100..=599 surrounded by
/// optional ASCII whitespace. Anything else is malformed.
pub open spec fn parse_status_spec(s: Seq<u8>) -> Option<u16> {
    let t = trim_spec(s);
    if t.len() > 0 && all_digits(t) && 100 <= dec_value(t) <= 599 {
        Some(dec_value(t) as u16)
    } else {
        None
    }
}

/// Decides `is_ws_byte`.
fn is_ws_u8(b: u8) -> (r: bool)
    ensures
        r == is_ws_byte(b),
{
    b == 32 || b == 9 || b == 10 || b == 13
}

/// Parses the contents of a status file.
pub fn parse_status(s: &Vec<u8>) -> (r: Option<u16>)
    ensures
        r == parse_status_spec(s@),
{
    let n = s.len();
    // strip trailing whitespace
    let mut hi: usize = n;
    while hi > 0 && is_ws_u8(s[hi - 1])
        invariant
            hi <= n,
            n == s@.len(),
            forall|i: int| hi <= i < n ==> is_ws_byte(s@[i]),
        decreases hi,
    {
        hi = hi - 1;
    }
    // strip leading whitespace
    let mut lo: usize = 0;
    while lo < hi && is_ws_u8(s[lo])
        invariant
            lo <= hi <= n,
            n == s@.len(),
            forall|i: int| 0 <= i < lo ==> is_ws_byte(s@[i]),
            forall|i: int| hi <= i < n ==> is_ws_byte(s@[i]),
            hi == 0 || !is_ws_byte(s@[hi as int - 1]),
        decreases hi - lo,
    {
        lo = lo + 1;
    }
    let ghost t = trim_spec(s@);
    proof {
        lemma_trim_back_range(s@, hi as int);
        lemma_trim_front_range(s@.subrange(0, hi as int), lo as int);
        assert(t =~= s@.subrange(lo as int, hi as int));
    }
    if lo == hi {
        assert(t.len() == 0);
        return None;
    }
    // accumulate the value, capped at 1000 so it stays small
    let mut acc: u32 = 0;
    let mut i: usize = lo;
    while i < hi
        invariant
            lo <= i <= hi <= n,
            n == s@.len(),
            t == trim_spec(s@),
            t =~= s@.subrange(lo as int, hi as int),
            all_digits(t.subrange(0, i - lo)),
            acc == if dec_value(t.subrange(0, i - lo)) <= 999 {
                dec_value(t.subrange(0, i - lo))
            } else {
                1000
            },
        decreases hi - i,
    {
        let b = s[i];
        if b < 48 || b > 57 {
            proof {
                assert(t[i - lo] == s@[i as int]);
                assert(!is_digit_byte(t[i - lo]));
                assert(!all_digits(t));
            }
            return None;
        }
        let d: u32 = (b - 48) as u32;
        let next: u32 = acc * 10 + d;
        proof {
            let pre = t.subrange(0, i - lo);
            let ext = t.subrange(0, i - lo + 1);
            assert(ext.drop_last() =~= pre);
            assert(ext.last() == s@[i as int]);
            assert(dec_value(ext) == 10 * dec_value(pre) + (s@[i as int] - 48));
        }
        if next > 1000 {
            acc = 1000;
        } else {
            acc = next;
        }
        i = i + 1;
    }
    proof {
        assert(t.subrange(0, hi - lo) =~= t);
    }
    if acc < 100 || acc > 599 {
        return None;
    }
    Some(acc as u16)
}

/// Rendering a status in 100..=599 and parsing it back yields the status.
pub proof fn lemma_status_roundtrip(n: u16)
    requires
        100 <= n <= 599,
    ensures
        parse_status_spec(dec_bytes(n as nat) + seq![10u8]) == Some(n),
{
    lemma_dec_bytes_digits(n as nat);
    lemma_dec_value_of_dec_bytes(n as nat);
    let digits = dec_bytes(n as nat);
    let line = digits + seq![10u8];
    assert(line.last() == 10u8);
    assert(line.drop_last() =~= digits);
    lemma_dec_bytes_first_not_ws(n as nat);
    assert(is_digit_byte(digits[digits.len() - 1]));
    assert(!is_ws_byte(digits.last()));
    assert(trim_back_spec(line) == trim_back_spec(digits));
    assert(trim_back_spec(digits) == digits);
    assert(!is_ws_byte(digits[0]));
    assert(trim_front_spec(digits) == digits);
    assert(trim_spec(line) == digits);
}

/// Every byte of a decimal rendering is a digit.
pub proof fn lemma_dec_bytes_digits(n: nat)
    ensures
        all_digits(dec_bytes(n)),
        dec_bytes(n).len() >= 1,
    decreases n,
{
    if n >= 10 {
        lemma_dec_bytes_digits(n / 10);
        assert forall|i: int| 0 <= i < dec_bytes(n).len() implies is_digit_byte(
            dec_bytes(n)[i],
        ) by {
            if i < dec_bytes(n / 10).len() {
                assert(dec_bytes(n)[i] == dec_bytes(n / 10)[i]);
            }
        }
    }
}

proof fn lemma_dec_bytes_first_not_ws(n: nat)
    ensures
        dec_bytes(n).len() >= 1,
        !is_ws_byte(dec_bytes(n)[0]),
    decreases n,
{
    if n >= 10 {
        lemma_dec_bytes_first_not_ws(n / 10);
        assert(dec_bytes(n)[0] == dec_bytes(n / 10)[0]);
    }
}

/// The decimal rendering denotes the number it was made from.
pub proof fn lemma_dec_value_of_dec_bytes(n: nat)
    ensures
        dec_value(dec_bytes(n)) == n,
    decreases n,
{
    if n < 10 {
        assert(dec_bytes(n) == seq![(48 + n) as u8]);
        assert(dec_bytes(n).drop_last() =~= Seq::<u8>::empty());
        assert(dec_bytes(n).last() == (48 + n) as u8);
        assert((48 + n) as u8 - 48 == n);
        assert(dec_value(dec_bytes(n)) == 10 * dec_value(dec_bytes(n).drop_last()) + (dec_bytes(
            n,
        ).last() - 48));
        assert(dec_value(dec_bytes(n).drop_last()) == 0);
        assert(dec_value(dec_bytes(n)) == n);
    } else {
        lemma_dec_value_of_dec_bytes(n / 10);
        assert(dec_bytes(n).drop_last() =~= dec_bytes(n / 10));
        assert(dec_bytes(n).last() == (48 + n % 10) as u8);
        assert(n % 10 < 10);
        assert((48 + n % 10) as u8 - 48 == n % 10);
        assert(dec_value(dec_bytes(n)) == 10 * (n / 10) + n % 10);
        vstd::arithmetic::div_mod::lemma_fundamental_div_mod(n as int, 10);
    }
}

// ---------------------------------------------------------------------------
// The Host header name
// ---------------------------------------------------------------------------

/// The four characters `host` in any ASCII case.
pub open spec fn is_host_header_name(s: Seq<char>) -> bool {
    s.len() == 4 && (s[0] == 'h' || s[0] == 'H') && (s[1] == 'o' || s[1] == 'O') && (s[2] == 's'
        || s[2] == 'S') && (s[3] == 't' || s[3] == 'T')
}

/// Decides `is_host_header_name`.
pub fn is_host_header(name: &str) -> (r: bool)
    ensures
        r == is_host_header_name(name@),
{
    if name.unicode_len() != 4 {
        return false;
    }
    let c0 = name.get_char(0);
    let c1 = name.get_char(1);
    let c2 = name.get_char(2);
    let c3 = name.get_char(3);
    (c0 == 'h' || c0 == 'H') && (c1 == 'o' || c1 == 'O') && (c2 == 's' || c2 == 'S') && (c3 == 't'
        || c3 == 'T')
}

} // verus!
