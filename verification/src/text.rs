//! Decimal rendering and parsing of process ids, and the character-level
//! helpers shared by the other modules.

use vstd::prelude::*;
use vstd::string::*;

verus! {

/// The decimal digit character for `d` (recommended `d < 10`).
pub open spec fn spec_digit(d: nat) -> char {
    if d == 0 {
        '0'
    } else if d == 1 {
        '1'
    } else if d == 2 {
        '2'
    } else if d == 3 {
        '3'
    } else if d == 4 {
        '4'
    } else if d == 5 {
        '5'
    } else if d == 6 {
        '6'
    } else if d == 7 {
        '7'
    } else if d == 8 {
        '8'
    } else {
        '9'
    }
}

/// Decimal representation of `n`, most significant digit first, no sign,
/// no leading zeros (a single `'0'` for zero).
pub open spec fn spec_dec(n: nat) -> Seq<char>
    decreases n,
{
    if n < 10 {
        seq![spec_digit(n)]
    } else {
        spec_dec(n / 10) + seq![spec_digit(n % 10)]
    }
}

pub open spec fn is_dec_digit(c: char) -> bool {
    '0' <= c && c <= '9'
}

/// Numeric value of a decimal digit character (recommended `is_dec_digit(c)`).
pub open spec fn digit_val(c: char) -> nat {
    (c as int - '0' as int) as nat
}

pub open spec fn all_digits(s: Seq<char>) -> bool {
    forall|i: int| 0 <= i < s.len() ==> is_dec_digit(#[trigger] s[i])
}

/// Value of a sequence of decimal digit characters, most significant first.
pub open spec fn dec_value(s: Seq<char>) -> nat
    decreases s.len(),
{
    if s.len() == 0 {
        0
    } else {
        dec_value(s.drop_last()) * 10 + digit_val(s.last())
    }
}

/// The whitespace characters stripped when a liveness marker is parsed.
pub open spec fn is_space(c: char) -> bool {
    c == ' ' || c == '\n' || c == '\t' || c == '\r'
}

pub open spec fn strip_leading(s: Seq<char>) -> Seq<char>
    decreases s.len(),
{
    if s.len() > 0 && is_space(s.first()) {
        strip_leading(s.drop_first())
    } else {
        s
    }
}

pub open spec fn strip_trailing(s: Seq<char>) -> Seq<char>
    decreases s.len(),
{
    if s.len() > 0 && is_space(s.last()) {
        strip_trailing(s.drop_last())
    } else {
        s
    }
}

/// Whitespace-trimming as `str::trim` performs it on the characters used here.
pub open spec fn spec_trim(s: Seq<char>) -> Seq<char> {
    strip_trailing(strip_leading(s))
}

/// What parsing a liveness-marker body yields: the recorded process id when
/// the trimmed text is a plain decimal number that fits in `u32`.
pub open spec fn spec_parse_pid(s: Seq<char>) -> Option<u32> {
    let t = spec_trim(s);
    if t.len() > 0 && all_digits(t) && dec_value(t) <= u32::MAX {
        Some(dec_value(t) as u32)
    } else {
        None
    }
}

fn digit_str(d: u64) -> (s: &'static str)
    requires
        d < 10,
    ensures
        s@ =~= seq![spec_digit(d as nat)],
{
    proof {
        reveal_strlit("0");
        reveal_strlit("1");
        reveal_strlit("2");
        reveal_strlit("3");
        reveal_strlit("4");
        reveal_strlit("5");
        reveal_strlit("6");
        reveal_strlit("7");
        reveal_strlit("8");
        reveal_strlit("9");
    }
    match d {
        0 => "0",
        1 => "1",
        2 => "2",
        3 => "3",
        4 => "4",
        5 => "5",
        6 => "6",
        7 => "7",
        8 => "8",
        _ => "9",
    }
}

/// Renders `n` in decimal, exactly as [`spec_dec`] describes.
pub fn u64_to_dec(n: u64) -> (s: String)
    ensures
        s@ == spec_dec(n as nat),
    decreases n,
{
    if n < 10 {
        let s = digit_str(n).to_owned();
        proof {
            assert(s@ =~= spec_dec(n as nat));
        }
        s
    } else {
        let mut s = u64_to_dec(n / 10);
        s.append(digit_str(n % 10));
        proof {
            assert(s@ =~= spec_dec(n as nat));
        }
        s
    }
}

fn is_space_exec(c: char) -> (r: bool)
    ensures
        r == is_space(c),
{
    c == ' ' || c == '\n' || c == '\t' || c == '\r'
}

proof fn lemma_strip_leading_range(s: Seq<char>, a: int)
    requires
        0 <= a <= s.len(),
        forall|i: int| 0 <= i < a ==> is_space(#[trigger] s[i]),
        a < s.len() ==> !is_space(s[a]),
    ensures
        strip_leading(s) =~= s.subrange(a, s.len() as int),
    decreases s.len(),
{
    if s.len() > 0 && is_space(s.first()) {
        assert(a > 0) by {
            if a == 0 {
                assert(!is_space(s[0]));
            }
        }
        lemma_strip_leading_range(s.drop_first(), a - 1);
        assert(s.drop_first().subrange(a - 1, s.drop_first().len() as int) =~= s.subrange(
            a,
            s.len() as int,
        ));
    } else {
        assert(a == 0) by {
            if a > 0 {
                assert(is_space(s[0]));
            }
        }
    }
}

proof fn lemma_strip_trailing_range(s: Seq<char>, b: int)
    requires
        0 <= b <= s.len(),
        forall|i: int| b <= i < s.len() ==> is_space(#[trigger] s[i]),
        b > 0 ==> !is_space(s[b - 1]),
    ensures
        strip_trailing(s) =~= s.subrange(0, b),
    decreases s.len(),
{
    if s.len() > 0 && is_space(s.last()) {
        assert(b < s.len()) by {
            if b == s.len() {
                assert(!is_space(s[s.len() - 1]));
            }
        }
        lemma_strip_trailing_range(s.drop_last(), b);
        assert(s.drop_last().subrange(0, b) =~= s.subrange(0, b));
    } else {
        assert(b == s.len()) by {
            if b < s.len() {
                assert(is_space(s[s.len() - 1]));
            }
        }
    }
}

/// `dec_value` of a longer digit string never falls below that of a prefix.
proof fn lemma_dec_value_prefix(s: Seq<char>, k: int)
    requires
        0 <= k <= s.len(),
    ensures
        dec_value(s) >= dec_value(s.subrange(0, k)),
    decreases s.len() - k,
{
    if k < s.len() {
        lemma_dec_value_prefix(s, k + 1);
        let p = s.subrange(0, k + 1);
        assert(p.drop_last() =~= s.subrange(0, k));
        assert(dec_value(p) == dec_value(s.subrange(0, k)) * 10 + digit_val(p.last()));
    } else {
        assert(s.subrange(0, k) =~= s);
    }
}

/// Parses the decimal process id recorded in a liveness marker, tolerating
/// surrounding whitespace, exactly as [`spec_parse_pid`] describes.
pub fn parse_pid(s: &str) -> (r: Option<u32>)
    ensures
        r == spec_parse_pid(s@),
{
    let len = s.unicode_len();
    let mut start: usize = 0;
    while start < len && is_space_exec(s.get_char(start))
        invariant
            0 <= start <= len,
            len == s@.len(),
            forall|i: int| 0 <= i < start ==> is_space(#[trigger] s@[i]),
        decreases len - start,
    {
        start = start + 1;
    }
    let mut end: usize = len;
    while end > start && is_space_exec(s.get_char(end - 1))
        invariant
            start <= end <= len,
            len == s@.len(),
            forall|i: int| 0 <= i < start ==> is_space(#[trigger] s@[i]),
            forall|i: int| end <= i < len ==> is_space(#[trigger] s@[i]),
        decreases end,
    {
        end = end - 1;
    }
    proof {
        lemma_strip_leading_range(s@, start as int);
        let tail = s@.subrange(start as int, len as int);
        lemma_strip_trailing_range(tail, end - start);
        assert(tail.subrange(0, end - start) =~= s@.subrange(start as int, end as int));
    }
    let ghost t = spec_trim(s@);
    assert(t =~= s@.subrange(start as int, end as int));
    if start == end {
        return None;
    }
    let mut acc: u64 = 0;
    let mut k: usize = start;
    while k < end
        invariant
            start <= k <= end <= len,
            len == s@.len(),
            t == spec_trim(s@),
            t =~= s@.subrange(start as int, end as int),
            acc <= u32::MAX,
            all_digits(t.subrange(0, k - start)),
            acc == dec_value(t.subrange(0, k - start)),
        decreases end - k,
    {
        let c = s.get_char(k);
        if !('0' <= c && c <= '9') {
            assert(t[k - start] == c);
            assert(!all_digits(t));
            return None;
        }
        let d: u64 = (c as u32 as u64) - ('0' as u32 as u64);
        proof {
            let p = t.subrange(0, k + 1 - start);
            assert(p.drop_last() =~= t.subrange(0, k - start));
            assert(p.last() == c);
            assert(digit_val(c) == d);
            assert(dec_value(p) == acc * 10 + d);
        }
        acc = acc * 10 + d;
        k = k + 1;
        if acc > u32::MAX as u64 {
            proof {
                assert(acc == dec_value(t.subrange(0, k - start)));
                lemma_dec_value_prefix(t, k - start);
                assert(dec_value(t) > u32::MAX);
            }
            return None;
        }
    }
    assert(t.subrange(0, end - start) =~= t);
    Some(acc as u32)
}

/// Every character that `spec_dec` produces is a decimal digit.
proof fn lemma_spec_dec_digits(n: nat)
    ensures
        all_digits(spec_dec(n)),
        spec_dec(n).len() > 0,
    decreases n,
{
    if n < 10 {
        assert(is_dec_digit(spec_digit(n)));
    } else {
        lemma_spec_dec_digits(n / 10);
        assert(is_dec_digit(spec_digit(n % 10)));
        assert forall|i: int| 0 <= i < spec_dec(n).len() implies is_dec_digit(
            #[trigger] spec_dec(n)[i],
        ) by {
            if i < spec_dec(n / 10).len() {
                assert(spec_dec(n)[i] == spec_dec(n / 10)[i]);
            }
        }
    }
}

proof fn lemma_digit_val_of_digit(d: nat)
    requires
        d < 10,
    ensures
        digit_val(spec_digit(d)) == d,
        is_dec_digit(spec_digit(d)),
{
}

/// Reading back the digits of `n` yields `n`.
proof fn lemma_dec_value_of_spec_dec(n: nat)
    ensures
        dec_value(spec_dec(n)) == n,
    decreases n,
{
    if n < 10 {
        lemma_digit_val_of_digit(n);
        let s = spec_dec(n);
        assert(s =~= seq![spec_digit(n)]);
        assert(s.last() == spec_digit(n));
        assert(s.drop_last() =~= Seq::<char>::empty());
        assert(dec_value(s) == dec_value(s.drop_last()) * 10 + digit_val(s.last()));
    } else {
        lemma_dec_value_of_spec_dec(n / 10);
        lemma_digit_val_of_digit(n % 10);
        assert(spec_dec(n).drop_last() =~= spec_dec(n / 10));
        assert(spec_dec(n).last() == spec_digit(n % 10));
        assert(n / 10 * 10 + n % 10 == n);
    }
}

/// A rendered process id parses back to itself: the liveness marker written
/// on spawn is exactly what recovery reads.
pub proof fn lemma_pid_round_trip(pid: u32)
    ensures
        spec_parse_pid(spec_dec(pid as nat)) == Some(pid),
{
    let s = spec_dec(pid as nat);
    lemma_spec_dec_digits(pid as nat);
    lemma_dec_value_of_spec_dec(pid as nat);
    assert(!is_space(s.first()));
    assert(strip_leading(s) == s);
    assert(!is_space(s.last()));
    assert(strip_trailing(s) == s);
}

} // verus!
