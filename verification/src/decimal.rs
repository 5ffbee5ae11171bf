//! Decimal text, as the sysfs backlight attributes hold it.
//!
//! Every attribute file is a decimal ASCII integer, newline-terminated by the
//! kernel; surrounding whitespace is trimmed before parsing. Writes render
//! the integer back as plain decimal text with no trailing newline.

use vstd::prelude::*;
use vstd::arithmetic::div_mod::lemma_fundamental_div_mod;
use crate::error::Error;

verus! {

// ---------------------------------------------------------------------------
// Character classes
// ---------------------------------------------------------------------------

/// ASCII whitespace, the only padding the kernel ever puts around a value.
pub open spec fn is_space_char(c: char) -> bool {
    c == ' ' || c == '\t' || c == '\n' || c == '\r' || c == '\x0b' || c == '\x0c'
}

pub open spec fn is_digit_char(c: char) -> bool {
    c == '0' || c == '1' || c == '2' || c == '3' || c == '4' || c == '5' || c == '6' || c == '7'
        || c == '8' || c == '9'
}

/// The numeric value of a digit character; 0 on anything else, so that the
/// function is total and `digits_val` stays non-negative.
pub open spec fn digit_val(c: char) -> int {
    if c == '1' {
        1
    } else if c == '2' {
        2
    } else if c == '3' {
        3
    } else if c == '4' {
        4
    } else if c == '5' {
        5
    } else if c == '6' {
        6
    } else if c == '7' {
        7
    } else if c == '8' {
        8
    } else if c == '9' {
        9
    } else {
        0
    }
}

/// The digit character for a value in `[0, 10)`; `'0'` on anything else.
pub open spec fn digit_char(d: int) -> char {
    if d == 1 {
        '1'
    } else if d == 2 {
        '2'
    } else if d == 3 {
        '3'
    } else if d == 4 {
        '4'
    } else if d == 5 {
        '5'
    } else if d == 6 {
        '6'
    } else if d == 7 {
        '7'
    } else if d == 8 {
        '8'
    } else if d == 9 {
        '9'
    } else {
        '0'
    }
}

pub open spec fn all_digits(s: Seq<char>) -> bool {
    forall|i: int| 0 <= i < s.len() ==> is_digit_char(s[i])
}

// ---------------------------------------------------------------------------
// Trimming
// ---------------------------------------------------------------------------

pub open spec fn trim_front(s: Seq<char>) -> Seq<char>
    decreases s.len(),
{
    if s.len() > 0 && is_space_char(s[0]) {
        trim_front(s.drop_first())
    } else {
        s
    }
}

pub open spec fn trim_back(s: Seq<char>) -> Seq<char>
    decreases s.len(),
{
    if s.len() > 0 && is_space_char(s.last()) {
        trim_back(s.drop_last())
    } else {
        s
    }
}

/// The string with all leading and trailing whitespace removed.
pub open spec fn spec_trim(s: Seq<char>) -> Seq<char> {
    trim_back(trim_front(s))
}

// ---------------------------------------------------------------------------
// The value a digit string denotes
// ---------------------------------------------------------------------------

pub open spec fn digits_val(s: Seq<char>) -> int
    decreases s.len(),
{
    if s.len() == 0 {
        0
    } else {
        digits_val(s.drop_last()) * 10 + digit_val(s.last())
    }
}

/// What parsing a decimal integer yields: an optional sign followed by at
/// least one digit and nothing else, or no value at all.
pub open spec fn spec_parse_int(s: Seq<char>) -> Option<int> {
    if s.len() == 0 {
        None
    } else {
        let ds = if s[0] == '+' || s[0] == '-' {
            s.drop_first()
        } else {
            s
        };
        if ds.len() == 0 || !all_digits(ds) {
            None
        } else if s[0] == '-' {
            Some(-digits_val(ds))
        } else {
            Some(digits_val(ds))
        }
    }
}

/// Parsing as the sysfs reader does it: trim the surrounding whitespace, then
/// read a signed decimal integer that must fit in an `i32`.
pub open spec fn spec_parse_i32(s: Seq<char>) -> Option<int> {
    match spec_parse_int(spec_trim(s)) {
        Some(v) => if i32::MIN <= v <= i32::MAX {
            Some(v)
        } else {
            None
        },
        None => None,
    }
}

/// Parsing with no trimming, as an action string's number is read: the text
/// must be exactly a signed decimal integer that fits in an `i32`.
pub open spec fn spec_parse_i32_exact(s: Seq<char>) -> Option<int> {
    match spec_parse_int(s) {
        Some(v) => if i32::MIN <= v <= i32::MAX {
            Some(v)
        } else {
            None
        },
        None => None,
    }
}

/// Like [`spec_parse_i32_exact`], but the value must fit in an `i8`.
pub open spec fn spec_parse_i8_exact(s: Seq<char>) -> Option<int> {
    match spec_parse_int(s) {
        Some(v) => if i8::MIN <= v <= i8::MAX {
            Some(v)
        } else {
            None
        },
        None => None,
    }
}

// ---------------------------------------------------------------------------
// Facts about digit strings
// ---------------------------------------------------------------------------

pub proof fn lemma_digits_val_nonneg(s: Seq<char>)
    ensures
        digits_val(s) >= 0,
    decreases s.len(),
{
    if s.len() > 0 {
        lemma_digits_val_nonneg(s.drop_last());
    }
}

/// Extending a digit string on the right never shrinks its value.
pub proof fn lemma_digits_val_extend(s: Seq<char>, a: int, k: int, j: int)
    requires
        0 <= a <= k <= j <= s.len(),
    ensures
        digits_val(s.subrange(a, k)) <= digits_val(s.subrange(a, j)),
    decreases j - k,
{
    if k < j {
        lemma_digits_val_extend(s, a, k, j - 1);
        let shorter = s.subrange(a, j - 1);
        let longer = s.subrange(a, j);
        assert(longer.drop_last() =~= shorter);
        lemma_digits_val_nonneg(shorter);
    }
}

proof fn lemma_trim_front_at(s: Seq<char>, i: int)
    requires
        0 <= i <= s.len(),
        forall|k: int| 0 <= k < i ==> is_space_char(s[k]),
        i == s.len() || !is_space_char(s[i]),
    ensures
        trim_front(s) == s.subrange(i, s.len() as int),
    decreases i,
{
    if i == 0 {
        assert(s.subrange(0, s.len() as int) =~= s);
    } else {
        let rest = s.drop_first();
        lemma_trim_front_at(rest, i - 1);
        assert(rest.subrange(i - 1, rest.len() as int) =~= s.subrange(i, s.len() as int));
    }
}

proof fn lemma_trim_back_at(s: Seq<char>, j: int)
    requires
        0 <= j <= s.len(),
        forall|k: int| j <= k < s.len() ==> is_space_char(s[k]),
        j == 0 || !is_space_char(s[j - 1]),
    ensures
        trim_back(s) == s.subrange(0, j),
    decreases s.len(),
{
    if j == s.len() {
        assert(s.subrange(0, j) =~= s);
    } else {
        let rest = s.drop_last();
        lemma_trim_back_at(rest, j);
        assert(rest.subrange(0, j) =~= s.subrange(0, j));
    }
}

/// The trimmed string is the region between the first and last non-space
/// characters.
proof fn lemma_trim_is_subrange(s: Seq<char>, i: int, j: int)
    requires
        0 <= i <= j <= s.len(),
        forall|k: int| 0 <= k < i ==> is_space_char(s[k]),
        forall|k: int| j <= k < s.len() ==> is_space_char(s[k]),
        i == s.len() || !is_space_char(s[i]),
        j == i || !is_space_char(s[j - 1]),
    ensures
        spec_trim(s) == s.subrange(i, j),
{
    lemma_trim_front_at(s, i);
    let t = s.subrange(i, s.len() as int);
    if i == j {
        assert(i == s.len());
        lemma_trim_back_at(t, 0);
        assert(t.subrange(0, 0) =~= s.subrange(i, j));
    } else {
        lemma_trim_back_at(t, j - i);
        assert(t.subrange(0, j - i) =~= s.subrange(i, j));
    }
}

// ---------------------------------------------------------------------------
// Exec character helpers
// ---------------------------------------------------------------------------

fn is_space(c: char) -> (r: bool)
    ensures
        r == is_space_char(c),
{
    c == ' ' || c == '\t' || c == '\n' || c == '\r' || c == '\x0b' || c == '\x0c'
}

fn char_digit(c: char) -> (r: Option<u8>)
    ensures
        match r {
            Some(d) => is_digit_char(c) && d as int == digit_val(c),
            None => !is_digit_char(c),
        },
{
    match c {
        '0' => Some(0),
        '1' => Some(1),
        '2' => Some(2),
        '3' => Some(3),
        '4' => Some(4),
        '5' => Some(5),
        '6' => Some(6),
        '7' => Some(7),
        '8' => Some(8),
        '9' => Some(9),
        _ => None,
    }
}

// ---------------------------------------------------------------------------
// Exec parsing
// ---------------------------------------------------------------------------

/// Parses the characters `[from, to)` of `s` as a signed decimal integer.
#[verifier::loop_isolation(false)]
pub(crate) fn parse_i32_range(s: &str, from: usize, to: usize) -> (r: Option<i32>)
    requires
        from <= to <= s@.len(),
    ensures
        match spec_parse_int(s@.subrange(from as int, to as int)) {
            Some(v) => if i32::MIN <= v <= i32::MAX {
                r == Some(v as i32)
            } else {
                r == None::<i32>
            },
            None => r == None::<i32>,
        },
{
    let ghost seg = s@.subrange(from as int, to as int);
    if from == to {
        return None;
    }
    let first = s.get_char(from);
    assert(first == seg[0]);
    let neg = first == '-';
    let dstart = if first == '-' || first == '+' {
        from + 1
    } else {
        from
    };
    let ghost ds = s@.subrange(dstart as int, to as int);
    proof {
        if first == '-' || first == '+' {
            assert(ds =~= seg.drop_first());
        } else {
            assert(ds =~= seg);
        }
    }
    if dstart == to {
        return None;
    }
    let mut k = dstart;
    let mut m: u64 = 0;
    while k < to
        invariant
            dstart <= k <= to <= s@.len(),
            ds == s@.subrange(dstart as int, to as int),
            forall|i: int| dstart <= i < k ==> is_digit_char(s@[i]),
            m as int == digits_val(s@.subrange(dstart as int, k as int)),
            m <= 0x8000_0000u64,
        decreases to - k,
    {
        let c = s.get_char(k);
        match char_digit(c) {
            None => {
                assert(!is_digit_char(ds[k - dstart]));
                return None;
            },
            Some(d) => {
                m = m * 10 + d as u64;
                proof {
                    let prefix = s@.subrange(dstart as int, k as int);
                    let extended = s@.subrange(dstart as int, k + 1 as int);
                    assert(extended.drop_last() =~= prefix);
                    assert(extended.last() == s@[k as int]);
                }
                k = k + 1;
                if m > 0x8000_0000u64 {
                    proof {
                        lemma_digits_val_extend(s@, dstart as int, k as int, to as int);
                        assert(digits_val(ds) > 0x8000_0000);
                    }
                    return None;
                }
            },
        }
    }
    proof {
        assert(forall|i: int| 0 <= i < ds.len() ==> is_digit_char(ds[i]));
        assert(all_digits(ds));
        assert(m as int == digits_val(ds));
    }
    if neg {
        Some((-(m as i64)) as i32)
    } else {
        if m > 0x7fff_ffffu64 {
            None
        } else {
            Some(m as i32)
        }
    }
}

// ---------------------------------------------------------------------------
// Rendering
// ---------------------------------------------------------------------------

/// The decimal digit string of a non-negative value, most significant first.
pub open spec fn spec_digits(n: int) -> Seq<char>
    recommends
        n >= 0,
    decreases n,
{
    if n < 10 {
        seq![digit_char(n)]
    } else {
        spec_digits(n / 10).push(digit_char(n % 10))
    }
}

/// The decimal text written for a value: digits, with a leading `'-'` when
/// the value is negative, no padding and no trailing newline.
pub open spec fn spec_render_i32(v: int) -> Seq<char> {
    if v >= 0 {
        spec_digits(v)
    } else {
        seq!['-'] + spec_digits(-v)
    }
}

proof fn lemma_digit_char_facts(d: int)
    requires
        0 <= d < 10,
    ensures
        is_digit_char(digit_char(d)),
        digit_val(digit_char(d)) == d,
        digit_char(d) != '+' && digit_char(d) != '-',
        !is_space_char(digit_char(d)),
{
}

/// A rendered digit string is non-empty, all digits, and denotes the value
/// it was rendered from.
proof fn lemma_digits_props(n: int)
    requires
        n >= 0,
    ensures
        spec_digits(n).len() >= 1,
        all_digits(spec_digits(n)),
        digits_val(spec_digits(n)) == n,
    decreases n,
{
    let s = spec_digits(n);
    if n < 10 {
        lemma_digit_char_facts(n);
        assert(s.drop_last() =~= Seq::<char>::empty());
        assert(s.last() == digit_char(n));
        assert(digits_val(s.drop_last()) == 0);
        assert(digits_val(s) == digits_val(s.drop_last()) * 10 + digit_val(s.last()));
    } else {
        lemma_digits_props(n / 10);
        lemma_fundamental_div_mod(n, 10);
        lemma_digit_char_facts(n % 10);
        let t = spec_digits(n / 10);
        let c = digit_char(n % 10);
        assert(s.drop_last() =~= t);
        assert(s.last() == c);
        assert forall|i: int| 0 <= i < s.len() implies is_digit_char(s[i]) by {
            if i < t.len() {
                assert(s[i] == t[i]);
            } else {
                assert(s[i] == c);
            }
        }
    }
}

fn digit_str(d: u32) -> (r: &'static str)
    requires
        d < 10,
    ensures
        r@ == seq![digit_char(d as int)],
{
    proof {
        reveal_strlit("0");
        reveal_strlit("1");
        reveal_strlit("2");
        reveal_strlit("3");
        reveal_strlit("4");
        reveal_strlit("5");
        reveal_strlit("6");
        reveal_strlit("7");
        reveal_strlit("8");
        reveal_strlit("9");
    }
    let r = if d == 0 {
        "0"
    } else if d == 1 {
        "1"
    } else if d == 2 {
        "2"
    } else if d == 3 {
        "3"
    } else if d == 4 {
        "4"
    } else if d == 5 {
        "5"
    } else if d == 6 {
        "6"
    } else if d == 7 {
        "7"
    } else if d == 8 {
        "8"
    } else {
        "9"
    };
    proof {
        assert(r@ =~= seq![digit_char(d as int)]);
    }
    r
}

fn push_digits(m: u32, out: &mut String)
    ensures
        final(out)@ == old(out)@ + spec_digits(m as int),
    decreases m,
{
    if m < 10 {
        out.append(digit_str(m));
    } else {
        push_digits(m / 10, out);
        out.append(digit_str(m % 10));
        proof {
            assert(old(out)@ + spec_digits((m / 10) as int) + seq![digit_char((m % 10) as int)]
                =~= old(out)@ + spec_digits(m as int));
        }
    }
}

/// Renders a value as the decimal text a brightness write must carry.
pub fn render_numeric_value(value: i32) -> (s: String)
    ensures
        s@ == spec_render_i32(value as int),
{
    let mut s = String::new();
    if value < 0 {
        s.append("-");
    }
    let m: u32 = if value >= 0 {
        value as u32
    } else {
        (-(value as i64)) as u32
    };
    push_digits(m, &mut s);
    proof {
        reveal_strlit("-");
        assert(s@ =~= spec_render_i32(value as int));
    }
    s
}

/// Rendering a value and parsing the text back yields the value again: the
/// brightness file, right after a write, reads as the written value.
pub proof fn lemma_render_parse_round_trip(v: i32)
    ensures
        spec_parse_i32(spec_render_i32(v as int)) == Some(v as int),
{
    let s = spec_render_i32(v as int);
    if v >= 0 {
        lemma_digits_props(v as int);
        assert(is_digit_char(s[0]) && is_digit_char(s.last()));
        assert(trim_front(s) == s);
        assert(trim_back(s) == s);
    } else {
        let d = spec_digits(-(v as int));
        lemma_digits_props(-(v as int));
        assert(s[0] == '-');
        assert(s.last() == d.last());
        assert(is_digit_char(d.last()));
        assert(trim_front(s) == s);
        assert(trim_back(s) == s);
        assert(s.drop_first() =~= d);
        assert(all_digits(s.drop_first()));
    }
}

/// Parses a sysfs attribute value: surrounding whitespace is trimmed, the
/// rest must be a clean decimal integer. Anything else is `InvalidData`.
#[verifier::loop_isolation(false)]
pub fn parse_numeric_value(value: &str) -> (r: Result<i32, Error>)
    ensures
        match spec_parse_i32(value@) {
            Some(v) => r == Ok::<i32, Error>(v as i32),
            None => r == Err::<i32, Error>(Error::InvalidData),
        },
{
    let n = value.unicode_len();
    let mut i: usize = 0;
    while i < n && is_space(value.get_char(i))
        invariant
            0 <= i <= n,
            forall|k: int| 0 <= k < i ==> is_space_char(value@[k]),
        decreases n - i,
    {
        i = i + 1;
    }
    let mut j: usize = n;
    while j > i && is_space(value.get_char(j - 1))
        invariant
            i <= j <= n,
            forall|k: int| j <= k < n ==> is_space_char(value@[k]),
        decreases j,
    {
        j = j - 1;
    }
    proof {
        lemma_trim_is_subrange(value@, i as int, j as int);
    }
    match parse_i32_range(value, i, j) {
        Some(v) => Ok(v),
        None => Err(Error::InvalidData),
    }
}

} // verus!
