//! Plain text: comparison, trimming and whole numbers.

use vstd::prelude::*;
use vstd::std_specs::iter::IteratorSpec;
use vstd::string::*;

verus! {

/// The characters of `s`, in order.
pub fn chars_of(s: &str) -> (r: Vec<char>)
    ensures
        r@ == s@,
{
    let mut r: Vec<char> = Vec::new();
    for c in it: s.chars()
        invariant
            r@ == s@.take(it.index()),
            it.seq() == s@,
    {
        r.push(c);
    }
    assert(s@.take(s@.len() as int) =~= s@);
    r
}

/// Whether two texts hold the same characters.
pub fn same_text(a: &str, b: &str) -> (r: bool)
    ensures
        r == (a@ == b@),
{
    let mut xs = a.chars();
    let mut ys = b.chars();
    let mut left: usize = a.unicode_len();
    loop
        invariant
            (a@ == b@) == (xs.remaining() == ys.remaining()),
            left == xs.remaining().len(),
        decreases left,
    {
        let ghost us = xs.remaining();
        let ghost vs = ys.remaining();
        let x: Option<char> = xs.next();
        let y: Option<char> = ys.next();
        match (x, y) {
            (Some(c), Some(d)) => {
                if c != d {
                    return false;
                }
                proof {
                    assert(us =~= seq![c] + us.drop_first());
                    assert(vs =~= seq![c] + vs.drop_first());
                }
            },
            (None, None) => {
                assert(us =~= vs);
                return true;
            },
            _ => {
                return false;
            },
        }
        left = left - 1;
    }
}

/// What `trim` takes off the ends of a text.
#[derive(Debug, Clone, Copy, PartialEq, Eq, Structural)]
pub enum Padding {
    WhiteSpace,
    DoubleQuote,
}

/// The characters with Unicode's `White_Space` property.
pub open spec fn is_white_space(c: char) -> bool {
    let n = c as u32;
    ||| 0x9 <= n <= 0xd
    ||| n == 0x20
    ||| n == 0x85
    ||| n == 0xa0
    ||| n == 0x1680
    ||| 0x2000 <= n <= 0x200a
    ||| n == 0x2028
    ||| n == 0x2029
    ||| n == 0x202f
    ||| n == 0x205f
    ||| n == 0x3000
}

impl Padding {
    pub open spec fn has(self, c: char) -> bool {
        match self {
            Padding::WhiteSpace => is_white_space(c),
            Padding::DoubleQuote => c == '"',
        }
    }

    fn covers(self, c: char) -> (r: bool)
        ensures
            r == self.has(c),
    {
        match self {
            Padding::WhiteSpace => {
                let n: u32 = c as u32;
                (0x9 <= n && n <= 0xd) || n == 0x20 || n == 0x85 || n == 0xa0 || n == 0x1680 || (0x2000 <= n && n
                    <= 0x200a) || n == 0x2028 || n == 0x2029 || n == 0x202f || n == 0x205f || n == 0x3000
            },
            Padding::DoubleQuote => c == '"',
        }
    }
}

/// `s` without the padding at its front.
pub open spec fn trimmed_front(s: Seq<char>, padding: Padding) -> Seq<char>
    decreases s.len(),
{
    if s.len() > 0 && padding.has(s[0]) {
        trimmed_front(s.skip(1), padding)
    } else {
        s
    }
}

/// `s` without the padding at its back.
pub open spec fn trimmed_back(s: Seq<char>, padding: Padding) -> Seq<char>
    decreases s.len(),
{
    if s.len() > 0 && padding.has(s.last()) {
        trimmed_back(s.drop_last(), padding)
    } else {
        s
    }
}

/// `s` without the padding at its two ends.
pub open spec fn trimmed(s: Seq<char>, padding: Padding) -> Seq<char> {
    trimmed_back(trimmed_front(s, padding), padding)
}

/// The text without the padding at its two ends.
pub fn trim(s: &str, padding: Padding) -> (r: &str)
    ensures
        r@ == trimmed(s@, padding),
{
    let chars: Vec<char> = chars_of(s);
    let mut from: usize = 0;
    assert(s@.skip(0) =~= s@);
    while from < chars.len() && padding.covers(chars[from])
        invariant
            chars@ == s@,
            from <= chars.len(),
            trimmed_front(s@, padding) == trimmed_front(s@.skip(from as int), padding),
        decreases chars.len() - from,
    {
        assert(s@.skip(from as int).skip(1) =~= s@.skip(from + 1));
        from = from + 1;
    }
    let mut to: usize = chars.len();
    assert(s@.subrange(from as int, to as int) =~= s@.skip(from as int));
    while to > from && padding.covers(chars[to - 1])
        invariant
            chars@ == s@,
            from <= to <= chars.len(),
            trimmed(s@, padding) == trimmed_back(s@.subrange(from as int, to as int), padding),
        decreases to,
    {
        assert(s@.subrange(from as int, to as int).drop_last() =~= s@.subrange(from as int, to - 1));
        to = to - 1;
    }
    s.substring_char(from, to)
}

/// The place of the first `c` in `s`, or the length of `s` where it has none.
pub open spec fn first_place(s: Seq<char>, c: char) -> int
    decreases s.len(),
{
    if s.len() == 0 || s[0] == c {
        0
    } else {
        1 + first_place(s.skip(1), c)
    }
}

pub proof fn lemma_first_place(s: Seq<char>, c: char, k: int)
    requires
        0 <= k <= s.len(),
        forall|i: int| 0 <= i < k ==> s[i] != c,
        k < s.len() ==> s[k] == c,
    ensures
        first_place(s, c) == k,
    decreases s.len(),
{
    if k > 0 {
        let rest = s.skip(1);
        assert forall|i: int| 0 <= i < k - 1 implies rest[i] != c by {
            assert(rest[i] == s[i + 1]);
        }
        lemma_first_place(rest, c, k - 1);
    }
}

pub proof fn lemma_first_place_bounds(s: Seq<char>, c: char)
    ensures
        0 <= first_place(s, c) <= s.len(),
    decreases s.len(),
{
    if s.len() > 0 && s[0] != c {
        lemma_first_place_bounds(s.skip(1), c);
    }
}

/// The place of the first `c` among `chars` at or after `from`, counted from `from`.
pub fn find_from(chars: &Vec<char>, from: usize, c: char) -> (r: usize)
    requires
        from <= chars.len(),
    ensures
        r == first_place(chars@.skip(from as int), c),
        from + r <= chars.len(),
{
    let mut k: usize = from;
    while k < chars.len() && chars[k] != c
        invariant
            from <= k <= chars.len(),
            forall|i: int| from <= i < k ==> chars@[i] != c,
        decreases chars.len() - k,
    {
        k = k + 1;
    }
    proof {
        lemma_first_place(chars@.skip(from as int), c, k - from);
    }
    k - from
}

/// Whether `s` begins with `prefix`.
pub fn begins_with(s: &str, prefix: &str) -> (r: bool)
    ensures
        r == prefix@.is_prefix_of(s@),
{
    let chars: Vec<char> = chars_of(s);
    let wanted: Vec<char> = chars_of(prefix);
    if wanted.len() > chars.len() {
        return false;
    }
    let mut k: usize = 0;
    while k < wanted.len()
        invariant
            chars@ == s@,
            wanted@ == prefix@,
            k <= wanted.len() <= chars.len(),
            forall|i: int| 0 <= i < k ==> chars@[i] == wanted@[i],
        decreases wanted.len() - k,
    {
        if chars[k] != wanted[k] {
            assert(s@.subrange(0, prefix@.len() as int)[k as int] != prefix@[k as int]);
            return false;
        }
        k = k + 1;
    }
    assert(prefix@ =~= s@.subrange(0, prefix@.len() as int));
    true
}

pub open spec fn is_digit(c: char) -> bool {
    '0' <= c <= '9'
}

/// Whether `s` is one decimal digit after another, at least one.
pub open spec fn is_digits(s: Seq<char>) -> bool {
    s.len() > 0 && forall|i: int| 0 <= i < s.len() ==> is_digit(#[trigger] s[i])
}

/// What the decimal digits `s` amount to.
pub open spec fn digits_value(s: Seq<char>) -> int
    decreases s.len(),
{
    if s.len() == 0 {
        0
    } else {
        digits_value(s.drop_last()) * 10 + (s.last() as u32 - '0' as u32)
    }
}

/// The whole number that `s` writes in decimal: an optional `+`, or `-` where `signed`, and then
/// digits only.
pub open spec fn whole_number(s: Seq<char>, signed: bool) -> Option<int> {
    let minus = signed && s.len() > 0 && s[0] == '-';
    let plus = s.len() > 0 && s[0] == '+';
    let digits = if minus || plus {
        s.skip(1)
    } else {
        s
    };
    if !is_digits(digits) {
        None
    } else if minus {
        Some(-digits_value(digits))
    } else {
        Some(digits_value(digits))
    }
}

/// The whole number that `s` writes, where it lies between `low` and `high`.
pub open spec fn number_within(s: Seq<char>, signed: bool, low: int, high: int) -> Option<int> {
    match whole_number(s, signed) {
        Some(n) => if low <= n <= high {
            Some(n)
        } else {
            None
        },
        None => None,
    }
}

proof fn lemma_digits_value_grows(s: Seq<char>, k: int)
    requires
        0 <= k <= s.len(),
        forall|i: int| 0 <= i < s.len() ==> is_digit(#[trigger] s[i]),
    ensures
        0 <= digits_value(s.take(k)) <= digits_value(s),
    decreases s.len(),
{
    if s.len() > 0 {
        let front = s.drop_last();
        assert forall|i: int| 0 <= i < front.len() implies is_digit(#[trigger] front[i]) by {
            assert(front[i] == s[i]);
        }
        assert(is_digit(s[s.len() - 1]));
        if k == s.len() {
            assert(s.take(k) =~= s);
            lemma_digits_value_grows(front, 0);
            assert(front.take(0) =~= Seq::empty());
        } else {
            assert(s.take(k) =~= front.take(k));
            lemma_digits_value_grows(front, k);
        }
    } else {
        assert(s.take(k) =~= s);
    }
}

/// The whole number that `s` writes, where it lies between `low` and `high`.
fn parse_within(s: &str, signed: bool, low: i128, high: i128) -> (r: Option<i128>)
    requires
        -0x1_0000_0000_0000_0000 <= low,
        high <= 0x1_0000_0000_0000_0000,
    ensures
        (match r {
            Some(n) => Some(n as int),
            None => None,
        }) == number_within(s@, signed, low as int, high as int),
{
    let chars: Vec<char> = chars_of(s);
    let minus: bool = signed && chars.len() > 0 && chars[0] == '-';
    let plus: bool = chars.len() > 0 && chars[0] == '+';
    let start: usize = if minus || plus {
        1
    } else {
        0
    };
    let ghost digits = s@.skip(start as int);
    assert(s@.skip(0) =~= s@);
    if start == chars.len() {
        return None;
    }
    let mut value: i128 = 0;
    let mut i: usize = start;
    assert(digits.take(0) =~= Seq::empty());
    while i < chars.len()
        invariant
            chars@ == s@,
            start <= 1,
            start <= i <= chars.len(),
            digits == s@.skip(start as int),
            minus == (signed && s@.len() > 0 && s@[0] == '-'),
            start == (if minus || (s@.len() > 0 && s@[0] == '+') { 1int } else { 0 }),
            start < chars.len(),
            -0x1_0000_0000_0000_0000 <= low,
            high <= 0x1_0000_0000_0000_0000,
            value == digits_value(digits.take(i - start)),
            0 <= value <= 0x1_0000_0000_0000_0000,
            forall|k: int| 0 <= k < i - start ==> is_digit(#[trigger] digits[k]),
            whole_number(s@, signed) == (if !is_digits(digits) {
                None
            } else if minus {
                Some(-digits_value(digits))
            } else {
                Some(digits_value(digits))
            }),
        decreases chars.len() - i,
    {
        let c: char = chars[i];
        assert(digits[i - start] == c);
        if c < '0' || c > '9' {
            return None;
        }
        assert(digits.take(i - start + 1).drop_last() =~= digits.take(i - start));
        value = value * 10 + (c as u32 - '0' as u32) as i128;
        i = i + 1;
        if value > 0x1_0000_0000_0000_0000 {
            proof {
                if is_digits(digits) {
                    lemma_digits_value_grows(digits, i - start);
                }
            }
            return None;
        }
    }
    assert(digits.take(digits.len() as int) =~= digits);
    let n: i128 = if minus {
        -value
    } else {
        value
    };
    if low <= n && n <= high {
        Some(n)
    } else {
        None
    }
}

/// The number that `s` writes, where it is an `i64`.
pub fn parse_i64(s: &str) -> (r: Option<i64>)
    ensures
        (match r {
            Some(n) => Some(n as int),
            None => None,
        }) == number_within(s@, true, i64::MIN as int, i64::MAX as int),
{
    match parse_within(s, true, i64::MIN as i128, i64::MAX as i128) {
        Some(n) => Some(n as i64),
        None => None,
    }
}

/// The number that `s` writes, where it is a `u64`.
pub fn parse_u64(s: &str) -> (r: Option<u64>)
    ensures
        (match r {
            Some(n) => Some(n as int),
            None => None,
        }) == number_within(s@, false, 0, u64::MAX as int),
{
    match parse_within(s, false, 0, u64::MAX as i128) {
        Some(n) => Some(n as u64),
        None => None,
    }
}

/// The number that `s` writes, where it is a `u32`.
pub fn parse_u32(s: &str) -> (r: Option<u32>)
    ensures
        (match r {
            Some(n) => Some(n as int),
            None => None,
        }) == number_within(s@, false, 0, u32::MAX as int),
{
    match parse_within(s, false, 0, u32::MAX as i128) {
        Some(n) => Some(n as u32),
        None => None,
    }
}

} // verus!
