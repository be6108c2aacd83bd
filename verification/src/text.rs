//! Text as a row of characters: the fields between marks, and numbers in
//! decimal digits.

use vstd::prelude::*;

verus! {

/// Whether `c` is one of the ten decimal digits.
pub open spec fn is_digit(c: char) -> bool {
    '0' <= c && c <= '9'
}

/// The number that a decimal digit stands for.
pub open spec fn digit_value(c: char) -> nat {
    (c as int - '0' as int) as nat
}

/// The number that a run of decimal digits writes, the first digit weighing
/// most.
pub open spec fn digits_value(s: Seq<char>) -> nat
    decreases s.len(),
{
    if s.len() == 0 {
        0
    } else {
        digits_value(s.drop_last()) * 10 + digit_value(s.last())
    }
}

/// Whether `s` is one decimal digit or more, and nothing else.
pub open spec fn all_digits(s: Seq<char>) -> bool {
    s.len() > 0 && forall|i: int| 0 <= i < s.len() ==> is_digit(#[trigger] s[i])
}

/// `s` without the plus sign that may lead it.
pub open spec fn unsigned(s: Seq<char>) -> Seq<char> {
    if s.len() > 0 && s[0] == '+' {
        s.skip(1)
    } else {
        s
    }
}

/// The number below 256 that `s` writes in decimal digits, with or without
/// a leading plus sign; `None` for any other text.
pub open spec fn number_of(s: Seq<char>) -> Option<u8> {
    let d = unsigned(s);
    if all_digits(d) && digits_value(d) <= u8::MAX {
        Some(digits_value(d) as u8)
    } else {
        None
    }
}

/// Where the first `mark` of `s` at or after `i` stands; the length of `s`
/// where there is none.
pub open spec fn mark_from(s: Seq<char>, mark: char, i: int) -> int
    decreases s.len() - i,
{
    if i < 0 || i >= s.len() {
        s.len() as int
    } else if s[i] == mark {
        i
    } else {
        mark_from(s, mark, i + 1)
    }
}

/// The fields of `s` from `from` on: the stretches between one `mark` and
/// the next, in order. There is always a first field; one more follows each
/// `mark`; a field may be empty.
pub open spec fn fields_from(s: Seq<char>, mark: char, from: int) -> Seq<Seq<char>>
    decreases s.len() - from,
{
    let end = mark_from(s, mark, from);
    if from < 0 || end < from || end >= s.len() {
        seq![s.skip(from)]
    } else {
        seq![s.subrange(from, end)] + fields_from(s, mark, end + 1)
    }
}

/// The fields of `s`: the stretches between one `mark` and the next.
pub open spec fn fields(s: Seq<char>, mark: char) -> Seq<Seq<char>> {
    fields_from(s, mark, 0)
}

/// The characters of `s`, in order.
pub fn chars_of(s: &str) -> (v: Vec<char>)
    ensures
        v@ == s@,
{
    let mut v: Vec<char> = Vec::new();
    for c in it: s.chars()
        invariant
            v@ == it.seq().take(it.index() as int),
            it.seq() == s@,
    {
        v.push(c);
    }
    v
}

/// A longer run of digits writes no smaller a number than its beginning.
proof fn lemma_digits_value_grows(s: Seq<char>, k: int)
    requires
        0 <= k <= s.len(),
    ensures
        digits_value(s.take(k)) <= digits_value(s),
    decreases s.len(),
{
    if k < s.len() {
        assert(s.drop_last().take(k) =~= s.take(k));
        lemma_digits_value_grows(s.drop_last(), k);
    } else {
        assert(s.take(k) =~= s);
    }
}

/// Reads the number that the characters from `from` up to `to` write.
pub fn number_in(chars: &Vec<char>, from: usize, to: usize) -> (r: Option<u8>)
    requires
        from <= to <= chars.len(),
    ensures
        r == number_of(chars@.subrange(from as int, to as int)),
{
    let ghost s = chars@.subrange(from as int, to as int);
    let start: usize = if from < to && chars[from] == '+' {
        from + 1
    } else {
        from
    };
    let ghost d = unsigned(s);
    if start == to {
        return None;
    }
    let mut value: u32 = 0;
    let mut i: usize = start;
    while i < to
        invariant
            from <= start <= i <= to <= chars.len(),
            d == unsigned(chars@.subrange(from as int, to as int)),
            d == chars@.subrange(start as int, to as int),
            forall|j: int| 0 <= j < i - start ==> is_digit(#[trigger] d[j]),
            value == digits_value(d.take(i - start)),
            value <= u8::MAX,
        decreases to - i,
    {
        let c: char = chars[i];
        if c < '0' || c > '9' {
            assert(!is_digit(d[i - start]));
            return None;
        }
        let digit: u32 = c as u32 - '0' as u32;
        proof {
            let next = d.take(i - start + 1);
            assert(next.drop_last() =~= d.take(i - start));
            lemma_digits_value_grows(d, i - start + 1);
        }
        value = value * 10 + digit;
        if value > 255 {
            return None;
        }
        i = i + 1;
    }
    proof {
        assert(d.take(i - start) =~= d);
    }
    Some(value as u8)
}

/// Finds the first `mark` from `from` on among the first `end` characters.
pub fn mark_in(chars: &Vec<char>, mark: char, from: usize, end: usize) -> (i: usize)
    requires
        from <= end <= chars.len(),
    ensures
        from <= i <= end,
        i == mark_from(chars@.take(end as int), mark, from as int),
{
    let ghost s = chars@.take(end as int);
    let mut i: usize = from;
    while i < end && chars[i] != mark
        invariant
            from <= i <= end <= chars.len(),
            s == chars@.take(end as int),
            mark_from(s, mark, i as int) == mark_from(s, mark, from as int),
        decreases end - i,
    {
        i = i + 1;
    }
    i
}

/// The characters from `from` up to `to`, in order.
pub fn stretch(chars: &Vec<char>, from: usize, to: usize) -> (v: Vec<char>)
    requires
        from <= to <= chars.len(),
    ensures
        v@ == chars@.subrange(from as int, to as int),
{
    let mut v: Vec<char> = Vec::new();
    let mut i: usize = from;
    while i < to
        invariant
            from <= i <= to <= chars.len(),
            v@ == chars@.subrange(from as int, i as int),
        decreases to - i,
    {
        v.push(chars[i]);
        i = i + 1;
    }
    v
}

/// Splits the characters into their fields at each `mark`.
pub fn split(chars: &Vec<char>, mark: char) -> (parts: Vec<Vec<char>>)
    ensures
        parts.deep_view() == fields(chars@, mark),
{
    let n: usize = chars.len();
    let mut parts: Vec<Vec<char>> = Vec::new();
    let mut from: usize = 0;
    loop
        invariant_except_break
            parts.deep_view() + fields_from(chars@, mark, from as int) == fields(chars@, mark),
        invariant
            from <= n == chars.len(),
            chars@.take(n as int) == chars@,
        ensures
            parts.deep_view() == fields(chars@, mark),
        decreases n - from,
    {
        let end: usize = mark_in(chars, mark, from, n);
        let part: Vec<char> = stretch(chars, from, end);
        assert(part.deep_view() =~= chars@.subrange(from as int, end as int));
        parts.push(part);
        if end >= n {
            break ;
        }
        from = end + 1;
    }
    parts
}

/// Where no `mark` stands from `i` up to `k`, and `k` is a `mark` or the
/// end, the first `mark` from `i` on is at `k`.
pub proof fn lemma_mark_from(s: Seq<char>, mark: char, i: int, k: int)
    requires
        0 <= i <= k <= s.len(),
        forall|j: int| i <= j < k ==> s[j] != mark,
        k < s.len() ==> s[k] == mark,
    ensures
        mark_from(s, mark, i) == k,
    decreases k - i,
{
    if i < k {
        lemma_mark_from(s, mark, i + 1, k);
    }
}

} // verus!
