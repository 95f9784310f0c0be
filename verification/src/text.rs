//! Small verified operations on text.

use vstd::prelude::*;

verus! {

/// Appends one character to a string: [`std::string::String::push`].
pub assume_specification[ std::string::String::push ](s: &mut std::string::String, c: char)
    ensures
        final(s)@ == old(s)@.push(c),
;

/// Compares two strings: `str::eq` is true when they hold the same characters
/// in the same order.
pub assume_specification[ <str as PartialEq>::eq ](left: &str, right: &str) -> (r: bool)
    ensures
        r == (left@ == right@),
;

/// Whether two strings hold the same characters.
pub fn same_text(left: &str, right: &str) -> (r: bool)
    ensures
        r == (left@ == right@),
{
    left.eq(right)
}

/// The characters of a text.
pub fn chars_of(text: &str) -> (r: Vec<char>)
    ensures
        r@ == text@,
{
    let mut chars: Vec<char> = Vec::new();
    for c in it: text.chars()
        invariant
            chars@ == it.seq().take(it.index() as int),
            it.seq() == text@,
    {
        chars.push(c);
        assert(it.seq().take(it.index() + 1) =~= it.seq().take(it.index() as int).push(c));
    }
    assert(text@.take(text@.len() as int) =~= text@);
    chars
}

/// Whether a character is white space: the characters that have the `White_Space`
/// property of Unicode.
pub open spec fn white_space(c: char) -> bool {
    let n = c as u32;
    ||| 0x9 <= n <= 0xd
    ||| n == 0x20
    ||| n == 0x85
    ||| n == 0xa0
    ||| n == 0x1680
    ||| 0x2000 <= n <= 0x200a
    ||| n == 0x2028
    ||| n == 0x2029
    ||| n == 0x202f
    ||| n == 0x205f
    ||| n == 0x3000
}

/// Tells white space: [`char::is_whitespace`] is true of the characters that have the
/// `White_Space` property of Unicode.
pub assume_specification[ char::is_whitespace ](c: char) -> (r: bool)
    ensures
        r == white_space(c),
;

/// Whether `pattern` stands in `s` at position `k`.
pub open spec fn occurs_at(s: Seq<char>, pattern: Seq<char>, k: int) -> bool {
    0 <= k && k + pattern.len() <= s.len() && s.subrange(k, k + pattern.len()) == pattern
}

/// Whether `k` is the first position from `from` on at which `pattern` stands in
/// `s`.
pub open spec fn first_from(s: Seq<char>, pattern: Seq<char>, from: int, k: int) -> bool {
    &&& from <= k
    &&& occurs_at(s, pattern, k)
    &&& forall|j: int| from <= j < k ==> !#[trigger] occurs_at(s, pattern, j)
}

/// Find `pattern` in `chars`, from position `from` on.
pub fn find(chars: &Vec<char>, pattern: &Vec<char>, from: usize) -> (r: Option<usize>)
    requires
        from <= chars@.len(),
    ensures
        match r {
            Some(k) => first_from(chars@, pattern@, from as int, k as int),
            None => forall|k: int| from <= k ==> !#[trigger] occurs_at(chars@, pattern@, k),
        },
{
    let n: usize = chars.len();
    let m: usize = pattern.len();
    let mut k: usize = from;
    while m <= n - k
        invariant
            from <= k <= n,
            n == chars@.len(),
            m == pattern@.len(),
            forall|j: int| from <= j < k ==> !#[trigger] occurs_at(chars@, pattern@, j),
        decreases n - k,
    {
        let mut i: usize = 0;
        while i < m && chars[k + i] == pattern[i]
            invariant
                i <= m,
                k + m <= n,
                n == chars@.len(),
                m == pattern@.len(),
                forall|j: int| 0 <= j < i ==> #[trigger] chars@[k + j] == pattern@[j],
            decreases m - i,
        {
            i += 1;
        }
        if i == m {
            proof {
                assert(chars@.subrange(k as int, k + m) =~= pattern@) by {
                    assert forall|j: int| 0 <= j < m implies chars@.subrange(k as int, k + m)[j]
                        == pattern@[j] by {
                        assert(chars@[k + j] == pattern@[j]);
                    }
                }
            }
            return Some(k);
        }
        proof {
            assert(chars@.subrange(k as int, k + m)[i as int] == chars@[k + i]);
            assert(!occurs_at(chars@, pattern@, k as int));
        }
        if k == n {
            return None;
        }
        k += 1;
    }
    None
}

/// How many characters of `s` from position `i` on are white space (where `space`
/// is set) or are not (where it is not), before the first that differs.
pub open spec fn run_length(s: Seq<char>, i: int, space: bool) -> int
    decreases s.len() - i,
{
    if i < 0 || i >= s.len() || white_space(s[i]) != space {
        0
    } else {
        1 + run_length(s, i + 1, space)
    }
}

/// The first word of `s`: its first run of characters that are not white space.
/// Empty where there is none.
pub open spec fn first_word(s: Seq<char>) -> Seq<char> {
    let start = run_length(s, 0, true);
    s.subrange(start, start + run_length(s, start, false))
}

/// A run stays within the text.
pub proof fn lemma_run_length(s: Seq<char>, i: int, space: bool)
    requires
        0 <= i <= s.len(),
    ensures
        0 <= run_length(s, i, space),
        i + run_length(s, i, space) <= s.len(),
    decreases s.len() - i,
{
    if i < s.len() && white_space(s[i]) == space {
        lemma_run_length(s, i + 1, space);
    }
}

/// The end of the run that starts at position `from`, within the first `end`
/// characters.
fn run_end(chars: &Vec<char>, from: usize, space: bool) -> (r: usize)
    requires
        from <= chars@.len(),
    ensures
        r == from + run_length(chars@, from as int, space),
        from <= r <= chars@.len(),
{
    let mut k: usize = from;
    while k < chars.len() && chars[k].is_whitespace() == space
        invariant
            from <= k <= chars@.len(),
            k + run_length(chars@, k as int, space) == from + run_length(
                chars@,
                from as int,
                space,
            ),
        decreases chars@.len() - k,
    {
        k += 1;
    }
    k
}

/// The characters of `chars` from `start` to `end`, as a text.
pub fn text_of(chars: &Vec<char>, start: usize, end: usize) -> (r: String)
    requires
        start <= end <= chars@.len(),
    ensures
        r@ == chars@.subrange(start as int, end as int),
{
    let mut text = String::new();
    let mut k: usize = start;
    while k < end
        invariant
            start <= k <= end <= chars@.len(),
            text@ == chars@.subrange(start as int, k as int),
        decreases end - k,
    {
        text.push(chars[k]);
        k += 1;
        assert(text@ =~= chars@.subrange(start as int, k as int));
    }
    text
}

/// A copy of the characters of `chars` from `start` to `end`.
pub fn chars_between(chars: &Vec<char>, start: usize, end: usize) -> (r: Vec<char>)
    requires
        start <= end <= chars@.len(),
    ensures
        r@ == chars@.subrange(start as int, end as int),
{
    let mut part: Vec<char> = Vec::new();
    let mut k: usize = start;
    while k < end
        invariant
            start <= k <= end <= chars@.len(),
            part@ == chars@.subrange(start as int, k as int),
        decreases end - k,
    {
        part.push(chars[k]);
        k += 1;
        assert(part@ =~= chars@.subrange(start as int, k as int));
    }
    part
}

/// The first word of `chars`.
pub fn word_of(chars: &Vec<char>) -> (r: String)
    ensures
        r@ == first_word(chars@),
{
    let start: usize = run_end(chars, 0, true);
    let end: usize = run_end(chars, start, false);
    text_of(chars, start, end)
}

/// How many characters of white space end the first `n` characters of `s`.
pub open spec fn trailing_space(s: Seq<char>, n: int) -> int
    decreases n,
{
    if n <= 0 || n > s.len() || !white_space(s[n - 1]) {
        0
    } else {
        1 + trailing_space(s, n - 1)
    }
}

/// `s` without the white space at its two ends.
pub open spec fn trimmed(s: Seq<char>) -> Seq<char> {
    let start = run_length(s, 0, true);
    if start == s.len() {
        Seq::empty()
    } else {
        s.subrange(start, s.len() - trailing_space(s, s.len() as int))
    }
}

/// `chars` without the white space at its two ends.
pub fn trim(chars: &Vec<char>) -> (r: Vec<char>)
    ensures
        r@ == trimmed(chars@),
{
    let n: usize = chars.len();
    let start: usize = run_end(chars, 0, true);
    if start == n {
        return Vec::new();
    }
    proof {
        lemma_run_stops(chars@, 0, true);
    }
    let mut end: usize = n;
    while end > start + 1 && chars[end - 1].is_whitespace()
        invariant
            start < end <= n,
            n == chars@.len(),
            !white_space(chars@[start as int]),
            n - trailing_space(chars@, n as int) == end - trailing_space(chars@, end as int),
        decreases end,
    {
        end -= 1;
    }
    chars_between(chars, start, end)
}

/// The character behind a run is not of the run's kind.
proof fn lemma_run_stops(s: Seq<char>, i: int, space: bool)
    requires
        0 <= i <= s.len(),
        i + run_length(s, i, space) < s.len(),
    ensures
        white_space(s[i + run_length(s, i, space)]) != space,
    decreases s.len() - i,
{
    if i < s.len() && white_space(s[i]) == space {
        lemma_run_stops(s, i + 1, space);
    }
}

/// The parts of `s` between the characters `mark`, in order. There is one part
/// more than there are marks.
pub open spec fn split_at(s: Seq<char>, mark: char) -> Seq<Seq<char>>
    decreases s.len(),
{
    if s.len() == 0 {
        seq![Seq::empty()]
    } else {
        let before = split_at(s.drop_last(), mark);
        if s.last() == mark {
            before.push(Seq::empty())
        } else {
            before.drop_last().push(before.last().push(s.last()))
        }
    }
}

/// The texts of a list of character lists.
pub open spec fn views(parts: Seq<Vec<char>>) -> Seq<Seq<char>> {
    Seq::new(parts.len(), |i: int| parts[i]@)
}

/// Split `chars` at the characters `mark`.
pub fn split(chars: &Vec<char>, mark: char) -> (r: Vec<Vec<char>>)
    ensures
        views(r@) == split_at(chars@, mark),
{
    let mut done: Vec<Vec<char>> = Vec::new();
    let mut part: Vec<char> = Vec::new();
    let mut i: usize = 0;
    assert(views(done@).push(part@) =~= split_at(chars@.take(0), mark));
    while i < chars.len()
        invariant
            i <= chars@.len(),
            views(done@).push(part@) == split_at(chars@.take(i as int), mark),
        decreases chars@.len() - i,
    {
        let c = chars[i];
        let ghost before = views(done@).push(part@);
        proof {
            assert(chars@.take(i + 1).drop_last() =~= chars@.take(i as int));
            assert(chars@.take(i + 1).last() == c);
            assert(before.drop_last() =~= views(done@));
        }
        if c == mark {
            done.push(part);
            part = Vec::new();
            assert(views(done@) =~= before);
            assert(part@ =~= Seq::<char>::empty());
        } else {
            part.push(c);
        }
        i += 1;
    }
    let ghost before = views(done@).push(part@);
    done.push(part);
    assert(views(done@) =~= before);
    assert(chars@.take(i as int) =~= chars@);
    done
}

/// Whether a character is a decimal digit.
pub open spec fn is_digit(c: char) -> bool {
    '0' <= c && c <= '9'
}

/// The number that a list of decimal digits denotes.
pub open spec fn digits_value(s: Seq<char>) -> int
    decreases s.len(),
{
    if s.len() == 0 {
        0
    } else {
        digits_value(s.drop_last()) * 10 + (s.last() as int - '0' as int)
    }
}

/// Whether `s` is a list of decimal digits, and not empty.
pub open spec fn all_digits(s: Seq<char>) -> bool {
    s.len() > 0 && forall|i: int| 0 <= i < s.len() ==> is_digit(#[trigger] s[i])
}

/// The integer that `s` denotes: decimal digits, with a sign before them or
/// without, whose value fits in 64 bits.
pub open spec fn integer_value(s: Seq<char>) -> Option<int> {
    let negative = s.len() > 0 && s[0] == '-';
    let digits = if s.len() > 0 && (s[0] == '-' || s[0] == '+') {
        s.skip(1)
    } else {
        s
    };
    let value = if negative {
        -digits_value(digits)
    } else {
        digits_value(digits)
    };
    if all_digits(digits) && i64::MIN <= value <= i64::MAX {
        Some(value)
    } else {
        None
    }
}

/// More digits never make a number smaller.
proof fn lemma_digits_grow(s: Seq<char>, n: int)
    requires
        0 <= n <= s.len(),
        forall|i: int| 0 <= i < s.len() ==> is_digit(#[trigger] s[i]),
    ensures
        0 <= digits_value(s.take(n)) <= digits_value(s),
    decreases s.len(),
{
    if n < s.len() {
        lemma_digits_grow(s.drop_last(), n);
        assert(s.drop_last().take(n) =~= s.take(n));
    } else {
        assert(s.take(n) =~= s);
        if s.len() > 0 {
            lemma_digits_grow(s.drop_last(), s.len() - 1);
            assert(s.drop_last().take(s.len() - 1) =~= s.drop_last());
        }
    }
}

/// Read an integer.
pub fn parse_integer(chars: &Vec<char>) -> (r: Option<i64>)
    ensures
        match r {
            Some(n) => integer_value(chars@) == Some(n as int),
            None => integer_value(chars@) is None,
        },
{
    let n: usize = chars.len();
    let negative = n > 0 && chars[0] == '-';
    let start: usize = if n > 0 && (chars[0] == '-' || chars[0] == '+') {
        1
    } else {
        0
    };
    let ghost digits = chars@.skip(start as int);
    assert(start == 0 ==> digits =~= chars@);
    if start == n {
        return None;
    }
    let mut value: u128 = 0;
    let mut i: usize = start;
    assert(digits.take(0) =~= Seq::<char>::empty());
    while i < n
        invariant
            start <= i <= n,
            n == chars@.len(),
            digits == chars@.skip(start as int),
            forall|j: int| 0 <= j < i - start ==> is_digit(#[trigger] digits[j]),
            value == digits_value(digits.take(i - start)),
            value <= 0x8000_0000_0000_0000,
            integer_value(chars@) is Some ==> all_digits(digits),
            integer_value(chars@) is Some ==> digits_value(digits) <= 0x8000_0000_0000_0000,
        decreases n - i,
    {
        let c = chars[i];
        assert(digits[i - start] == c);
        if c < '0' || c > '9' {
            return None;
        }
        let digit: u128 = (c as u32 - '0' as u32) as u128;
        proof {
            assert(digits.take(i - start + 1).drop_last() =~= digits.take(i - start));
            assert(digits.take(i - start + 1).last() == c);
        }
        value = value * 10 + digit;
        if value > 0x8000_0000_0000_0000 {
            proof {
                if integer_value(chars@) is Some {
                    lemma_digits_grow(digits, i - start + 1);
                }
            }
            return None;
        }
        i += 1;
    }
    assert(digits.take(n - start) =~= digits);
    assert(all_digits(digits));
    if negative {
        if value == 0x8000_0000_0000_0000 {
            Some(i64::MIN)
        } else {
            Some(-(value as i64))
        }
    } else if value == 0x8000_0000_0000_0000 {
        None
    } else {
        Some(value as i64)
    }
}

} // verus!
