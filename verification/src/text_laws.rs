//! What reading texts gives: names, words, lists and numbers.

use vstd::prelude::*;

use crate::plan_actions::{behind, securable};
use crate::table::{dotted, TableReference};
use crate::text::{
    digits_value, first_from, first_word, integer_value, is_digit, lemma_run_length, occurs_at,
    run_length, split_at, trailing_space, trimmed, white_space,
};

verus! {

// ---------------------------------------------------------------------------
// Table names
// ---------------------------------------------------------------------------

/// **A table's text is its parts with dots between them.** Every part that a name is
/// qualified by stands in it, the catalog first and the table last.
pub proof fn law_table_names_are_dotted(table: TableReference)
    ensures
        match table {
            TableReference::Bare { table: t } => dotted(table@) == t@,
            TableReference::Partial { schema, table: t } => dotted(table@) == schema@ + seq!['.']
                + t@,
            TableReference::Full { catalog, schema, table: t } => dotted(table@) == catalog@
                + seq!['.'] + schema@ + seq!['.'] + t@,
        },
{
    reveal_with_fuel(dotted, 4);
    match table {
        TableReference::Bare { table: t } => {},
        TableReference::Partial { schema, table: t } => {
            assert(table@.drop_last() =~= seq![schema@]);
        },
        TableReference::Full { catalog, schema, table: t } => {
            assert(table@.drop_last() =~= seq![catalog@, schema@]);
            assert(table@.drop_last().drop_last() =~= seq![catalog@]);
        },
    }
}

/// **A name is told apart by its parts.** Two names of the same parts have the same
/// text, and a further part always shows.
pub proof fn law_a_further_part_shows(parts: Seq<Seq<char>>, part: Seq<char>)
    requires
        parts.len() > 0,
    ensures
        dotted(parts.push(part)) == dotted(parts) + seq!['.'] + part,
{
    assert(parts.push(part).drop_last() =~= parts);
}

// ---------------------------------------------------------------------------
// Words
// ---------------------------------------------------------------------------

/// Whether a text is nothing but white space.
pub open spec fn blank(s: Seq<char>) -> bool {
    forall|i: int| 0 <= i < s.len() ==> white_space(#[trigger] s[i])
}

/// Whether a text has no white space in it.
pub open spec fn solid(s: Seq<char>) -> bool {
    forall|i: int| 0 <= i < s.len() ==> !white_space(#[trigger] s[i])
}

proof fn lemma_run(s: Seq<char>, i: int, space: bool)
    requires
        0 <= i <= s.len(),
    ensures
        0 <= run_length(s, i, space) <= s.len() - i,
        forall|k: int| i <= k < i + run_length(s, i, space) ==> white_space(#[trigger] s[k]) == space,
        i + run_length(s, i, space) < s.len() ==> white_space(s[i + run_length(s, i, space)])
            != space,
    decreases s.len() - i,
{
    lemma_run_length(s, i, space);
    if i < s.len() && white_space(s[i]) == space {
        lemma_run(s, i + 1, space);
    }
}

proof fn lemma_trailing(s: Seq<char>, n: int)
    requires
        0 <= n <= s.len(),
    ensures
        0 <= trailing_space(s, n) <= n,
        forall|k: int| n - trailing_space(s, n) <= k < n ==> white_space(#[trigger] s[k]),
        trailing_space(s, n) < n ==> !white_space(s[n - trailing_space(s, n) - 1]),
    decreases n,
{
    if n > 0 && white_space(s[n - 1]) {
        lemma_trailing(s, n - 1);
    }
}

/// **Trimming takes white space off both ends, and nothing else.** What it leaves
/// stands in the text between two blank pieces, and has no white space at either end.
pub proof fn law_trimming_takes_white_space_only(s: Seq<char>)
    ensures
        exists|front: Seq<char>, back: Seq<char>|
            #![trigger front + trimmed(s) + back]
            s == front + trimmed(s) + back && blank(front) && blank(back),
        trimmed(s).len() > 0 ==> !white_space(trimmed(s)[0]) && !white_space(trimmed(s).last()),
{
    let start = run_length(s, 0, true);
    lemma_run(s, 0, true);
    lemma_trailing(s, s.len() as int);
    if start == s.len() {
        assert(s =~= s + trimmed(s) + Seq::<char>::empty());
        assert(blank(s) && blank(Seq::<char>::empty()));
    } else {
        let tail = trailing_space(s, s.len() as int);
        let end = s.len() - tail;
        assert(end > start) by {
            if end <= start {
                assert(white_space(s[start]));
            }
        }
        let front = s.subrange(0, start);
        let back = s.subrange(end, s.len() as int);
        assert(s =~= front + trimmed(s) + back);
        assert(blank(front));
        assert(blank(back)) by {
            assert forall|i: int| 0 <= i < back.len() implies white_space(#[trigger] back[i]) by {
                assert(back[i] == s[end + i]);
            }
        }
        assert(trimmed(s)[0] == s[start]);
        assert(trimmed(s).last() == s[end - 1]);
    }
}

/// **The first word is the first run without white space.** Before it there is white
/// space only, in it there is none, and it goes on to white space or to the end; it is
/// empty only where the whole text is blank.
pub proof fn law_the_first_word_comes_first(s: Seq<char>)
    ensures
        exists|front: Seq<char>, back: Seq<char>|
            #![trigger front + first_word(s) + back]
            {
                &&& s == front + first_word(s) + back
                &&& blank(front)
                &&& back.len() > 0 ==> white_space(back[0])
            },
        solid(first_word(s)),
        first_word(s).len() == 0 ==> blank(s),
{
    let start = run_length(s, 0, true);
    lemma_run(s, 0, true);
    let length = run_length(s, start, false);
    lemma_run(s, start, false);
    let front = s.subrange(0, start);
    let back = s.subrange(start + length, s.len() as int);
    assert(s =~= front + first_word(s) + back);
    assert(blank(front));
    assert forall|i: int| 0 <= i < first_word(s).len() implies !white_space(
        #[trigger] first_word(s)[i],
    ) by {
        assert(first_word(s)[i] == s[start + i]);
    }
    if back.len() > 0 {
        assert(back[0] == s[start + length]);
    }
    if first_word(s).len() == 0 {
        assert(start == s.len()) by {
            if start < s.len() {
                assert(white_space(s[start + 0]) != true);
            }
        }
    }
}

// ---------------------------------------------------------------------------
// Lists
// ---------------------------------------------------------------------------

/// Parts joined by a mark.
pub open spec fn joined(parts: Seq<Seq<char>>, mark: char) -> Seq<char>
    decreases parts.len(),
{
    if parts.len() == 0 {
        Seq::empty()
    } else if parts.len() == 1 {
        parts[0]
    } else {
        joined(parts.drop_last(), mark) + seq![mark] + parts.last()
    }
}

/// **Splitting loses nothing.** The parts joined by the mark are the text again, and no
/// part holds the mark.
pub proof fn law_splitting_loses_nothing(s: Seq<char>, mark: char)
    ensures
        joined(split_at(s, mark), mark) == s,
        split_at(s, mark).len() > 0,
        forall|i: int|
            0 <= i < split_at(s, mark).len() ==> !(#[trigger] split_at(s, mark)[i]).contains(mark),
    decreases s.len(),
{
    let parts = split_at(s, mark);
    if s.len() == 0 {
        assert(parts[0] =~= s);
    } else {
        let before = split_at(s.drop_last(), mark);
        law_splitting_loses_nothing(s.drop_last(), mark);
        assert(s =~= s.drop_last().push(s.last()));
        if s.last() == mark {
            assert(parts.drop_last() =~= before);
            assert(joined(parts, mark) =~= s);
            assert forall|i: int| 0 <= i < parts.len() implies !(#[trigger] parts[i]).contains(
                mark,
            ) by {
                if i < before.len() {
                    assert(parts[i] == before[i]);
                }
            }
        } else {
            let grown = before.last().push(s.last());
            assert(parts.last() == grown);
            assert(parts.drop_last() =~= before.drop_last());
            if parts.len() == 1 {
                assert(before[0] == before.last());
                assert(joined(parts, mark) =~= s);
            } else {
                assert(joined(parts, mark) =~= s);
            }
            assert forall|i: int| 0 <= i < parts.len() implies !(#[trigger] parts[i]).contains(
                mark,
            ) by {
                if i < parts.len() - 1 {
                    assert(parts[i] == before[i]);
                } else {
                    assert(parts[i] == grown);
                    if grown.contains(mark) {
                        let k = grown.index_of(mark);
                        assert(before.last()[k] == mark);
                        assert(before[before.len() - 1].contains(mark));
                    }
                }
            }
        }
    }
}

// ---------------------------------------------------------------------------
// Numbers
// ---------------------------------------------------------------------------

/// **Digits are read from the left, in tens.**
pub proof fn law_digits_count_in_tens(s: Seq<char>, c: char)
    ensures
        digits_value(Seq::empty()) == 0,
        digits_value(s.push(c)) == 10 * digits_value(s) + (c as int - 48),
        is_digit(c) <==> 48 <= c as int <= 57,
{
    assert(s.push(c).drop_last() =~= s);
}

/// **An integer is digits, with a sign or without.** A list of decimal digits is its
/// number, behind a plus sign too, and behind a minus sign it is the number's opposite;
/// where that does not fit in 64 bits there is no integer.
pub proof fn law_integers_are_signed_digits(digits: Seq<char>)
    requires
        digits.len() > 0,
        forall|i: int| 0 <= i < digits.len() ==> 48 <= #[trigger] digits[i] as int <= 57,
    ensures
        ({
            let n = digits_value(digits);
            let small = n <= 0x7fff_ffff_ffff_ffff;
            &&& n >= 0
            &&& integer_value(digits) == if small {
                Some(n)
            } else {
                None
            }
            &&& integer_value(seq!['+'] + digits) == integer_value(digits)
            &&& integer_value(seq!['-'] + digits) == if n <= 0x8000_0000_0000_0000 {
                Some(-n)
            } else {
                None
            }
        }),
{
    lemma_not_negative(digits);
    assert(digits[0] != '-' && digits[0] != '+');
    assert(forall|i: int| 0 <= i < digits.len() ==> is_digit(#[trigger] digits[i]));
    assert((seq!['+'] + digits).skip(1) =~= digits);
    assert((seq!['-'] + digits).skip(1) =~= digits);
}

proof fn lemma_not_negative(digits: Seq<char>)
    requires
        forall|i: int| 0 <= i < digits.len() ==> 48 <= #[trigger] digits[i] as int <= 57,
    ensures
        digits_value(digits) >= 0,
    decreases digits.len(),
{
    if digits.len() > 0 {
        lemma_not_negative(digits.drop_last());
        assert(48 <= digits[digits.len() - 1] as int);
    }
}

/// **Nothing else is an integer.** A text with no digit, or with anything but digits
/// behind its sign, is none.
pub proof fn law_nothing_else_is_an_integer(s: Seq<char>, i: int)
    requires
        s.len() == 0 || s == seq!['-'] || s == seq!['+'] || (0 <= i < s.len() && !(48
            <= s[i] as int <= 57) && !(i == 0 && (s[0] == '-' || s[0] == '+'))),
    ensures
        integer_value(s) is None,
{
    if s.len() > 0 && s != seq!['-'] && s != seq!['+'] {
        assert(!is_digit(s[i]));
        if s[0] == '-' || s[0] == '+' {
            assert(s.skip(1)[i - 1] == s[i]);
        }
    } else if s.len() > 0 {
        assert(s.skip(1).len() == 0);
    }
}

// ---------------------------------------------------------------------------
// Securables
// ---------------------------------------------------------------------------

/// **A pattern occurs where its characters stand in a row.**
pub proof fn law_patterns_occur_character_by_character(s: Seq<char>, pattern: Seq<char>, k: int)
    ensures
        occurs_at(s, pattern, k) <==> 0 <= k && k + pattern.len() <= s.len() && forall|i: int|
            0 <= i < pattern.len() ==> s[k + i] == #[trigger] pattern[i],
{
    if 0 <= k && k + pattern.len() <= s.len() {
        let piece = s.subrange(k, k + pattern.len());
        assert forall|i: int| 0 <= i < pattern.len() implies piece[i] == s[k + i] by {}
        if forall|i: int| 0 <= i < pattern.len() ==> s[k + i] == #[trigger] pattern[i] {
            assert(piece =~= pattern);
        }
        if piece == pattern {
            assert forall|i: int| 0 <= i < pattern.len() implies s[k + i]
                == #[trigger] pattern[i] by {
                assert(piece[i] == s[k + i]);
            }
        }
    }
}

/// **A securable is the word behind `name=`.** Whatever stands before the key and
/// behind the word.
pub proof fn law_a_securable_is_the_word_behind_the_key(
    front: Seq<char>,
    name: Seq<char>,
    back: Seq<char>,
)
    requires
        ({
            let whole = front + "name="@ + name + back;
            &&& forall|k: int|
                #![trigger occurs_at(whole, "name="@, k)]
                occurs_at(whole, "name="@, k) ==> k == front.len()
        }),
        name.len() > 0,
        solid(name),
        back.len() > 0 ==> white_space(back[0]),
    ensures
        securable(front + "name="@ + name + back) == name,
{
    reveal_strlit("name=");
    let key = "name="@;
    let whole = front + key + name + back;
    let at = front.len() as int;
    assert(whole.subrange(at, at + key.len()) =~= key);
    assert(occurs_at(whole, key, at));
    assert forall|j: int| 0 <= j < at implies !#[trigger] occurs_at(whole, key, j) by {}
    assert(first_from(whole, key, 0, at));
    let chosen = choose|k: int| first_from(whole, key, 0, k);
    assert(first_from(whole, key, 0, chosen));
    assert(chosen == at);
    let start = at + key.len();
    assert forall|j: int| !first_from(whole, key, start, j) by {
        if first_from(whole, key, start, j) {
            assert(occurs_at(whole, key, j));
        }
    }
    let rest = whole.skip(start);
    assert(rest =~= name + back);
    assert(behind(whole, key) == Some(rest));
    law_the_first_word_comes_first(rest);
    let (f, b) = choose|f: Seq<char>, b: Seq<char>|
        #![trigger f + first_word(rest) + b]
        {
            &&& rest == f + first_word(rest) + b
            &&& blank(f)
            &&& b.len() > 0 ==> white_space(b[0])
        };
    let word = first_word(rest);
    assert(f.len() == 0) by {
        if f.len() > 0 {
            assert(rest[0] == f[0]);
            assert(rest[0] == name[0]);
            assert(white_space(f[0]));
        }
    }
    if word.len() == 0 {
        assert(white_space(rest[0]));
        assert(rest[0] == name[0]);
    }
    if word.len() < name.len() {
        assert(b.len() > 0);
        assert(rest[word.len() as int] == b[0]);
        assert(rest[word.len() as int] == name[word.len() as int]);
    }
    if word.len() > name.len() {
        assert(back.len() > 0);
        assert(rest[name.len() as int] == back[0]);
        assert(rest[name.len() as int] == word[name.len() as int]);
    }
    assert(word =~= name) by {
        assert forall|i: int| 0 <= i < word.len() implies word[i] == name[i] by {
            assert(rest[i] == word[i]);
            assert(rest[i] == name[i]);
        }
    }
}

/// **Without the key there is no securable.**
pub proof fn law_no_key_no_securable(explained: Seq<char>)
    requires
        forall|k: int| !#[trigger] occurs_at(explained, "name="@, k),
    ensures
        securable(explained) == Seq::<char>::empty(),
{
    assert forall|k: int| !first_from(explained, "name="@, 0, k) by {
        if first_from(explained, "name="@, 0, k) {
            assert(occurs_at(explained, "name="@, k));
        }
    }
}

/// **The first `name=` counts, up to the second.** The securable is the first word
/// between the two, or behind the first where there is no second.
pub proof fn law_the_first_key_counts(explained: Seq<char>, k: int, j: int)
    requires
        occurs_at(explained, "name="@, k),
        forall|i: int| 0 <= i < k ==> !#[trigger] occurs_at(explained, "name="@, i),
    ensures
        (forall|i: int| k + 5 <= i ==> !#[trigger] occurs_at(explained, "name="@, i)) ==> securable(
            explained,
        ) == first_word(explained.skip(k + 5)),
        k + 5 <= j && occurs_at(explained, "name="@, j) && (forall|i: int|
            k + 5 <= i < j ==> !#[trigger] occurs_at(explained, "name="@, i)) ==> securable(
            explained,
        ) == first_word(explained.subrange(k + 5, j)),
{
    reveal_strlit("name=");
    let key = "name="@;
    assert(key.len() == 5);
    assert(first_from(explained, key, 0, k));
    let first = choose|i: int| first_from(explained, key, 0, i);
    assert(first_from(explained, key, 0, first));
    assert(first == k) by {
        if first < k {
            assert(occurs_at(explained, key, first));
        }
        if k < first {
            assert(!occurs_at(explained, key, k));
        }
    }
    let start = k + 5;
    if k + 5 <= j && occurs_at(explained, key, j) && (forall|i: int|
        start <= i < j ==> !#[trigger] occurs_at(explained, key, i)) {
        assert(first_from(explained, key, start, j));
        let second = choose|i: int| first_from(explained, key, start, i);
        assert(first_from(explained, key, start, second));
        assert(second == j) by {
            if second < j {
                assert(occurs_at(explained, key, second));
            }
            if j < second {
                assert(!occurs_at(explained, key, j));
            }
        }
    }
    if forall|i: int| start <= i ==> !#[trigger] occurs_at(explained, key, i) {
        assert forall|i: int| !first_from(explained, key, start, i) by {
            if first_from(explained, key, start, i) {
                assert(occurs_at(explained, key, i));
            }
        }
    }
}

/// **White space is what Unicode says it is.** The control characters from tab to
/// carriage return, the next-line character, and the spaces and separators; and nothing
/// between them.
pub proof fn law_white_space_is_as_in_unicode(c: char)
    ensures
        white_space(c) <==> c == '\u{9}' || c == '\u{a}' || c == '\u{b}' || c == '\u{c}' || c
            == '\u{d}' || c == ' ' || c == '\u{85}' || c == '\u{a0}' || c == '\u{1680}' || c
            == '\u{2000}' || c == '\u{2001}' || c == '\u{2002}' || c == '\u{2003}' || c
            == '\u{2004}' || c == '\u{2005}' || c == '\u{2006}' || c == '\u{2007}' || c
            == '\u{2008}' || c == '\u{2009}' || c == '\u{200a}' || c == '\u{2028}' || c
            == '\u{2029}' || c == '\u{202f}' || c == '\u{205f}' || c == '\u{3000}',
{
}

} // verus!
