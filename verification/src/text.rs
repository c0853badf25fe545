//! Searching, trimming and printing text.
//!
//! A string is modelled by the sequence of its characters. Each executable
//! function of this module is exact against a specification function on such
//! sequences.
use vstd::prelude::*;

verus! {

// ---------------------------------------------------------------------------
// Conversions
// ---------------------------------------------------------------------------
/// `<String as From<&str>>::from`, by which `Into<String>` converts a string
/// slice, keeps the characters of its argument.
pub assume_specification<'a>[ <String as From<&'a str>>::from ](slice: &str) -> (string: String)
    ensures
        string@ == slice@,
;

/// `<Whole as From<Whole>>::from`, by which `Into<String>` converts a `String`,
/// returns its argument unchanged.
pub assume_specification<Whole>[ <Whole as From<Whole>>::from ](whole: Whole) -> (same: Whole)
    ensures
        same == whole,
;

// ---------------------------------------------------------------------------
// Occurrences
// ---------------------------------------------------------------------------
/// `pattern` stands in `text` at position `i`.
pub open spec fn occurs_at(text: Seq<char>, pattern: Seq<char>, i: int) -> bool {
    &&& 0 <= i
    &&& i + pattern.len() <= text.len()
    &&& text.subrange(i, i + pattern.len()) == pattern
}

/// `pattern` stands somewhere in `text`.
pub open spec fn occurs_in(text: Seq<char>, pattern: Seq<char>) -> bool {
    exists|i: int| occurs_at(text, pattern, i)
}

/// `text` begins with `prefix`.
pub open spec fn begins_with(text: Seq<char>, prefix: Seq<char>) -> bool {
    occurs_at(text, prefix, 0)
}

/// The least position from `from` on at which `pattern` stands in `text`.
pub open spec fn first_occurrence(text: Seq<char>, pattern: Seq<char>, from: nat) -> Option<nat>
    decreases text.len() + 1 - from,
{
    if from + pattern.len() > text.len() {
        None
    } else if occurs_at(text, pattern, from as int) {
        Some(from)
    } else {
        first_occurrence(text, pattern, from + 1)
    }
}

/// [`first_occurrence`] is the least occurrence from `from` on, and is `None`
/// only where there is none.
pub proof fn lemma_first_occurrence(text: Seq<char>, pattern: Seq<char>, from: nat)
    ensures
        match first_occurrence(text, pattern, from) {
            Some(i) => {
                &&& from <= i
                &&& occurs_at(text, pattern, i as int)
                &&& forall|j: int| from <= j < i ==> !occurs_at(text, pattern, j)
            },
            None => forall|j: int| from <= j ==> !occurs_at(text, pattern, j),
        },
    decreases text.len() + 1 - from,
{
    if from + pattern.len() <= text.len() && !occurs_at(text, pattern, from as int) {
        lemma_first_occurrence(text, pattern, from + 1);
    }
}

/// The first occurrence is where the pattern stands, character for character, with no
/// place before it from `from` on where it does; there is none only where the pattern
/// stands nowhere from `from` on.
pub proof fn law_first_occurrence(text: Seq<char>, pattern: Seq<char>, from: nat)
    ensures
        match first_occurrence(text, pattern, from) {
            Some(i) => {
                &&& from <= i
                &&& i + pattern.len() <= text.len()
                &&& text.subrange(i as int, i + pattern.len() as int) == pattern
                &&& forall|j: int|
                    from <= j < i && j + pattern.len() <= text.len() ==> #[trigger] text.subrange(
                        j,
                        j + pattern.len(),
                    ) != pattern
            },
            None => forall|j: int|
                from <= j && j + pattern.len() <= text.len() ==> #[trigger] text.subrange(
                    j,
                    j + pattern.len(),
                ) != pattern,
        },
{
    lemma_first_occurrence(text, pattern, from);
    match first_occurrence(text, pattern, from) {
        Some(i) => {
            assert forall|j: int|
                from <= j < i && j + pattern.len() <= text.len() implies #[trigger] text.subrange(
                j,
                j + pattern.len(),
            ) != pattern by {
                assert(!occurs_at(text, pattern, j));
            }
        },
        None => {
            assert forall|j: int|
                from <= j && j + pattern.len() <= text.len() implies #[trigger] text.subrange(
                j,
                j + pattern.len(),
            ) != pattern by {
                assert(!occurs_at(text, pattern, j));
            }
        },
    }
}

/// A pattern stands at a position if and only if each of its characters does, each at
/// its place.
pub proof fn law_occurs_at(text: Seq<char>, pattern: Seq<char>, i: int)
    ensures
        occurs_at(text, pattern, i) <==> {
            &&& 0 <= i
            &&& i + pattern.len() <= text.len()
            &&& forall|k: int| 0 <= k < pattern.len() ==> text[i + k] == #[trigger] pattern[k]
        },
{
    if 0 <= i && i + pattern.len() <= text.len() {
        let part = text.subrange(i, i + pattern.len());
        if part == pattern {
            assert forall|k: int| 0 <= k < pattern.len() implies text[i + k]
                == #[trigger] pattern[k] by {
                assert(part[k] == text[i + k]);
            }
        }
        if forall|k: int| 0 <= k < pattern.len() ==> text[i + k] == #[trigger] pattern[k] {
            assert(part =~= pattern);
        }
    }
}

/// A pattern stands in a text if and only if the text is something, then the pattern,
/// then something.
pub proof fn law_occurs_in(text: Seq<char>, pattern: Seq<char>)
    ensures
        occurs_in(text, pattern) <==> exists|before: Seq<char>, after: Seq<char>|
            text == #[trigger] (before + pattern + after),
{
    if occurs_in(text, pattern) {
        let i = choose|i: int| occurs_at(text, pattern, i);
        let before = text.take(i);
        let after = text.skip(i + pattern.len());
        assert(text =~= before + pattern + after);
    }
    if exists|before: Seq<char>, after: Seq<char>| text == #[trigger] (before + pattern + after) {
        let (before, after) = choose|before: Seq<char>, after: Seq<char>|
            text == #[trigger] (before + pattern + after);
        let i = before.len() as int;
        assert(text.subrange(i, i + pattern.len()) =~= pattern);
        assert(occurs_at(text, pattern, i));
    }
}

/// A text begins with a prefix if and only if it is the prefix followed by something.
pub proof fn law_begins_with(text: Seq<char>, prefix: Seq<char>)
    ensures
        begins_with(text, prefix) <==> exists|rest: Seq<char>| text == #[trigger] (prefix + rest),
{
    if begins_with(text, prefix) {
        assert(text =~= prefix + text.skip(prefix.len() as int));
    }
    if exists|rest: Seq<char>| text == #[trigger] (prefix + rest) {
        assert(text.subrange(0, prefix.len() as int) =~= prefix);
    }
}

/// A position at which `pattern` stands, with none before it from `from` on, is
/// the first occurrence.
pub proof fn lemma_is_first_occurrence(text: Seq<char>, pattern: Seq<char>, from: nat, i: nat)
    requires
        from <= i,
        occurs_at(text, pattern, i as int),
        forall|j: int| from <= j < i ==> !occurs_at(text, pattern, j),
    ensures
        first_occurrence(text, pattern, from) == Some(i),
{
    lemma_first_occurrence(text, pattern, from);
}

/// Where `pattern` does not occur from `from` on there is no first occurrence.
pub proof fn lemma_no_occurrence(text: Seq<char>, pattern: Seq<char>, from: nat)
    requires
        forall|j: int| from <= j ==> !occurs_at(text, pattern, j),
    ensures
        first_occurrence(text, pattern, from) is None,
{
    lemma_first_occurrence(text, pattern, from);
}

/// Searching what is left of `text` after its first `skipped` characters is
/// searching `text` from there on.
pub proof fn lemma_first_occurrence_in_rest(
    text: Seq<char>,
    pattern: Seq<char>,
    skipped: nat,
    from: nat,
)
    requires
        skipped <= text.len(),
    ensures
        first_occurrence(text, pattern, skipped + from) == (match first_occurrence(
            text.skip(skipped as int),
            pattern,
            from,
        ) {
            Some(i) => Some(skipped + i),
            None => None,
        }),
    decreases text.len() + 1 - from,
{
    let rest = text.skip(skipped as int);
    if from + pattern.len() <= rest.len() {
        let i = from as int;
        assert(text.subrange(skipped + i, skipped + i + pattern.len()) =~= rest.subrange(
            i,
            i + pattern.len(),
        ));
        lemma_first_occurrence_in_rest(text, pattern, skipped, from + 1);
    }
}

/// What is first found in `prefix` is first found in every text that begins with
/// it.
pub proof fn lemma_first_occurrence_in_prefix(
    prefix: Seq<char>,
    rest: Seq<char>,
    pattern: Seq<char>,
    from: nat,
)
    ensures
        first_occurrence(prefix, pattern, from) is Some ==> first_occurrence(
            prefix + rest,
            pattern,
            from,
        ) == first_occurrence(prefix, pattern, from),
    decreases prefix.len() + 1 - from,
{
    if from + pattern.len() <= prefix.len() {
        let i = from as int;
        assert((prefix + rest).subrange(i, i + pattern.len()) =~= prefix.subrange(
            i,
            i + pattern.len(),
        ));
        lemma_first_occurrence_in_prefix(prefix, rest, pattern, from + 1);
    }
}

/// The characters of `text`, in order.
pub fn chars_of(text: &str) -> (chars: Vec<char>)
    ensures
        chars@ == text@,
{
    let mut chars: Vec<char> = Vec::new();
    for c in it: text.chars()
        invariant
            it.seq() == text@,
            chars@ == text@.take(it.index()),
    {
        chars.push(c);
    }
    chars
}

/// Whether `pattern` stands in `text` at position `i`.
fn matches_at(text: &Vec<char>, pattern: &Vec<char>, i: usize) -> (found: bool)
    requires
        i + pattern@.len() <= text@.len(),
    ensures
        found == occurs_at(text@, pattern@, i as int),
{
    let mut k: usize = 0;
    while k < pattern.len()
        invariant
            k <= pattern@.len(),
            i + pattern@.len() <= text.len(),
            forall|j: int| 0 <= j < k ==> text@[i + j] == pattern@[j],
        decreases pattern@.len() - k,
    {
        if text[i + k] != pattern[k] {
            assert(text@.subrange(i as int, i + pattern@.len())[k as int] != pattern@[k as int]);
            return false;
        }
        k = k + 1;
    }
    assert(text@.subrange(i as int, i + pattern@.len()) =~= pattern@);
    true
}

/// The least position from `from` on at which `pattern` stands in `text`.
pub fn find_from(text: &Vec<char>, pattern: &Vec<char>, from: usize) -> (position: Option<usize>)
    requires
        from <= text@.len(),
    ensures
        match position {
            Some(i) => first_occurrence(text@, pattern@, from as nat) == Some(i as nat),
            None => first_occurrence(text@, pattern@, from as nat) is None,
        },
        match position {
            Some(i) => {
                &&& from <= i
                &&& i + pattern@.len() <= text@.len()
                &&& text@.subrange(i as int, i + pattern@.len()) == pattern@
                &&& forall|j: int|
                    from <= j < i && j + pattern@.len() <= text@.len() ==> #[trigger] text@.subrange(
                        j,
                        j + pattern@.len(),
                    ) != pattern@
            },
            None => forall|j: int|
                from <= j && j + pattern@.len() <= text@.len() ==> #[trigger] text@.subrange(
                    j,
                    j + pattern@.len(),
                ) != pattern@,
        },
{
    proof {
        law_first_occurrence(text@, pattern@, from as nat);
    }
    search_from(text, pattern, from)
}

/// The least position from `from` on at which `pattern` stands in `text`.
fn search_from(text: &Vec<char>, pattern: &Vec<char>, from: usize) -> (position: Option<usize>)
    requires
        from <= text@.len(),
    ensures
        match position {
            Some(i) => first_occurrence(text@, pattern@, from as nat) == Some(i as nat),
            None => first_occurrence(text@, pattern@, from as nat) is None,
        },
{
    let mut i: usize = from;
    while pattern.len() <= text.len() - i
        invariant
            from <= i <= text@.len(),
            first_occurrence(text@, pattern@, from as nat) == first_occurrence(
                text@,
                pattern@,
                i as nat,
            ),
        decreases text@.len() - i,
    {
        if matches_at(text, pattern, i) {
            return Some(i);
        }
        if i == text.len() {
            assert(first_occurrence(text@, pattern@, (i + 1) as nat) is None);
            return None;
        }
        i = i + 1;
    }
    None
}

/// Whether `text` begins with `prefix`.
pub fn starts_with(text: &str, prefix: &str) -> (yes: bool)
    ensures
        yes == begins_with(text@, prefix@),
        yes == (exists|rest: Seq<char>| text@ == #[trigger] (prefix@ + rest)),
{
    proof {
        law_begins_with(text@, prefix@);
    }
    let chars = chars_of(text);
    let pattern = chars_of(prefix);
    pattern.len() <= chars.len() && matches_at(&chars, &pattern, 0)
}

/// Whether `pattern` stands somewhere in `text`.
pub fn contains(text: &str, pattern: &str) -> (yes: bool)
    ensures
        yes == occurs_in(text@, pattern@),
        yes == (exists|before: Seq<char>, after: Seq<char>|
            text@ == #[trigger] (before + pattern@ + after)),
{
    proof {
        law_occurs_in(text@, pattern@);
    }
    let found = find_from(&chars_of(text), &chars_of(pattern), 0);
    proof {
        lemma_first_occurrence(text@, pattern@, 0);
    }
    found.is_some()
}

// ---------------------------------------------------------------------------
// White space
// ---------------------------------------------------------------------------
/// The characters with the Unicode property `White_Space`.
pub open spec fn white_space(c: char) -> bool {
    ||| '\u{9}' <= c <= '\u{d}'
    ||| c == '\u{20}'
    ||| c == '\u{85}'
    ||| c == '\u{a0}'
    ||| c == '\u{1680}'
    ||| '\u{2000}' <= c <= '\u{200a}'
    ||| '\u{2028}' <= c <= '\u{2029}'
    ||| c == '\u{202f}'
    ||| c == '\u{205f}'
    ||| c == '\u{3000}'
}

/// Whether `c` has the Unicode property `White_Space`.
pub fn is_white_space(c: char) -> (yes: bool)
    ensures
        yes == white_space(c),
{
    ('\u{9}' <= c && c <= '\u{d}') || c == '\u{20}' || c == '\u{85}' || c == '\u{a0}' || c
        == '\u{1680}' || ('\u{2000}' <= c && c <= '\u{200a}') || ('\u{2028}' <= c && c
        <= '\u{2029}') || c == '\u{202f}' || c == '\u{205f}' || c == '\u{3000}'
}

/// White space is the tabulator, the line breaks and the spaces of Unicode, one by one,
/// and no other character.
pub proof fn law_white_space(c: char)
    ensures
        white_space(c) <==> {
            ||| c == '\u{9}'
            ||| c == '\u{a}'
            ||| c == '\u{b}'
            ||| c == '\u{c}'
            ||| c == '\u{d}'
            ||| c == '\u{20}'
            ||| c == '\u{85}'
            ||| c == '\u{a0}'
            ||| c == '\u{1680}'
            ||| c == '\u{2000}'
            ||| c == '\u{2001}'
            ||| c == '\u{2002}'
            ||| c == '\u{2003}'
            ||| c == '\u{2004}'
            ||| c == '\u{2005}'
            ||| c == '\u{2006}'
            ||| c == '\u{2007}'
            ||| c == '\u{2008}'
            ||| c == '\u{2009}'
            ||| c == '\u{200a}'
            ||| c == '\u{2028}'
            ||| c == '\u{2029}'
            ||| c == '\u{202f}'
            ||| c == '\u{205f}'
            ||| c == '\u{3000}'
        },
{
}

/// `text` without its leading white space.
pub open spec fn trimmed_start(text: Seq<char>) -> Seq<char>
    decreases text.len(),
{
    if text.len() > 0 && white_space(text.first()) {
        trimmed_start(text.drop_first())
    } else {
        text
    }
}

/// `text` without its trailing white space.
pub open spec fn trimmed_end(text: Seq<char>) -> Seq<char>
    decreases text.len(),
{
    if text.len() > 0 && white_space(text.last()) {
        trimmed_end(text.drop_last())
    } else {
        text
    }
}

/// `text` without leading and trailing white space.
pub open spec fn trimmed(text: Seq<char>) -> Seq<char> {
    trimmed_end(trimmed_start(text))
}

/// All characters of `text` are white space.
pub open spec fn blank(text: Seq<char>) -> bool {
    forall|i: int| 0 <= i < text.len() ==> white_space(#[trigger] text[i])
}

/// `text` without leading and trailing white space.
pub fn trim(text: &str) -> (inner: &str)
    ensures
        inner@ == trimmed(text@),
{
    let chars = chars_of(text);
    let mut start: usize = 0;
    assert(text@.skip(0) =~= text@);
    while start < chars.len() && is_white_space(chars[start])
        invariant
            start <= chars@.len(),
            chars@ == text@,
            trimmed_start(text@) == trimmed_start(text@.skip(start as int)),
        decreases chars@.len() - start,
    {
        assert(text@.skip(start as int).drop_first() =~= text@.skip(start + 1));
        start = start + 1;
    }
    let mut end: usize = chars.len();
    assert(text@.skip(start as int) =~= text@.subrange(start as int, end as int));
    while start < end && is_white_space(chars[end - 1])
        invariant
            start <= end <= chars@.len(),
            chars@ == text@,
            trimmed(text@) == trimmed_end(text@.subrange(start as int, end as int)),
        decreases end - start,
    {
        assert(text@.subrange(start as int, end as int).drop_last() =~= text@.subrange(
            start as int,
            end - 1,
        ));
        end = end - 1;
    }
    text.substring_char(start, end)
}

/// [`trimmed_start`] drops a blank prefix, up to the first character that is not
/// white space.
proof fn lemma_trimmed_start(text: Seq<char>) -> (k: int)
    ensures
        0 <= k <= text.len(),
        blank(text.take(k)),
        trimmed_start(text) == text.skip(k),
        k < text.len() ==> !white_space(text[k]),
    decreases text.len(),
{
    if text.len() > 0 && white_space(text.first()) {
        let k = lemma_trimmed_start(text.drop_first()) + 1;
        assert(text.drop_first().skip(k - 1) =~= text.skip(k));
        assert forall|i: int| 0 <= i < k implies white_space(#[trigger] text.take(k)[i]) by {
            if i > 0 {
                assert(text.drop_first().take(k - 1)[i - 1] == text[i]);
            }
        }
        if k < text.len() {
            assert(text.drop_first()[k - 1] == text[k]);
        }
        k
    } else {
        assert(text.skip(0) =~= text);
        0
    }
}

/// [`trimmed_end`] drops a blank suffix, down to the last character that is not
/// white space.
proof fn lemma_trimmed_end(text: Seq<char>) -> (k: int)
    ensures
        0 <= k <= text.len(),
        blank(text.skip(k)),
        trimmed_end(text) == text.take(k),
        k > 0 ==> !white_space(text[k - 1]),
    decreases text.len(),
{
    if text.len() > 0 && white_space(text.last()) {
        let k = lemma_trimmed_end(text.drop_last());
        assert(text.drop_last().take(k) =~= text.take(k));
        assert forall|i: int| 0 <= i < text.len() - k implies white_space(
            #[trigger] text.skip(k)[i],
        ) by {
            if k + i < text.len() - 1 {
                assert(text.drop_last().skip(k)[i] == text[k + i]);
            }
        }
        k
    } else {
        assert(text.take(text.len() as int) =~= text);
        text.len() as int
    }
}

/// What is left after trimming is the part of the text between its first and its
/// last character that is not white space; it is empty if and only if the text
/// is blank.
pub proof fn law_trimmed(text: Seq<char>)
    ensures
        exists|a: int, b: int|
            {
                &&& 0 <= a <= b <= text.len()
                &&& blank(text.take(a))
                &&& blank(text.skip(b))
                &&& trimmed(text) == #[trigger] text.subrange(a, b)
                &&& a < b ==> !white_space(text[a]) && !white_space(text[b - 1])
            },
        trimmed(text).len() == 0 <==> blank(text),
        trimmed(text).len() == 0 <==> forall|i: int|
            0 <= i < text.len() ==> white_space(#[trigger] text[i]),
{
    let a = lemma_trimmed_start(text);
    let inner = text.skip(a);
    let n = lemma_trimmed_end(inner);
    let b = a + n;
    assert(inner.take(n) =~= text.subrange(a, b));
    assert(inner.skip(n) =~= text.skip(b));
    if n == 0 {
        assert forall|i: int| 0 <= i < text.len() implies white_space(#[trigger] text[i]) by {
            if i < a {
                assert(text.take(a)[i] == text[i]);
            } else {
                assert(text.skip(b)[i - b] == text[i]);
            }
        }
    } else {
        assert(inner[n - 1] == text[b - 1]);
    }
}

/// What stands between white space, and neither begins nor ends with it, is what
/// trimming leaves, and trimming leaves nothing else.
pub proof fn law_trimmed_is_what_white_space_surrounds(text: Seq<char>, inner: Seq<char>)
    requires
        inner.len() > 0,
        !white_space(inner.first()),
        !white_space(inner.last()),
    ensures
        trimmed(text) == inner <==> exists|before: Seq<char>, after: Seq<char>|
            {
                &&& text == #[trigger] (before + inner + after)
                &&& forall|i: int| 0 <= i < before.len() ==> white_space(before[i])
                &&& forall|i: int| 0 <= i < after.len() ==> white_space(after[i])
            },
{
    law_trimmed(text);
    let (a, b) = choose|a: int, b: int|
        {
            &&& 0 <= a <= b <= text.len()
            &&& blank(text.take(a))
            &&& blank(text.skip(b))
            &&& trimmed(text) == #[trigger] text.subrange(a, b)
            &&& a < b ==> !white_space(text[a]) && !white_space(text[b - 1])
        };
    if trimmed(text) == inner {
        let before = text.take(a);
        let after = text.skip(b);
        assert(text =~= before + inner + after);
        assert forall|i: int| 0 <= i < before.len() implies white_space(before[i]) by {}
        assert forall|i: int| 0 <= i < after.len() implies white_space(after[i]) by {}
    }
    if exists|before: Seq<char>, after: Seq<char>|
        {
            &&& text == #[trigger] (before + inner + after)
            &&& forall|i: int| 0 <= i < before.len() ==> white_space(before[i])
            &&& forall|i: int| 0 <= i < after.len() ==> white_space(after[i])
        } {
        let (before, after) = choose|before: Seq<char>, after: Seq<char>|
            {
                &&& text == #[trigger] (before + inner + after)
                &&& forall|i: int| 0 <= i < before.len() ==> white_space(before[i])
                &&& forall|i: int| 0 <= i < after.len() ==> white_space(after[i])
            };
        let m = before.len() as int;
        let n = m + inner.len();
        assert(text[m] == inner.first());
        assert(text[n - 1] == inner.last());
        assert(a <= m) by {
            if a > m {
                assert(text.take(a)[m] == text[m]);
            }
        }
        assert(b >= n) by {
            if b < n {
                assert(text.skip(b)[n - 1 - b] == text[n - 1]);
            }
        }
        assert(a >= m) by {
            if a < m {
                assert(text[a] == before[a]);
            }
        }
        assert(b <= n) by {
            if b > n {
                assert(text[b - 1] == after[b - 1 - n]);
            }
        }
        assert(text.subrange(m, n) =~= inner);
    }
}

/// Trimming twice is trimming once.
pub proof fn law_trimmed_is_idempotent(text: Seq<char>)
    ensures
        trimmed(trimmed(text)) == trimmed(text),
{
    law_trimmed(text);
}

// ---------------------------------------------------------------------------
// Decimal numbers
// ---------------------------------------------------------------------------
/// The decimal digits, each at the position of its value.
pub open spec fn digit_chars() -> Seq<char> {
    "0123456789"@
}

/// The decimal notation of `n`, without leading zeros.
pub open spec fn decimal(n: nat) -> Seq<char>
    decreases n,
{
    if n < 10 {
        seq![digit_chars()[n as int]]
    } else {
        decimal(n / 10).push(digit_chars()[(n % 10) as int])
    }
}

/// The decimal notation of `n`, without leading zeros.
pub fn decimal_text(n: usize) -> (text: String)
    ensures
        text@ == decimal(n as nat),
    decreases n,
{
    proof {
        reveal_strlit("0123456789");
    }
    if n < 10 {
        let text = "0123456789".substring_char(n, n + 1).to_string();
        assert(text@ =~= decimal(n as nat));
        text
    } else {
        let mut text = decimal_text(n / 10);
        let d: usize = n % 10;
        text.append("0123456789".substring_char(d, d + 1));
        assert(text@ =~= decimal(n as nat));
        text
    }
}

/// The number that a sequence of decimal digits stands for.
pub open spec fn decimal_value(digits: Seq<char>) -> nat
    decreases digits.len(),
{
    if digits.len() == 0 {
        0
    } else {
        decimal_value(digits.drop_last()) * 10 + digit_chars().index_of(digits.last()) as nat
    }
}

/// The decimal notation of a number stands for that number, so that different
/// numbers have different notations.
pub proof fn law_decimal_is_exact(n: nat)
    ensures
        decimal_value(decimal(n)) == n,
    decreases n,
{
    reveal_strlit("0123456789");
    let d = (n % 10) as int;
    let c = digit_chars()[d];
    assert(digit_chars().index_of(c) == d) by {
        let i = digit_chars().index_of(c);
        assert(digit_chars()[i] == c);
    }
    if n < 10 {
        assert(decimal(n).drop_last() =~= Seq::empty());
        reveal_with_fuel(decimal_value, 2);
    } else {
        law_decimal_is_exact(n / 10);
        assert(decimal(n).drop_last() =~= decimal(n / 10));
    }
}

/// The last character of a decimal notation is the digit of the last decimal place,
/// and what stands before it is the notation of the number without that place.
pub proof fn law_decimal_places(n: nat)
    ensures
        decimal(n).len() > 0,
        decimal(n).last() as int == '0' as int + n % 10,
        n < 10 ==> decimal(n).len() == 1,
        n >= 10 ==> decimal(n).drop_last() == decimal(n / 10),
{
    reveal_strlit("0123456789");
    if n >= 10 {
        assert(decimal(n).drop_last() =~= decimal(n / 10));
    }
}

} // verus!
