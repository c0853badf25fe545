//! Inline reasoning in model output.
use crate::text;
use vstd::prelude::*;

verus! {

/// The tag that opens inline reasoning.
pub open spec fn open_tag() -> Seq<char> {
    "<think>"@
}

/// The tag that closes inline reasoning.
pub open spec fn close_tag() -> Seq<char> {
    "</think>"@
}

/// `content` without its inline reasoning: what stands before the first opening
/// tag, followed by the visible part of what comes after the tag that closes
/// it. Where nothing closes it, the rest of the content is reasoning.
pub open spec fn visible(content: Seq<char>) -> Seq<char>
    decreases content.len(),
{
    match text::first_occurrence(content, open_tag(), 0) {
        None => content,
        Some(start) => match text::first_occurrence(content, close_tag(), start) {
            None => content.take(start as int),
            Some(end) => {
                proof {
                    reveal_strlit("</think>");
                    text::lemma_first_occurrence(content, close_tag(), start);
                }
                content.take(start as int) + visible(content.skip((end + close_tag().len()) as int))
            },
        },
    }
}

/// What [`strip_think_tags`] returns.
pub open spec fn stripped(content: Seq<char>) -> Seq<char> {
    text::trimmed(visible(content))
}

/// Remove inline `<think>...</think>` reasoning before terminal-response
/// classification or user-visible parsing.
///
/// An unclosed opening tag suppresses the remainder so partial reasoning never
/// becomes final output.
pub fn strip_think_tags(content: &str) -> (answer: String)
    ensures
        answer@ == stripped(content@),
{
    let chars = text::chars_of(content);
    let opening = text::chars_of("<think>");
    let closing = text::chars_of("</think>");
    proof {
        reveal_strlit("</think>");
    }
    let mut kept = String::new();
    let mut position: usize = 0;
    assert(content@.skip(0) =~= content@);
    loop
        invariant_except_break
            visible(content@) == kept@ + visible(content@.skip(position as int)),
        invariant
            chars@ == content@,
            opening@ == open_tag(),
            closing@ == close_tag(),
            closing@.len() == 8,
            position <= chars.len(),
        ensures
            visible(content@) == kept@,
        decreases chars@.len() - position,
    {
        let ghost rest = content@.skip(position as int);
        proof {
            text::lemma_first_occurrence_in_rest(content@, open_tag(), position as nat, 0);
            text::lemma_first_occurrence(rest, open_tag(), 0);
        }
        match text::find_from(&chars, &opening, position) {
            Some(start) => {
                kept.append(content.substring_char(position, start));
                proof {
                    let skipped = (start - position) as nat;
                    text::lemma_first_occurrence_in_rest(content@, close_tag(), position as nat, skipped);
                    text::lemma_first_occurrence(rest, close_tag(), skipped);
                    assert(rest.take(skipped as int) =~= content@.subrange(position as int, start as int));
                }
                match text::find_from(&chars, &closing, start) {
                    Some(end) => {
                        assert(rest.skip(end - position + 8) =~= content@.skip(end + 8));
                        position = end + closing.len();
                    },
                    None => {
                        break;
                    },
                }
            },
            None => {
                kept.append(content.substring_char(position, chars.len()));
                assert(content@.subrange(position as int, chars@.len() as int) =~= rest);
                break;
            },
        }
    }
    text::trim(kept.as_str()).to_string()
}

/// The first opening tag after a text without one is the one that was put
/// there.
proof fn lemma_open_tag_position(before: Seq<char>, rest: Seq<char>)
    requires
        !text::occurs_in(before, open_tag()),
    ensures
        text::first_occurrence(before + open_tag() + rest, open_tag(), 0) == Some(before.len()),
{
    reveal_strlit("<think>");
    let tag = open_tag();
    let whole = before + tag + rest;
    let b = before.len() as int;
    assert(whole.subrange(b, b + tag.len()) =~= tag);
    assert forall|j: int| 0 <= j < b implies !text::occurs_at(whole, tag, j) by {
        if text::occurs_at(whole, tag, j) {
            if j + tag.len() <= b {
                assert(before.subrange(j, j + tag.len()) =~= whole.subrange(j, j + tag.len()));
                assert(text::occurs_at(before, tag, j));
            } else {
                assert(whole.subrange(j, j + tag.len())[b - j] == whole[b]);
            }
        }
    }
    text::lemma_is_first_occurrence(whole, tag, 0, before.len());
}

/// The first closing tag after an opening tag and a text without a closing tag
/// is the one that was put there.
proof fn lemma_close_tag_position(before: Seq<char>, inner: Seq<char>, after: Seq<char>)
    requires
        !text::occurs_in(inner, close_tag()),
    ensures
        text::first_occurrence(
            before + open_tag() + (inner + close_tag() + after),
            close_tag(),
            before.len(),
        ) == Some(before.len() + open_tag().len() + inner.len()),
{
    reveal_strlit("<think>");
    reveal_strlit("</think>");
    let tag = close_tag();
    let whole = before + open_tag() + (inner + tag + after);
    let b = before.len() as int;
    let i = b + open_tag().len();
    let e = i + inner.len();
    assert(whole.subrange(e, e + tag.len()) =~= tag);
    assert forall|j: int| b <= j < e implies !text::occurs_at(whole, tag, j) by {
        if text::occurs_at(whole, tag, j) {
            assert(whole.subrange(j, j + tag.len())[0] == whole[j]);
            assert(whole.subrange(j, j + tag.len())[1] == whole[j + 1]);
            if j < i {
                assert(whole[j] == open_tag()[j - b]);
                assert(whole[b + 1] == open_tag()[1]);
            } else if j + tag.len() <= e {
                assert(inner.subrange(j - i, j - i + tag.len()) =~= whole.subrange(
                    j,
                    j + tag.len(),
                ));
                assert(text::occurs_at(inner, tag, j - i));
            } else {
                assert(whole.subrange(j, j + tag.len())[e - j] == whole[e]);
            }
        }
    }
    text::lemma_is_first_occurrence(whole, tag, before.len(), e as nat);
}

/// Reasoning that is open at the end of `before` is closed, if at all, after the
/// opening tag that follows: no closing tag starts before that tag and ends in it.
proof fn lemma_close_tag_of_open_reasoning(before: Seq<char>, rest: Seq<char>, start: nat)
    requires
        start <= before.len(),
        text::first_occurrence(before, close_tag(), start) is None,
    ensures
        text::first_occurrence(before + (open_tag() + rest), close_tag(), start) == (
        match text::first_occurrence(open_tag() + rest, close_tag(), 0) {
            Some(end) => Some(before.len() + end),
            None => None,
        }),
{
    reveal_strlit("<think>");
    reveal_strlit("</think>");
    let tag = close_tag();
    let tail = open_tag() + rest;
    let whole = before + tail;
    let b = before.len() as int;
    text::lemma_first_occurrence(before, tag, start);
    assert forall|j: int| start <= j < b implies !text::occurs_at(whole, tag, j) by {
        if text::occurs_at(whole, tag, j) {
            if j + tag.len() <= b {
                assert(before.subrange(j, j + tag.len()) =~= whole.subrange(j, j + tag.len()));
                assert(text::occurs_at(before, tag, j));
            } else {
                assert(whole.subrange(j, j + tag.len())[b - j] == whole[b]);
                assert(whole[b] == open_tag()[0]);
            }
        }
    }
    assert(whole.skip(b) =~= tail);
    text::lemma_first_occurrence_in_rest(whole, tag, before.len(), 0);
    text::lemma_first_occurrence(whole, tag, before.len());
    match text::first_occurrence(whole, tag, before.len()) {
        Some(end) => {
            text::lemma_is_first_occurrence(whole, tag, start, end);
        },
        None => {
            text::lemma_no_occurrence(whole, tag, start);
        },
    }
}

/// An opening tag leaves what stands before it as visible as it is alone.
proof fn lemma_visible_before_open_tag(before: Seq<char>, rest: Seq<char>)
    ensures
        visible(before + open_tag() + rest) == visible(before) + visible(open_tag() + rest),
    decreases before.len(),
{
    reveal_strlit("<think>");
    reveal_strlit("</think>");
    let whole = before + open_tag() + rest;
    let tail = open_tag() + rest;
    assert(whole =~= before + tail);
    match text::first_occurrence(before, open_tag(), 0) {
        None => {
            text::lemma_first_occurrence(before, open_tag(), 0);
            lemma_open_tag_position(before, rest);
            assert(Seq::<char>::empty() + open_tag() + rest =~= tail);
            lemma_open_tag_position(Seq::empty(), rest);
            assert(whole.skip(before.len() as int) =~= tail);
            text::lemma_first_occurrence_in_rest(whole, close_tag(), before.len(), 0);
            assert(whole.take(before.len() as int) =~= before);
            assert(tail.take(0) =~= Seq::empty());
            text::lemma_first_occurrence(tail, close_tag(), 0);
            match text::first_occurrence(tail, close_tag(), 0) {
                None => {},
                Some(end) => {
                    let n = (end + close_tag().len()) as int;
                    assert(whole.skip(before.len() + n) =~= tail.skip(n));
                    assert(tail.take(0) + visible(tail.skip(n)) =~= visible(tail.skip(n)));
                },
            }
        },
        Some(start) => {
            text::lemma_first_occurrence(before, open_tag(), 0);
            text::lemma_first_occurrence_in_prefix(before, tail, open_tag(), 0);
            text::lemma_first_occurrence_in_prefix(before, tail, close_tag(), start);
            text::lemma_first_occurrence(before, close_tag(), start);
            match text::first_occurrence(before, close_tag(), start) {
                None => {
                    lemma_close_tag_of_open_reasoning(before, rest, start);
                    assert(Seq::<char>::empty() + open_tag() + rest =~= tail);
                    lemma_open_tag_position(Seq::empty(), rest);
                    assert(whole.take(start as int) =~= before.take(start as int));
                    assert(tail.take(0) =~= Seq::empty());
                    text::lemma_first_occurrence(tail, close_tag(), 0);
                    match text::first_occurrence(tail, close_tag(), 0) {
                        None => {},
                        Some(end) => {
                            let n = (end + close_tag().len()) as int;
                            assert(whole.skip(before.len() + n) =~= tail.skip(n));
                            assert(tail.take(0) + visible(tail.skip(n)) =~= visible(tail.skip(n)));
                        },
                    }
                    assert(visible(whole) =~= visible(before) + visible(tail));
                },
                Some(end) => {
                    let n = (end + close_tag().len()) as int;
                    lemma_visible_before_open_tag(before.skip(n), rest);
                    assert(whole.skip(n) =~= before.skip(n) + open_tag() + rest);
                    assert(whole.take(start as int) =~= before.take(start as int));
                    assert(visible(whole) =~= visible(before) + visible(tail));
                },
            }
        },
    }
}

/// The tags, letter by letter.
pub proof fn law_tags()
    ensures
        open_tag() == seq!['<', 't', 'h', 'i', 'n', 'k', '>'],
        close_tag() == seq!['<', '/', 't', 'h', 'i', 'n', 'k', '>'],
{
    reveal_strlit("<think>");
    reveal_strlit("</think>");
    assert(open_tag() =~= seq!['<', 't', 'h', 'i', 'n', 'k', '>']);
    assert(close_tag() =~= seq!['<', '/', 't', 'h', 'i', 'n', 'k', '>']);
}

/// Text without an opening tag is only trimmed: a closing tag that closes
/// nothing stays.
pub proof fn law_text_without_reasoning_is_trimmed(content: Seq<char>)
    requires
        !text::occurs_in(content, open_tag()),
    ensures
        visible(content) == content,
        stripped(content) == text::trimmed(content),
{
    assert forall|j: int| 0 <= j implies !text::occurs_at(content, open_tag(), j) by {}
    text::lemma_no_occurrence(content, open_tag(), 0);
}

/// Closed reasoning is cut out, tags included: what stands before it and what
/// follows it are as visible as each is alone.
pub proof fn law_closed_reasoning_is_removed(
    before: Seq<char>,
    inner: Seq<char>,
    after: Seq<char>,
)
    requires
        !text::occurs_in(inner, close_tag()),
    ensures
        visible(before + open_tag() + inner + close_tag() + after) == visible(before) + visible(
            after,
        ),
        stripped(before + open_tag() + inner + close_tag() + after) == text::trimmed(
            visible(before) + visible(after),
        ),
{
    reveal_strlit("<think>");
    let rest = inner + close_tag() + after;
    let tail = open_tag() + rest;
    assert(before + open_tag() + inner + close_tag() + after =~= before + open_tag() + rest);
    lemma_visible_before_open_tag(before, rest);
    assert(Seq::<char>::empty() + open_tag() + rest =~= tail);
    lemma_open_tag_position(Seq::empty(), rest);
    lemma_close_tag_position(Seq::empty(), inner, after);
    let end = (open_tag().len() + inner.len() + close_tag().len()) as int;
    assert(tail.skip(end) =~= after);
    assert(tail.take(0) + visible(after) =~= visible(after));
}

/// What stands in closed reasoning never shows: whatever surrounds it, other
/// reasoning in its place leaves the same visible text.
pub proof fn law_reasoning_never_shows(
    before: Seq<char>,
    inner: Seq<char>,
    other: Seq<char>,
    after: Seq<char>,
)
    requires
        !text::occurs_in(inner, close_tag()),
        !text::occurs_in(other, close_tag()),
    ensures
        visible(before + open_tag() + inner + close_tag() + after) == visible(
            before + open_tag() + other + close_tag() + after,
        ),
        stripped(before + open_tag() + inner + close_tag() + after) == stripped(
            before + open_tag() + other + close_tag() + after,
        ),
{
    law_closed_reasoning_is_removed(before, inner, after);
    law_closed_reasoning_is_removed(before, other, after);
}

/// An opening tag that nothing closes suppresses everything after it.
pub proof fn law_unclosed_reasoning_suppresses_the_rest(before: Seq<char>, rest: Seq<char>)
    requires
        !text::occurs_in(rest, close_tag()),
    ensures
        visible(before + open_tag() + rest) == visible(before),
        stripped(before + open_tag() + rest) == stripped(before),
{
    reveal_strlit("<think>");
    reveal_strlit("</think>");
    let tag = close_tag();
    let tail = open_tag() + rest;
    let i = open_tag().len() as int;
    lemma_visible_before_open_tag(before, rest);
    assert(Seq::<char>::empty() + open_tag() + rest =~= tail);
    lemma_open_tag_position(Seq::empty(), rest);
    assert forall|j: int| 0 <= j implies !text::occurs_at(tail, tag, j) by {
        if text::occurs_at(tail, tag, j) {
            assert(tail.subrange(j, j + tag.len())[0] == tail[j]);
            assert(tail.subrange(j, j + tag.len())[1] == tail[j + 1]);
            if j < i {
                assert(tail[j] == open_tag()[j]);
                assert(tail[1] == open_tag()[1]);
            } else {
                assert(rest.subrange(j - i, j - i + tag.len()) =~= tail.subrange(j, j + tag.len()));
                assert(text::occurs_at(rest, tag, j - i));
            }
        }
    }
    text::lemma_no_occurrence(tail, tag, 0);
    assert(visible(before) + tail.take(0) =~= visible(before));
}

} // verus!
