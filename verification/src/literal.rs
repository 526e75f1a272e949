//! Text between the quotes of a string literal.
//!
//! A double quote would end the literal and a backslash would start an
//! escape, so both are written with a backslash before them. What the
//! compiler then reads between the quotes is the text as it was.

use vstd::prelude::*;

verus! {

/// Whether `c` cannot stand for itself between the quotes.
pub open spec fn needs_escape(c: char) -> bool {
    c == '"' || c == '\\'
}

/// What is written for `c` between the quotes.
pub open spec fn escaped_char(c: char) -> Seq<char> {
    if needs_escape(c) {
        seq!['\\', c]
    } else {
        seq![c]
    }
}

/// `text` with a backslash before each double quote and each backslash.
pub open spec fn escaped(text: Seq<char>) -> Seq<char>
    decreases text.len(),
{
    if text.len() == 0 {
        Seq::empty()
    } else {
        escaped(text.drop_last()) + escaped_char(text.last())
    }
}

/// Whether `body` can stand between the quotes: each backslash in it is
/// followed by a double quote or a backslash, which it escapes, and no
/// double quote stands in it unescaped.
pub open spec fn well_escaped(body: Seq<char>) -> bool
    decreases body.len(),
{
    if body.len() == 0 {
        true
    } else if body[0] == '\\' {
        body.len() >= 2 && needs_escape(body[1]) && well_escaped(body.skip(2))
    } else {
        body[0] != '"' && well_escaped(body.skip(1))
    }
}

/// The text that the compiler reads from a well escaped `body`.
pub open spec fn literal_value(body: Seq<char>) -> Seq<char>
    decreases body.len(),
{
    if body.len() == 0 {
        Seq::empty()
    } else if body[0] == '\\' && body.len() >= 2 {
        seq![body[1]] + literal_value(body.skip(2))
    } else {
        seq![body[0]] + literal_value(body.skip(1))
    }
}

/// Escaping two texts one after the other escapes their concatenation.
pub proof fn lemma_escaped_concat(left: Seq<char>, right: Seq<char>)
    ensures
        escaped(left + right) == escaped(left) + escaped(right),
    decreases right.len(),
{
    if right.len() == 0 {
        assert(left + right =~= left);
        assert(escaped(left) + escaped(right) =~= escaped(left));
    } else {
        lemma_escaped_concat(left, right.drop_last());
        assert((left + right).drop_last() =~= left + right.drop_last());
        assert((left + right).last() == right.last());
        assert(escaped(left + right) =~= escaped(left) + escaped(right));
    }
}

/// A text without double quotes and backslashes is written as it is.
pub proof fn lemma_escaped_plain(text: Seq<char>)
    requires
        forall|i: int| 0 <= i < text.len() ==> !needs_escape(#[trigger] text[i]),
    ensures
        escaped(text) == text,
    decreases text.len(),
{
    if text.len() > 0 {
        lemma_escaped_plain(text.drop_last());
        assert(escaped(text) =~= text);
    }
}

/// An escaped text can stand between the quotes, and the compiler reads
/// from it the text that was escaped.
pub proof fn lemma_escaped_is_literal(text: Seq<char>)
    ensures
        well_escaped(escaped(text)),
        literal_value(escaped(text)) == text,
    decreases text.len(),
{
    if text.len() > 0 {
        let first = text[0];
        let rest = text.skip(1);
        assert(text =~= seq![first] + rest);
        lemma_escaped_concat(seq![first], rest);
        assert(seq![first].drop_last() =~= Seq::<char>::empty());
        assert(escaped(seq![first].drop_last()) =~= Seq::<char>::empty());
        assert(seq![first].last() == first);
        assert(escaped(seq![first]) =~= escaped_char(first));
        lemma_escaped_is_literal(rest);
        let body = escaped(text);
        if needs_escape(first) {
            assert(body.skip(2) =~= escaped(rest));
        } else {
            assert(body.skip(1) =~= escaped(rest));
        }
        assert(literal_value(body) =~= text);
    }
}

/// In an escaped text no double quote stands without a backslash before it.
pub proof fn lemma_quotes_escaped(text: Seq<char>)
    ensures
        forall|i: int|
            0 <= i < escaped(text).len() && #[trigger] escaped(text)[i] == '"' ==> i > 0
                && escaped(text)[i - 1] == '\\',
    decreases text.len(),
{
    if text.len() > 0 {
        lemma_quotes_escaped(text.drop_last());
        let front = escaped(text.drop_last());
        let body = escaped(text);
        assert forall|i: int| 0 <= i < body.len() && #[trigger] body[i] == '"' implies i > 0
            && body[i - 1] == '\\' by {
            if i < front.len() {
                assert(body[i] == front[i]);
                assert(body[i - 1] == front[i - 1]);
            }
        }
    }
}

/// Appends `text` to `output`, with a backslash before each double quote
/// and each backslash.
pub fn push_escaped(output: &mut String, text: &str)
    ensures
        final(output)@ == old(output)@ + escaped(text@),
{
    if text.is_ascii() {
        push_escaped_ascii(output, text);
    } else {
        push_escaped_chars(output, text);
    }
}

/// Escapes a text of one byte per character: it is read byte by byte, and
/// what stands between two escaped characters is appended in one piece.
fn push_escaped_ascii(output: &mut String, text: &str)
    requires
        text.is_ascii(),
    ensures
        final(output)@ == old(output)@ + escaped(text@),
{
    let length = text.unicode_len();
    let mut start: usize = 0;
    let mut index: usize = 0;
    assert(text@.take(0) =~= Seq::<char>::empty());
    assert(output@ + text@.subrange(0, 0) =~= old(output)@ + escaped(text@.take(0)));
    while index < length
        invariant
            start <= index <= length,
            length == text@.len(),
            text.is_ascii(),
            output@ + text@.subrange(start as int, index as int) == old(output)@ + escaped(
                text@.take(index as int),
            ),
        decreases length - index,
    {
        let ghost written = output@;
        let ghost run = text@.subrange(start as int, index as int);
        let ghost c = text@[index as int];
        let byte = text.get_ascii(index);
        proof {
            reveal_strlit("\\");
            assert("\\"@ =~= seq!['\\']);
            assert(text@.take(index + 1).drop_last() =~= text@.take(index as int));
            assert(text@.take(index + 1).last() == c);
            assert('\0' <= c <= '\u{7f}');
            assert((byte == 34) == (c == '"'));
            assert((byte == 92) == (c == '\\'));
        }
        if byte == 34 || byte == 92 {
            output.append(text.substring_ascii(start, index));
            output.append("\\");
            start = index;
            assert(output@ + text@.subrange(start as int, index + 1) =~= written + run
                + escaped_char(c));
        } else {
            assert(output@ + text@.subrange(start as int, index + 1) =~= written + run
                + escaped_char(c));
        }
        index = index + 1;
    }
    output.append(text.substring_ascii(start, length));
    assert(text@.take(length as int) =~= text@);
}

/// Escapes any text, character by character.
fn push_escaped_chars(output: &mut String, text: &str)
    ensures
        final(output)@ == old(output)@ + escaped(text@),
{
    let length = text.unicode_len();
    let mut index: usize = 0;
    assert(text@.take(0) =~= Seq::<char>::empty());
    assert(output@ =~= old(output)@ + escaped(text@.take(0)));
    while index < length
        invariant
            index <= length,
            length == text@.len(),
            output@ == old(output)@ + escaped(text@.take(index as int)),
        decreases length - index,
    {
        let c = text.get_char(index);
        proof {
            reveal_strlit("\\");
            assert("\\"@ =~= seq!['\\']);
            assert(text@.take(index + 1).drop_last() =~= text@.take(index as int));
            assert(text@.take(index + 1).last() == c);
            assert(text@.subrange(index as int, index + 1) =~= seq![c]);
        }
        if c == '"' || c == '\\' {
            output.append("\\");
        }
        output.append(text.substring_char(index, index + 1));
        assert(output@ =~= old(output)@ + escaped(text@.take(index + 1)));
        index = index + 1;
    }
    assert(text@.take(length as int) =~= text@);
}

} // verus!
