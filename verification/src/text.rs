//! Small operations on text, counted in characters.

use vstd::prelude::*;

verus! {

/// `text` with every occurrence of `unwanted` left out.
pub open spec fn without_char(text: Seq<char>, unwanted: char) -> Seq<char>
    decreases text.len(),
{
    if text.len() == 0 {
        text
    } else if text.last() == unwanted {
        without_char(text.drop_last(), unwanted)
    } else {
        without_char(text.drop_last(), unwanted).push(text.last())
    }
}

/// Copies `text`, leaving out its line feeds.
pub fn without_line_breaks(text: &str) -> (line: String)
    ensures
        line@ == without_char(text@, '\n'),
{
    let length = text.unicode_len();
    let mut line = String::new();
    let mut position: usize = 0;
    while position < length
        invariant
            length == text@.len(),
            position <= length,
            line@ == without_char(text@.subrange(0, position as int), '\n'),
        decreases length - position,
    {
        let current = text.get_char(position);
        proof {
            let before = text@.subrange(0, position as int);
            let through = text@.subrange(0, position + 1);
            assert(through.drop_last() == before);
            assert(through.last() == current);
        }
        if current != '\n' {
            line.append(text.substring_char(position, position + 1));
            proof {
                assert(text@.subrange(position as int, position + 1) == seq![current]);
                assert(line@ == without_char(text@.subrange(0, position as int), '\n').push(
                    current,
                ));
            }
        }
        position = position + 1;
    }
    proof {
        assert(text@.subrange(0, length as int) == text@);
    }
    line
}

/// The position of the first `mark` in `text`, or the length of `text`
/// where it holds none.
pub open spec fn first_index(text: Seq<char>, mark: char) -> nat
    decreases text.len(),
{
    if text.len() == 0 {
        0
    } else {
        let found = first_index(text.drop_last(), mark);
        if found < text.len() - 1 || text.last() == mark {
            found
        } else {
            text.len()
        }
    }
}

/// The part of `text` before its first `mark`: all of it where it holds
/// none.
pub open spec fn head(text: Seq<char>, mark: char) -> Seq<char> {
    text.subrange(0, first_index(text, mark) as int)
}

/// The part of `text` behind its first `mark`, if it holds one.
pub open spec fn rest_after(text: Seq<char>, mark: char) -> Option<Seq<char>> {
    if first_index(text, mark) < text.len() {
        Some(text.subrange(first_index(text, mark) as int + 1, text.len() as int))
    } else {
        None
    }
}

/// The part of `text` between its first and its second `mark`; what follows
/// the first where there is no second, and nothing where there is no first.
pub open spec fn second_field(text: Seq<char>, mark: char) -> Seq<char> {
    match rest_after(text, mark) {
        Some(rest) => head(rest, mark),
        None => Seq::empty(),
    }
}

/// The parts into which the `mark`s cut `text`, in order. A text without
/// `mark` is one part, and so is the empty text.
pub open spec fn pieces(text: Seq<char>, mark: char) -> Seq<Seq<char>>
    decreases text.len(),
{
    match rest_after(text, mark) {
        Some(rest) => seq![head(text, mark)] + pieces(rest, mark),
        None => seq![text],
    }
}

/// The first index lies in the text or at its end, no character before it is
/// the mark, and the character at it is.
pub proof fn lemma_first_index(text: Seq<char>, mark: char)
    ensures
        first_index(text, mark) <= text.len(),
        forall|i: int| 0 <= i < first_index(text, mark) ==> text[i] != mark,
        first_index(text, mark) < text.len() ==> text[first_index(text, mark) as int] == mark,
    decreases text.len(),
{
    if text.len() > 0 {
        lemma_first_index(text.drop_last(), mark);
        let found = first_index(text.drop_last(), mark);
        assert forall|i: int| 0 <= i < first_index(text, mark) implies text[i] != mark by {
            if i < text.len() - 1 {
                assert(text.drop_last()[i] == text[i]);
            }
        }
        if found < text.len() - 1 {
            assert(text.drop_last()[found as int] == text[found as int]);
        }
    }
}

/// A position that holds the mark, with no mark before it, is the first
/// index; so is the length of a text that holds no mark at all.
pub proof fn lemma_first_index_is(text: Seq<char>, mark: char, position: int)
    requires
        0 <= position <= text.len(),
        forall|i: int| 0 <= i < position ==> text[i] != mark,
        position < text.len() ==> text[position] == mark,
    ensures
        first_index(text, mark) == position,
{
    lemma_first_index(text, mark);
    let found = first_index(text, mark) as int;
    if found < position {
        assert(text[found] != mark);
    }
}

/// The parts put together again, with a `mark` between each two.
pub open spec fn joined(parts: Seq<Seq<char>>, mark: char) -> Seq<char>
    decreases parts.len(),
{
    if parts.len() == 0 {
        Seq::empty()
    } else if parts.len() == 1 {
        parts[0]
    } else {
        parts[0] + seq![mark] + joined(parts.drop_first(), mark)
    }
}

/// Cutting loses nothing: there is at least one part, no part holds the
/// mark, and the parts joined by the mark are the text.
pub proof fn lemma_pieces(text: Seq<char>, mark: char)
    ensures
        pieces(text, mark).len() >= 1,
        forall|i: int, j: int|
            0 <= i < pieces(text, mark).len() && 0 <= j < pieces(text, mark)[i].len() ==> pieces(
                text,
                mark,
            )[i][j] != mark,
        joined(pieces(text, mark), mark) == text,
    decreases text.len(),
{
    lemma_first_index(text, mark);
    let found = first_index(text, mark) as int;
    match rest_after(text, mark) {
        Some(rest) => {
            lemma_pieces(rest, mark);
            let parts = pieces(text, mark);
            assert(parts.drop_first() == pieces(rest, mark));
            assert(parts[0] == head(text, mark));
            assert(head(text, mark) + seq![mark] + rest == text);
            assert forall|i: int, j: int|
                0 <= i < parts.len() && 0 <= j < parts[i].len() implies parts[i][j] != mark by {
                if i > 0 {
                    assert(parts[i] == pieces(rest, mark)[i - 1]);
                }
            }
        },
        None => {
            assert(head(text, mark) == text);
        },
    }
}

/// Cuts `text` at its first `mark`: what stands before it, and what stands
/// behind it where there is one.
pub fn split_first<'a>(text: &'a str, mark: char) -> (parts: (&'a str, Option<&'a str>))
    ensures
        parts.0@ == head(text@, mark),
        match rest_after(text@, mark) {
            Some(rest) => parts.1 matches Some(behind) && behind@ == rest,
            None => parts.1 is None,
        },
{
    let length = text.unicode_len();
    let mut position: usize = 0;
    while position < length && text.get_char(position) != mark
        invariant
            length == text@.len(),
            position <= length,
            forall|i: int| 0 <= i < position ==> text@[i] != mark,
        decreases length - position,
    {
        position = position + 1;
    }
    proof {
        lemma_first_index_is(text@, mark, position as int);
    }
    let before = text.substring_char(0, position);
    if position < length {
        (before, Some(text.substring_char(position + 1, length)))
    } else {
        (before, None)
    }
}

/// The part of `text` between its first and its second `mark`.
pub fn second_of<'a>(text: &'a str, mark: char) -> (field: &'a str)
    ensures
        field@ == second_field(text@, mark),
{
    match split_first(text, mark).1 {
        Some(rest) => split_first(rest, mark).0,
        None => {
            proof {
                assert(text@.subrange(0, 0) == Seq::<char>::empty());
            }
            text.substring_char(0, 0)
        },
    }
}

} // verus!
