//! Operations on text that the protocol needs.

use vstd::prelude::*;
use vstd::string::StrSliceExecFns;
use vstd::utf8::encode_utf8;

verus! {

/// The text without any stretch that equals `pattern`: the text is read from
/// the left, and wherever the pattern begins it is left out.
pub open spec fn without(text: Seq<char>, pattern: Seq<char>) -> Seq<char>
    decreases text.len(),
{
    if pattern.len() == 0 || text.len() < pattern.len() {
        text
    } else if text.take(pattern.len() as int) == pattern {
        without(text.skip(pattern.len() as int), pattern)
    } else {
        seq![text[0]] + without(text.skip(1), pattern)
    }
}

/// The pieces of the text between the separators, in their order, without the
/// empty ones. `piece` is the piece that was begun before the text.
pub open spec fn pieces(text: Seq<char>, separator: char, piece: Seq<char>) -> Seq<Seq<char>>
    decreases text.len(),
{
    if text.len() == 0 {
        if piece.len() == 0 {
            Seq::empty()
        } else {
            seq![piece]
        }
    } else if text[0] == separator {
        if piece.len() == 0 {
            pieces(text.skip(1), separator, Seq::empty())
        } else {
            seq![piece] + pieces(text.skip(1), separator, Seq::empty())
        }
    } else {
        pieces(text.skip(1), separator, piece.push(text[0]))
    }
}

/// The number of bytes that a text takes on the wire.
pub fn byte_length(text: &str) -> (length: usize)
    ensures
        length == encode_utf8(text@).len(),
{
    text.as_bytes().len()
}

/// The views of a list of strings.
pub open spec fn views(list: Seq<String>) -> Seq<Seq<char>> {
    Seq::new(list.len(), |i: int| list[i]@)
}

/// Whether `pattern` begins at position `at` of `text`.
fn begins_at(text: &str, length: usize, pattern: &str, pattern_length: usize, at: usize) -> (begins:
    bool)
    requires
        length == text@.len(),
        pattern_length == pattern@.len(),
        at + pattern_length <= length,
    ensures
        begins == (text@.subrange(at as int, at + pattern_length) == pattern@),
{
    let mut index: usize = 0;
    while index < pattern_length
        invariant
            length == text@.len(),
            pattern_length == pattern@.len(),
            at + pattern_length <= length,
            index <= pattern_length,
            forall|i: int| 0 <= i < index ==> text@[at + i] == pattern@[i],
        decreases pattern_length - index,
    {
        if text.get_char(at + index) != pattern.get_char(index) {
            assert(text@.subrange(at as int, at + pattern_length)[index as int]
                != pattern@[index as int]);
            return false;
        }
        index = index + 1;
    }
    assert(text@.subrange(at as int, at + pattern_length) =~= pattern@);
    true
}

/// The text without any stretch that equals `pattern`.
pub fn remove_all(text: &str, pattern: &str) -> (result: String)
    ensures
        result@ == without(text@, pattern@),
{
    let length = text.unicode_len();
    let pattern_length = pattern.unicode_len();
    let mut result = String::new();
    if pattern_length == 0 {
        let mut index: usize = 0;
        while index < length
            invariant
                length == text@.len(),
                index <= length,
                result@ == text@.take(index as int),
            decreases length - index,
        {
            result.push(text.get_char(index));
            assert(result@ =~= text@.take(index + 1));
            index = index + 1;
        }
        assert(text@.take(length as int) =~= text@);
        return result;
    }
    let mut at: usize = 0;
    assert(text@.skip(0) =~= text@);
    assert(result@ + without(text@, pattern@) =~= without(text@, pattern@));
    while at < length
        invariant
            length == text@.len(),
            pattern_length == pattern@.len(),
            pattern_length > 0,
            at <= length,
            without(text@, pattern@) == result@ + without(text@.skip(at as int), pattern@),
        decreases length - at,
    {
        let ghost rest = text@.skip(at as int);
        if length - at < pattern_length {
            // too little is left for the pattern: the rest stays as it is
            let mut index: usize = at;
            let ghost head = result@;
            while index < length
                invariant
                    length == text@.len(),
                    at <= index <= length,
                    result@ == head + text@.subrange(at as int, index as int),
                decreases length - index,
            {
                result.push(text.get_char(index));
                assert(result@ =~= head + text@.subrange(at as int, index + 1));
                index = index + 1;
            }
            assert(text@.subrange(at as int, length as int) =~= rest);
            return result;
        }
        let found = begins_at(text, length, pattern, pattern_length, at);
        assert(rest.take(pattern_length as int) =~= text@.subrange(
            at as int,
            at + pattern_length,
        ));
        if found {
            assert(rest.skip(pattern_length as int) =~= text@.skip(at + pattern_length));
            at = at + pattern_length;
        } else {
            let ghost head = result@;
            result.push(text.get_char(at));
            assert(rest.skip(1) =~= text@.skip(at + 1));
            assert(result@ + without(text@.skip(at + 1), pattern@) =~= head + (seq![rest[0]]
                + without(rest.skip(1), pattern@)));
            at = at + 1;
        }
    }
    assert(text@.skip(length as int) =~= Seq::<char>::empty());
    assert(result@ + Seq::<char>::empty() =~= result@);
    result
}

/// The pieces of the text between the separators, in their order, without the
/// empty ones.
pub fn split_pieces(text: &str, separator: char) -> (list: Vec<String>)
    ensures
        views(list@) == pieces(text@, separator, Seq::empty()),
{
    let length = text.unicode_len();
    let mut list: Vec<String> = Vec::new();
    let mut piece = String::new();
    let mut index: usize = 0;
    assert(views(list@) =~= Seq::<Seq<char>>::empty());
    assert(text@.skip(0) =~= text@);
    assert(views(list@) + pieces(text@, separator, piece@) =~= pieces(
        text@,
        separator,
        Seq::empty(),
    ));
    while index < length
        invariant
            length == text@.len(),
            index <= length,
            pieces(text@, separator, Seq::empty()) == views(list@) + pieces(
                text@.skip(index as int),
                separator,
                piece@,
            ),
        decreases length - index,
    {
        let ghost rest = text@.skip(index as int);
        let ghost before = views(list@);
        let character = text.get_char(index);
        assert(rest.skip(1) =~= text@.skip(index + 1));
        if character == separator {
            if piece.as_str().unicode_len() > 0 {
                let ghost done = piece@;
                list.push(piece);
                piece = String::new();
                assert(views(list@) =~= before + seq![done]);
                assert((before + seq![done]) + pieces(rest.skip(1), separator, Seq::empty())
                    =~= before + (seq![done] + pieces(rest.skip(1), separator, Seq::empty())));
            } else {
                assert(piece@ =~= Seq::<char>::empty());
            }
        } else {
            piece.push(character);
        }
        index = index + 1;
    }
    assert(text@.skip(length as int) =~= Seq::<char>::empty());
    let ghost before = views(list@);
    if piece.as_str().unicode_len() > 0 {
        let ghost done = piece@;
        list.push(piece);
        assert(views(list@) =~= before + seq![done]);
    } else {
        assert(before + Seq::<Seq<char>>::empty() =~= before);
    }
    list
}

} // verus!
