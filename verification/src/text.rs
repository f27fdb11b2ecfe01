//! Text: cutting a string at a separator, and writing numbers in decimal.

use vstd::prelude::*;
use vstd::std_specs::iter::IteratorSpec;
use vstd::string::*;

verus! {

/// The texts of a run of strings, in order.
pub open spec fn texts(strings: Seq<String>) -> Seq<Seq<char>> {
    Seq::new(strings.len(), |i: int| strings[i]@)
}

/// The pieces of `text` that lie between the occurrences of `separator`.
///
/// There is always one piece more than there are separators: a text without
/// any is its own single piece, and a separator at either end leaves an empty
/// piece beside it.
pub open spec fn split(text: Seq<char>, separator: char) -> Seq<Seq<char>>
    decreases text.len(),
{
    if text.len() == 0 {
        seq![Seq::empty()]
    } else {
        let before = split(text.drop_last(), separator);
        if text.last() == separator {
            before.push(Seq::empty())
        } else {
            before.drop_last().push(before.last().push(text.last()))
        }
    }
}

/// `pieces` set one after the other, with `separator` between neighbours.
pub open spec fn join(pieces: Seq<Seq<char>>, separator: char) -> Seq<char>
    decreases pieces.len(),
{
    if pieces.len() == 0 {
        Seq::empty()
    } else if pieces.len() == 1 {
        pieces[0]
    } else {
        join(pieces.drop_last(), separator).push(separator) + pieces.last()
    }
}

/// Splitting loses nothing: the pieces are never none, none of them holds the
/// separator, and joined again they give the text back.
pub proof fn lemma_split_join(text: Seq<char>, separator: char)
    ensures
        split(text, separator).len() >= 1,
        forall|i: int|
            0 <= i < split(text, separator).len() ==> !(#[trigger] split(text, separator)[i]).contains(
                separator,
            ),
        join(split(text, separator), separator) == text,
    decreases text.len(),
{
    if text.len() == 0 {
        assert(join(split(text, separator), separator) =~= text);
    } else {
        let shorter = text.drop_last();
        lemma_split_join(shorter, separator);
        let before = split(shorter, separator);
        let pieces = split(text, separator);
        if text.last() == separator {
            assert(pieces.drop_last() =~= before);
            assert(join(pieces, separator) =~= text);
        } else {
            let grown = before.last().push(text.last());
            assert forall|i: int| 0 <= i < pieces.len() implies !(#[trigger] pieces[i]).contains(
                separator,
            ) by {
                if i == pieces.len() - 1 {
                    assert(!before.last().contains(separator));
                    if grown.contains(separator) {
                        let k = choose|k: int| 0 <= k < grown.len() && grown[k] == separator;
                        assert(before.last()[k] == separator);
                    }
                } else {
                    assert(pieces[i] == before[i]);
                }
            }
            if before.len() == 1 {
                assert(join(pieces, separator) =~= text);
            } else {
                assert(pieces.drop_last() =~= before.drop_last());
                let head = join(before.drop_last(), separator).push(separator);
                assert(join(before, separator) == head + before.last());
                assert(join(pieces, separator) == head + grown);
                assert(head + grown =~= (head + before.last()).push(text.last()));
                assert(shorter.push(text.last()) =~= text);
            }
        }
    }
}

/// Cuts `text` at every `separator`.
pub fn split_on(text: &str, separator: char) -> (pieces: Vec<String>)
    ensures
        texts(pieces@) == split(text@, separator),
{
    let length = text.unicode_len();
    let mut pieces: Vec<String> = Vec::new();
    let mut start: usize = 0;
    let mut at: usize = 0;
    assert(text@.take(0) =~= Seq::<char>::empty());
    assert(texts(pieces@).push(text@.subrange(0, 0)) =~= split(text@.take(0), separator));
    for c in it: text.chars()
        invariant
            it.seq() == text@,
            length == text@.len(),
            at == it.index(),
            start <= at,
            split(text@.take(at as int), separator) == texts(pieces@).push(
                text@.subrange(start as int, at as int),
            ),
    {
        let ghost longer = text@.take(at + 1);
        let ghost earlier = texts(pieces@);
        let ghost piece = text@.subrange(start as int, at as int);
        assert(longer.drop_last() =~= text@.take(at as int));
        assert(longer.last() == c);
        if c == separator {
            pieces.push(text.substring_char(start, at).to_owned());
            start = at + 1;
            assert(texts(pieces@) =~= earlier.push(piece));
            assert(text@.subrange(start as int, at + 1) =~= Seq::<char>::empty());
        } else {
            assert(text@.subrange(start as int, at + 1) =~= piece.push(c));
            assert(earlier.push(piece).drop_last() =~= earlier);
        }
        at = at + 1;
    }
    assert(text@.take(at as int) =~= text@);
    let ghost earlier = texts(pieces@);
    pieces.push(text.substring_char(start, at).to_owned());
    assert(texts(pieces@) =~= earlier.push(text@.subrange(start as int, at as int)));
    pieces
}

/// The character that stands for a value below ten.
pub open spec fn digit(value: nat) -> char {
    if value == 0 {
        '0'
    } else if value == 1 {
        '1'
    } else if value == 2 {
        '2'
    } else if value == 3 {
        '3'
    } else if value == 4 {
        '4'
    } else if value == 5 {
        '5'
    } else if value == 6 {
        '6'
    } else if value == 7 {
        '7'
    } else if value == 8 {
        '8'
    } else {
        '9'
    }
}

/// `number` in decimal, without sign or leading zeros.
pub open spec fn decimal(number: nat) -> Seq<char>
    decreases number,
{
    if number < 10 {
        seq![digit(number)]
    } else {
        decimal(number / 10).push(digit(number % 10))
    }
}

/// The one-character text of a digit.
fn digit_text(value: u64) -> (text: &'static str)
    requires
        value < 10,
    ensures
        text@ == seq![digit(value as nat)],
{
    proof {
        reveal_strlit("0");
        reveal_strlit("1");
        reveal_strlit("2");
        reveal_strlit("3");
        reveal_strlit("4");
        reveal_strlit("5");
        reveal_strlit("6");
        reveal_strlit("7");
        reveal_strlit("8");
        reveal_strlit("9");
    }
    let text = if value == 0 {
        "0"
    } else if value == 1 {
        "1"
    } else if value == 2 {
        "2"
    } else if value == 3 {
        "3"
    } else if value == 4 {
        "4"
    } else if value == 5 {
        "5"
    } else if value == 6 {
        "6"
    } else if value == 7 {
        "7"
    } else if value == 8 {
        "8"
    } else {
        "9"
    };
    assert(text@ =~= seq![digit(value as nat)]);
    text
}

/// Writes `number` in decimal.
pub fn decimal_string(number: u64) -> (text: String)
    ensures
        text@ == decimal(number as nat),
    decreases number,
{
    if number < 10 {
        digit_text(number).to_owned()
    } else {
        let mut text = decimal_string(number / 10);
        text.append(digit_text(number % 10));
        assert(text@ =~= decimal(number as nat));
        text
    }
}

/// A copy of every string of `strings`, in order.
pub fn copy_all(strings: &Vec<String>) -> (copies: Vec<String>)
    ensures
        texts(copies@) == texts(strings@),
{
    let mut copies: Vec<String> = Vec::new();
    let mut at: usize = 0;
    while at < strings.len()
        invariant
            at <= strings.len(),
            copies.len() == at,
            forall|i: int| 0 <= i < at ==> copies@[i]@ == strings@[i]@,
        decreases strings.len() - at,
    {
        copies.push(strings[at].clone());
        at += 1;
    }
    assert(texts(copies@) =~= texts(strings@));
    copies
}

/// Whether two strings hold the same text.
pub fn same_text(left: &str, right: &str) -> (same: bool)
    ensures
        same == (left@ == right@),
{
    let mut rest_left = left.chars();
    let mut rest_right = right.chars();
    let ghost mut done: int = 0;
    loop
        invariant
            rest_left.obeys_prophetic_iter_laws(),
            rest_right.obeys_prophetic_iter_laws(),
            0 <= done <= left@.len(),
            done <= right@.len(),
            rest_left.remaining() == left@.skip(done),
            rest_right.remaining() == right@.skip(done),
            left@.take(done) == right@.take(done),
        decreases left@.len() - done,
    {
        let next_left = rest_left.next();
        let next_right = rest_right.next();
        match (next_left, next_right) {
            (Some(a), Some(b)) => {
                assert(a == left@[done]);
                assert(b == right@[done]);
                if a != b {
                    return false;
                }
                proof {
                    assert(left@.skip(done).drop_first() =~= left@.skip(done + 1));
                    assert(right@.skip(done).drop_first() =~= right@.skip(done + 1));
                    assert(left@.take(done + 1) =~= left@.take(done).push(a));
                    assert(right@.take(done + 1) =~= right@.take(done).push(b));
                    done = done + 1;
                }
            },
            (None, None) => {
                assert(left@ =~= left@.take(done));
                assert(right@ =~= right@.take(done));
                return true;
            },
            _ => {
                return false;
            },
        }
    }
}

} // verus!
