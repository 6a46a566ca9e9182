//! Snapshots: captured text cut into lines.

use vstd::prelude::*;
use vstd::string::*;
use vstd::std_specs::iter::IteratorSpec;
use crate::event::lines_view;

verus! {

/// The pieces of `text` between its line feeds.
///
/// There is always one piece more than there are line feeds: the empty text
/// has one empty piece, and a text that ends in a line feed has an empty
/// last piece.
pub open spec fn split_lines(text: Seq<char>) -> Seq<Seq<char>>
    decreases text.len(),
{
    if text.len() == 0 {
        seq![Seq::<char>::empty()]
    } else {
        let before = split_lines(text.drop_last());
        if text.last() == '\n' {
            before.push(Seq::<char>::empty())
        } else {
            before.drop_last().push(before.last().push(text.last()))
        }
    }
}

/// The lines of a snapshot taken from `text`: its pieces between line feeds,
/// without the last piece where that is empty.
///
/// So the line feed that ends the last line of a command's output adds no
/// empty line to the snapshot, while empty lines elsewhere are kept.
pub open spec fn snapshot_of(text: Seq<char>) -> Seq<Seq<char>> {
    let pieces = split_lines(text);
    if pieces.last().len() == 0 {
        pieces.drop_last()
    } else {
        pieces
    }
}

/// `String::push` of std: the character is appended at the end and the text
/// before it stays as it was.
pub assume_specification[ String::push ](s: &mut String, ch: char)
    ensures
        final(s)@ == old(s)@.push(ch),
;

/// Cuts `text` at every line feed and returns all the pieces, the last one
/// included even where it is empty.
pub fn split_text(text: &str) -> (pieces: Vec<String>)
    ensures
        lines_view(pieces@) == split_lines(text@),
        pieces@.len() >= 1,
{
    broadcast use {axiom_spec_iter, next_postcondition};

    let mut pieces: Vec<String> = Vec::new();
    let mut open_piece: String = String::new();
    let mut rest = text.chars();
    let ghost mut seen: Seq<char> = Seq::empty();
    proof {
        assert(lines_view(pieces@).push(open_piece@) =~= seq![Seq::<char>::empty()]);
        assert(seen + rest.remaining() =~= text@);
    }
    loop
        invariant
            rest.decrease() is Some,
            seen + rest.remaining() == text@,
            split_lines(seen) == lines_view(pieces@).push(open_piece@),
        decreases rest.decrease()->0,
    {
        let ghost before = rest;
        let ghost done = lines_view(pieces@);
        let ghost was_open = open_piece@;
        match rest.next() {
            Some(c) => {
                proof {
                    assert(seen.push(c) + rest.remaining() =~= seen + before.remaining());
                    assert(seen.push(c).drop_last() =~= seen);
                    assert(done.push(was_open).drop_last() =~= done);
                    seen = seen.push(c);
                }
                if c == '\n' {
                    pieces.push(open_piece);
                    open_piece = String::new();
                    proof {
                        assert(lines_view(pieces@) =~= done.push(was_open));
                    }
                } else {
                    open_piece.push(c);
                }
            },
            None => {
                pieces.push(open_piece);
                proof {
                    assert(seen =~= text@);
                    assert(lines_view(pieces@) =~= done.push(was_open));
                }
                return pieces;
            },
        }
    }
}

/// Takes a snapshot of `text`: its lines, without an empty piece after the
/// last line feed.
pub fn snapshot(text: &str) -> (lines: Vec<String>)
    ensures
        lines_view(lines@) == snapshot_of(text@),
{
    let mut lines = split_text(text);
    let last: usize = lines.len() - 1;
    let ghost pieces = lines_view(lines@);
    assert(pieces.last() == lines@[last as int]@);
    if lines[last].as_str().is_empty() {
        lines.pop();
        proof {
            assert(lines_view(lines@) =~= pieces.drop_last());
        }
    }
    lines
}

/// The text that `String::from_utf8_lossy` decodes `bytes` to: valid UTF-8
/// as the characters it encodes, every invalid sequence as U+FFFD.
pub uninterp spec fn lossy_text(bytes: Seq<u8>) -> Seq<char>;

/// `String::from_utf8_lossy` of std, with its result owned. Decoding never
/// fails, and the text depends on the bytes alone; the contract gives it
/// its name and claims nothing else of it.
#[verifier::external_body]
fn decode_lossy(bytes: &[u8]) -> (text: String)
    ensures
        text@ == lossy_text(bytes@),
{
    String::from_utf8_lossy(bytes).into_owned()
}

/// Takes a snapshot of a command's raw output: decodes it, replacing what
/// is not valid UTF-8, and cuts the text into lines as [`snapshot`] does.
pub fn capture(bytes: &[u8]) -> (lines: Vec<String>)
    ensures
        lines_view(lines@) == snapshot_of(lossy_text(bytes@)),
{
    let text = decode_lossy(bytes);
    snapshot(text.as_str())
}

/// Whether two snapshots hold the same lines in the same order.
pub fn same_lines(a: &Vec<String>, b: &Vec<String>) -> (same: bool)
    ensures
        same == (lines_view(a@) == lines_view(b@)),
{
    if a.len() != b.len() {
        proof {
            assert(lines_view(a@).len() != lines_view(b@).len());
        }
        return false;
    }
    let mut k: usize = 0;
    while k < a.len()
        invariant
            a.len() == b.len(),
            k <= a.len(),
            forall|t: int| 0 <= t < k ==> lines_view(a@)[t] == lines_view(b@)[t],
        decreases a.len() - k,
    {
        if a[k] != b[k] {
            proof {
                assert(lines_view(a@)[k as int] != lines_view(b@)[k as int]);
            }
            return false;
        }
        k += 1;
    }
    proof {
        assert(lines_view(a@) =~= lines_view(b@));
    }
    true
}

} // verus!
