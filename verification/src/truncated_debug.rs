//! Text for the log, cut to a length.

use vstd::prelude::*;

verus! {

/// A value whose text is cut after `N` characters.
#[derive(Debug, Clone, Copy)]
pub struct TruncatedDebug<'a, T, const N: usize>(pub &'a T);

/// Takes a text in pieces and keeps its beginning.
#[derive(Debug)]
pub struct TruncatingWriter {
    out: String,
    chars_remaining: usize,
    truncated: bool,
}

/// What a writer has taken.
pub ghost struct Written {
    pub text: Seq<char>,
    pub room: nat,
    pub cut: bool,
}

impl View for TruncatingWriter {
    type V = Written;

    closed spec fn view(&self) -> Written {
        Written { text: self.out@, room: self.chars_remaining as nat, cut: self.truncated }
    }
}

/// What a writer has taken after another piece. Without room left, any piece
/// counts as cut.
pub open spec fn written(before: Written, piece: Seq<char>) -> Written {
    if before.room == 0 {
        Written { text: before.text, room: 0, cut: true }
    } else if piece.len() > before.room {
        Written { text: before.text + piece.take(before.room as int), room: 0, cut: true }
    } else {
        Written { text: before.text + piece, room: (before.room - piece.len()) as nat, cut: before.cut }
    }
}

/// What a writer has taken after some pieces.
pub open spec fn written_all(before: Written, pieces: Seq<String>) -> Written
    decreases pieces.len(),
{
    if pieces.len() == 0 {
        before
    } else {
        written(written_all(before, pieces.drop_last()), pieces.last()@)
    }
}

/// A writer with room for `n` characters that has taken nothing.
pub open spec fn fresh(n: nat) -> Written {
    Written { text: Seq::empty(), room: n, cut: false }
}

/// The text that a writer ends with: marked where it was cut.
pub open spec fn ended(end: Written) -> Seq<char> {
    if end.cut {
        end.text + "… "@
    } else {
        end.text
    }
}

impl TruncatingWriter {
    pub fn new(limit: usize) -> (writer: TruncatingWriter)
        ensures
            writer@ == fresh(limit as nat),
    {
        TruncatingWriter { out: String::new(), chars_remaining: limit, truncated: false }
    }

    /// Takes another piece.
    pub fn write_str(&mut self, s: &str)
        ensures
            final(self)@ == written(old(self)@, s@),
    {
        if self.chars_remaining == 0 {
            self.truncated = true;
            return;
        }
        let count: usize = s.unicode_len();
        if count > self.chars_remaining {
            self.truncated = true;
            let kept: &str = s.substring_char(0, self.chars_remaining);
            assert(kept@ =~= s@.take(self.chars_remaining as int));
            self.out.append(kept);
            self.chars_remaining = 0;
            return;
        }
        self.chars_remaining = self.chars_remaining - count;
        self.out.append(s);
    }

    /// The text, marked where it was cut.
    pub fn finish(self) -> (text: String)
        ensures
            text@ == ended(self@),
    {
        let mut text: String = self.out;
        if self.truncated {
            text.append("… ");
        }
        text
    }
}

impl<'a, T, const N: usize> TruncatedDebug<'a, T, N> {
    /// The text of the value, which comes in pieces.
    pub fn render(&self, pieces: &Vec<String>) -> (text: String)
        ensures
            text@ == ended(written_all(fresh(N as nat), pieces@)),
    {
        let mut writer = TruncatingWriter::new(N);
        let mut i: usize = 0;
        while i < pieces.len()
            invariant
                i <= pieces@.len(),
                writer@ == written_all(fresh(N as nat), pieces@.take(i as int)),
            decreases pieces@.len() - i,
        {
            assert(pieces@.take(i + 1).drop_last() =~= pieces@.take(i as int));
            writer.write_str(pieces[i].as_str());
            i = i + 1;
        }
        assert(pieces@.take(pieces@.len() as int) =~= pieces@);
        writer.finish()
    }
}

/// All the pieces of a text, one after the other.
pub open spec fn joined(pieces: Seq<String>) -> Seq<char>
    decreases pieces.len(),
{
    if pieces.len() == 0 {
        Seq::empty()
    } else {
        joined(pieces.drop_last()) + pieces.last()@
    }
}

/// Whatever pieces a text comes in, its first characters are kept: all of
/// them where there is room, and as many as there is room for otherwise. A
/// text that lost a character is marked as cut.
pub proof fn law_keeps_the_beginning(n: nat, pieces: Seq<String>)
    ensures
        ({
            let whole = joined(pieces);
            let end = written_all(fresh(n), pieces);
            &&& end.text == (if whole.len() <= n {
                whole
            } else {
                whole.take(n as int)
            })
            &&& whole.len() > n ==> end.cut
            &&& end.room == (if whole.len() <= n {
                n - whole.len()
            } else {
                0
            })
        }),
    decreases pieces.len(),
{
    if pieces.len() > 0 {
        law_keeps_the_beginning(n, pieces.drop_last());
        let before = joined(pieces.drop_last());
        let piece = pieces.last()@;
        let whole = joined(pieces);
        let end = written_all(fresh(n), pieces);
        if before.len() >= n {
            assert(whole.take(n as int) =~= before.take(n as int));
            assert(before.take(before.len() as int) =~= before);
            if whole.len() <= n {
                assert(whole =~= before);
            }
            assert(end.text =~= if whole.len() <= n { whole } else { whole.take(n as int) });
        } else if whole.len() > n {
            assert(whole.take(n as int) =~= before + piece.take(n - before.len()));
        }
    }
}

/// A text that is shorter than the limit is never marked as cut.
pub proof fn law_short_text_is_not_cut(n: nat, pieces: Seq<String>)
    requires
        joined(pieces).len() < n,
    ensures
        !written_all(fresh(n), pieces).cut,
    decreases pieces.len(),
{
    if pieces.len() > 0 {
        law_short_text_is_not_cut(n, pieces.drop_last());
        law_keeps_the_beginning(n, pieces.drop_last());
    }
}

} // verus!
