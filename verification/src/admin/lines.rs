//! Text in lines.

use crate::text::{first_index_of, law_decimal_reads_back, lemma_first_index_is, lemma_first_index_of};
use vstd::prelude::*;

verus! {

/// The lines of a text, without the breaks that end them.
pub open spec fn lines_of(text: Seq<char>) -> Seq<Seq<char>>
    decreases text.len(),
{
    let at = first_index_of(text, '\n');
    if text.len() == 0 {
        Seq::empty()
    } else if 0 <= at < text.len() {
        seq![text.take(at)] + lines_of(text.skip(at + 1))
    } else {
        seq![text]
    }
}

/// Whether a text holds no line break.
pub open spec fn on_one_line(text: Seq<char>) -> bool {
    !text.contains('\n')
}

/// Whether a text ends with a line break, or is empty.
pub open spec fn whole_lines(text: Seq<char>) -> bool {
    text.len() == 0 || text.last() == '\n'
}

/// A text that begins with a line has that line first.
pub proof fn lemma_first_line(line: Seq<char>, rest: Seq<char>)
    requires
        on_one_line(line),
    ensures
        lines_of(line + "\n"@ + rest) == seq![line] + lines_of(rest),
{
    reveal_strlit("\n");
    let text = line + "\n"@ + rest;
    assert forall|i: int| 0 <= i < line.len() implies text[i] != '\n' by {
        assert(text[i] == line[i]);
        assert(line.contains(line[i]));
    }
    assert(text[line.len() as int] == '\n');
    lemma_first_index_is(text, '\n', line.len() as int);
    assert(text.take(line.len() as int) =~= line);
    assert(text.skip(line.len() as int + 1) =~= rest);
}

/// The lines of two texts, the first of which ends with a line break.
pub proof fn lemma_lines_of_both(first: Seq<char>, second: Seq<char>)
    requires
        whole_lines(first),
    ensures
        lines_of(first + second) == lines_of(first) + lines_of(second),
        whole_lines(second) ==> whole_lines(first + second),
    decreases first.len(),
{
    if first.len() == 0 {
        assert(first + second =~= second);
        assert(lines_of(first) + lines_of(second) =~= lines_of(second));
    } else {
        reveal_strlit("\n");
        let at = first_index_of(first, '\n');
        lemma_first_index_of(first, '\n');
        if at == first.len() {
            assert(first[first.len() - 1] != '\n');
        }
        let line = first.take(at);
        let rest = first.skip(at + 1);
        assert(on_one_line(line)) by {
            if line.contains('\n') {
                let i = choose|i: int| 0 <= i < line.len() && line[i] == '\n';
                assert(first[i] == '\n');
            }
        }
        assert(whole_lines(rest)) by {
            if rest.len() > 0 {
                assert(rest.last() == first.last());
            }
        }
        assert(first =~= line + "\n"@ + rest);
        assert(first + second =~= line + "\n"@ + (rest + second));
        lemma_first_line(line, rest);
        lemma_first_line(line, rest + second);
        lemma_lines_of_both(rest, second);
        assert(seq![line] + (lines_of(rest) + lines_of(second)) =~= (seq![line] + lines_of(rest)) + lines_of(second));
    }
}

/// A line with its break, behind other lines.
pub proof fn lemma_another_line(first: Seq<char>, line: Seq<char>)
    requires
        whole_lines(first),
        on_one_line(line),
    ensures
        lines_of(first + (line + "\n"@)) == lines_of(first).push(line),
        whole_lines(first + (line + "\n"@)),
{
    reveal_strlit("\n");
    lemma_lines_of_both(first, line + "\n"@);
    lemma_first_line(line, Seq::empty());
    assert(line + "\n"@ + Seq::<char>::empty() =~= line + "\n"@);
    assert(lines_of(Seq::<char>::empty()) =~= Seq::empty());
    assert(lines_of(first) + (seq![line] + Seq::empty()) =~= lines_of(first).push(line));
}

/// Two texts on one line make one on one line.
pub proof fn lemma_joined_on_one_line(a: Seq<char>, b: Seq<char>)
    requires
        on_one_line(a),
        on_one_line(b),
    ensures
        on_one_line(a + b),
{
    if (a + b).contains('\n') {
        let i = choose|i: int| 0 <= i < (a + b).len() && (a + b)[i] == '\n';
        if i < a.len() {
            assert(a[i] == '\n');
        } else {
            assert(b[i - a.len()] == '\n');
        }
    }
}

/// A number is on one line.
pub proof fn lemma_number_on_one_line(n: nat)
    ensures
        on_one_line(crate::text::decimal(n)),
{
    law_decimal_reads_back(n);
    let text = crate::text::decimal(n);
    if text.contains('\n') {
        let i = choose|i: int| 0 <= i < text.len() && text[i] == '\n';
        assert('0' as int <= text[i] as int);
    }
}

/// A line of two lists of lines is a line of one of them.
pub proof fn lemma_in_either(a: Seq<Seq<char>>, b: Seq<Seq<char>>, line: Seq<char>)
    ensures
        (a + b).contains(line) <==> a.contains(line) || b.contains(line),
{
    let both = a + b;
    if a.contains(line) {
        let i = choose|i: int| 0 <= i < a.len() && a[i] == line;
        assert(both[i] == line);
    }
    if b.contains(line) {
        let i = choose|i: int| 0 <= i < b.len() && b[i] == line;
        assert(both[a.len() + i] == line);
    }
    if both.contains(line) {
        let i = choose|i: int| 0 <= i < both.len() && both[i] == line;
        if i < a.len() {
            assert(a[i] == line);
        } else {
            assert(b[i - a.len()] == line);
        }
    }
}

} // verus!
