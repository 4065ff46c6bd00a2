//! Plain text as sequences of characters: indentation, lines, and joining.

use vstd::prelude::*;

verus! {

/// New-line character.
pub const NL: char = '\n';

/// White-space string.
pub const WS: &'static str = " ";

/// `n` space characters.
pub open spec fn spaces(n: nat) -> Seq<char> {
    Seq::new(n, |i: int| ' ')
}

/// The first `n` of `parts`, with a newline between each two neighbours.
pub open spec fn join_first(parts: Seq<Seq<char>>, n: nat) -> Seq<char>
    decreases n,
{
    if n == 0 {
        Seq::empty()
    } else if n == 1 {
        parts[0]
    } else {
        join_first(parts, (n - 1) as nat) + seq!['\n'] + parts[n - 1]
    }
}

/// All of `parts`, with a newline between each two neighbours.
pub open spec fn join_lines(parts: Seq<Seq<char>>) -> Seq<char> {
    join_first(parts, parts.len())
}

/// The position of the first newline of `s` at or after `from`, or the length
/// of `s` where there is none.
pub open spec fn line_end(s: Seq<char>, from: int) -> int
    decreases s.len() - from,
{
    if from < 0 || from >= s.len() {
        s.len() as int
    } else if s[from] == '\n' {
        from
    } else {
        line_end(s, from + 1)
    }
}

/// `line` without one carriage return at its end, if it has one there.
pub open spec fn strip_cr(line: Seq<char>) -> Seq<char> {
    if line.len() > 0 && line.last() == '\r' {
        line.drop_last()
    } else {
        line
    }
}

/// The lines of `s` that begin at or after `from`, where `from` is the start
/// of a line.
///
/// A line ends at a newline, or at a carriage return directly before a
/// newline; neither belongs to the line. What follows the last newline is a
/// line of its own unless it is empty, and keeps a carriage return at its end.
pub open spec fn lines_from(s: Seq<char>, from: int) -> Seq<Seq<char>>
    decreases s.len() - from,
    via lines_from_decreases
{
    if from < 0 || from >= s.len() {
        Seq::empty()
    } else {
        let end = line_end(s, from);
        if end >= s.len() {
            seq![s.subrange(from, s.len() as int)]
        } else {
            seq![strip_cr(s.subrange(from, end))] + lines_from(s, end + 1)
        }
    }
}

#[via_fn]
proof fn lines_from_decreases(s: Seq<char>, from: int) {
    if 0 <= from < s.len() {
        lemma_line_end(s, from);
    }
}

/// The lines of `s`.
pub open spec fn lines(s: Seq<char>) -> Seq<Seq<char>> {
    lines_from(s, 0)
}

/// The texts of a sequence of strings, in order.
pub open spec fn texts(strings: Seq<String>) -> Seq<Seq<char>> {
    Seq::new(strings.len(), |i: int| strings[i]@)
}

/// The texts of a sequence of string slices, in order.
pub open spec fn slice_texts(slices: Seq<&str>) -> Seq<Seq<char>> {
    Seq::new(slices.len(), |i: int| slices[i]@)
}

/// `line_end` lies between `from` and the length, marks a newline where it is
/// inside `s`, and passes over no newline.
pub proof fn lemma_line_end(s: Seq<char>, from: int)
    requires
        0 <= from <= s.len(),
    ensures
        from <= line_end(s, from) <= s.len(),
        line_end(s, from) < s.len() ==> s[line_end(s, from)] == '\n',
        forall|k: int| from <= k < line_end(s, from) ==> s[k] != '\n',
    decreases s.len() - from,
{
    if from < s.len() && s[from] != '\n' {
        lemma_line_end(s, from + 1);
    }
}

/// Where no newline lies between `from` and `to`, the line that begins at
/// `from` ends where the one that begins at `to` does.
pub proof fn lemma_line_end_skips(s: Seq<char>, from: int, to: int)
    requires
        0 <= from <= to <= s.len(),
        forall|k: int| from <= k < to ==> s[k] != '\n',
    ensures
        line_end(s, from) == line_end(s, to),
    decreases to - from,
{
    if from < to {
        lemma_line_end_skips(s, from + 1, to);
    }
}

/// Spaces after spaces are spaces: the counts add up.
pub proof fn lemma_spaces_add(a: nat, b: nat)
    ensures
        spaces(a) + spaces(b) == spaces(a + b),
{
    assert(spaces(a) + spaces(b) =~= spaces(a + b));
}

/// `String::push` of the standard library: the string grows by the one
/// character given, at its end, and is otherwise unchanged.
pub assume_specification[ String::push ](s: &mut String, c: char)
    ensures
        final(s)@ == old(s)@.push(c),
;

/// A string of `n` spaces.
pub fn spaces_of(n: usize) -> (out: String)
    ensures
        out@ == spaces(n as nat),
{
    let mut out = String::new();
    let mut i: usize = 0;
    while i < n
        invariant
            i <= n,
            out@ == spaces(i as nat),
        decreases n - i,
    {
        out.append(WS);
        proof {
            reveal_strlit(" ");
            assert(spaces(i as nat) + WS@ =~= spaces((i + 1) as nat));
        }
        i = i + 1;
    }
    out
}

/// Splits `text` into its lines.
pub fn split_lines(text: &str) -> (out: Vec<String>)
    ensures
        texts(out@) == lines(text@),
{
    let mut out: Vec<String> = Vec::new();
    let mut line = String::new();
    // A carriage return was read last and is not yet part of `line`.
    let mut held_cr = false;
    // Something was read since the last newline.
    let mut open = false;
    let ghost mut start: int = 0;
    for c in it: text.chars()
        invariant
            it.seq() == text@,
            0 <= start <= it.index() <= text@.len(),
            forall|k: int| start <= k < it.index() ==> text@[k] != '\n',
            open == (start < it.index()),
            line@ + (if held_cr {
                seq!['\r']
            } else {
                Seq::<char>::empty()
            }) == text@.subrange(start, it.index() as int),
            !held_cr ==> line@.len() == 0 || line@.last() != '\r',
            texts(out@) + lines_from(text@, start) == lines(text@),
    {
        let ghost pos = it.index() as int;
        let ghost seen = text@.subrange(start, pos);
        assert(text@.subrange(start, pos + 1) == seen.push(c));
        if c == '\n' {
            proof {
                lemma_line_end_skips(text@, start, pos);
                assert(strip_cr(seen) == line@) by {
                    if held_cr {
                        assert(seen.drop_last() == line@);
                    }
                }
                assert(texts(out@.push(line)) == texts(out@).push(line@));
                assert(texts(out@).push(line@) + lines_from(text@, pos + 1)
                    == texts(out@) + lines_from(text@, start));
                start = pos + 1;
            }
            out.push(line);
            line = String::new();
            held_cr = false;
            open = false;
        } else if c == '\r' {
            if held_cr {
                line.push('\r');
            }
            held_cr = true;
            open = true;
        } else {
            if held_cr {
                line.push('\r');
                held_cr = false;
            }
            line.push(c);
            open = true;
        }
    }
    let ghost len = text@.len() as int;
    if open {
        if held_cr {
            line.push('\r');
        }
        proof {
            lemma_line_end_skips(text@, start, len);
            assert(line@ == text@.subrange(start, len));
            assert(lines_from(text@, start) == seq![line@]);
            assert(texts(out@.push(line)) == texts(out@).push(line@));
            assert(texts(out@).push(line@) == texts(out@) + seq![line@]);
        }
        out.push(line);
    } else {
        assert(texts(out@) + lines_from(text@, start) == texts(out@));
    }
    out
}

/// Joins `parts` into one string, with a newline between each two neighbours.
pub fn join_strs(parts: &[&str]) -> (out: String)
    ensures
        out@ == join_lines(slice_texts(parts@)),
{
    let ghost all = slice_texts(parts@);
    let mut out = String::new();
    let mut i: usize = 0;
    while i < parts.len()
        invariant
            i <= parts.len(),
            all == slice_texts(parts@),
            out@ == join_first(all, i as nat),
        decreases parts.len() - i,
    {
        if i > 0 {
            out.push(NL);
        }
        out.append(parts[i]);
        assert(all[i as int] == parts@[i as int]@);
        i = i + 1;
    }
    out
}

} // verus!
