//! The log inside the window: the last lines that were written.

use std::collections::VecDeque;

use vstd::prelude::*;
use vstd::utf8::{decode_utf8, valid_utf8};

use crate::ring::{keep_last, last_of};
use crate::text::{from_utf8, chars_of, find_char, index_of_char, joined, text_of};

verus! {

/// How many lines are kept.
pub const MAX_LINES: usize = 1000;

/// The line without the carriage return at its end.
pub open spec fn without_return(line: Seq<char>) -> Seq<char> {
    if line.len() > 0 && line.last() == '\r' {
        line.drop_last()
    } else {
        line
    }
}

/// The lines of a text that are not empty. A line ends with a line feed, with or without
/// a carriage return before it; the last one may do without.
pub open spec fn lines_of(s: Seq<char>) -> Seq<Seq<char>>
    decreases s.len(),
{
    if s.len() == 0 {
        Seq::empty()
    } else {
        let end = index_of_char(s, '\n');
        if end < 0 || end >= s.len() {
            seq![s]
        } else {
            let line = without_return(s.take(end));
            let rest = lines_of(s.skip(end + 1));
            if line.len() == 0 {
                rest
            } else {
                seq![line] + rest
            }
        }
    }
}

/// The lines that are kept.
pub struct GuiWriter {
    lines: VecDeque<String>,
}

impl View for GuiWriter {
    type V = Seq<Seq<char>>;

    closed spec fn view(&self) -> Seq<Seq<char>> {
        self.lines@.map_values(|s: String| s@)
    }
}

/// A log without lines.
pub fn writer() -> (r: GuiWriter)
    ensures
        r@ == Seq::<Seq<char>>::empty(),
{
    let r = GuiWriter { lines: VecDeque::new() };
    assert(r@ =~= Seq::<Seq<char>>::empty());
    r
}

/// How many lines there are.
pub fn len(log: &GuiWriter) -> (r: usize)
    ensures
        r == log@.len(),
{
    log.lines.len()
}

/// All lines, one below the other.
pub fn snapshot(log: &GuiWriter) -> (r: String)
    ensures
        r@ == joined(log@, "\n"@),
{
    let ghost all = log@;
    let mut out = String::new();
    let mut i: usize = 0;
    assert(all.take(0) =~= Seq::<Seq<char>>::empty());
    while i < log.lines.len()
        invariant
            i <= log.lines@.len(),
            all == log@,
            all.len() == log.lines@.len(),
            out@ == joined(all.take(i as int), "\n"@),
        decreases log.lines@.len() - i,
    {
        if i > 0 {
            out.append("\n");
        }
        out.append(log.lines[i].as_str());
        assert(all.take(i + 1).drop_last() =~= all.take(i as int));
        assert(all.take(i + 1).last() == log.lines@[i as int]@);
        i = i + 1;
        assert(out@ =~= joined(all.take(i as int), "\n"@));
    }
    assert(all.take(i as int) =~= all);
    out
}

impl GuiWriter {
    fn push_lines(&mut self, text: &str)
        ensures
            final(self)@ == old(self)@ + lines_of(text@),
    {
        let chars = chars_of(text);
        let n: usize = chars.len();
        let mut start: usize = 0;
        assert(chars@.skip(0) =~= chars@);
        while start < n
            invariant
                start <= n,
                n == chars@.len(),
                self@ + lines_of(chars@.skip(start as int)) == old(self)@ + lines_of(chars@),
            decreases n - start,
        {
            let ghost before = self@;
            let ghost s = chars@.skip(start as int);
            let end: usize = find_char(&chars, start, '\n');
            let mut stop: usize = end;
            if end < n && stop > start && chars[stop - 1] == '\r' {
                stop = stop - 1;
            }
            let line = text_of(&chars, start, stop);
            let ghost l = line@;
            proof {
                if end < n {
                    assert(s.take(end - start) =~= chars@.subrange(start as int, end as int));
                    assert(without_return(s.take(end - start)) =~= l);
                    assert(s.skip(end - start + 1) =~= chars@.skip(end + 1));
                } else {
                    assert(s =~= l);
                    assert(chars@.skip(n as int) =~= Seq::<char>::empty());
                }
            }
            if stop > start {
                self.lines.push_back(line);
                assert(self@ =~= before.push(l));
            }
            if end < n {
                start = end + 1;
            } else {
                start = n;
            }
            assert(self@ + lines_of(chars@.skip(start as int)) =~= before + lines_of(s));
        }
        assert(chars@.skip(n as int) =~= Seq::<char>::empty());
        assert(self@ + Seq::<Seq<char>>::empty() =~= self@);
    }

    /// Takes in what was written: its lines go to the end, and the oldest go where there
    /// are too many. What is not UTF-8 is passed over. Tells how many bytes were taken in, which
    /// is all of them.
    pub fn write(&mut self, data: &[u8]) -> (r: usize)
        ensures
            r == data@.len(),
            final(self)@ == (if valid_utf8(data@) {
                last_of(old(self)@ + lines_of(decode_utf8(data@)), MAX_LINES as nat)
            } else {
                old(self)@
            }),
    {
        match from_utf8(data) {
            Some(text) => {
                self.push_lines(text);
                let ghost all = self@;
                keep_last(&mut self.lines, MAX_LINES);
                assert(self@ =~= last_of(all, MAX_LINES as nat));
            },
            None => {},
        }
        data.len()
    }
}

/// However much is written, no more than the most lines are kept, and they are the last
/// ones.
pub proof fn lemma_log_is_bounded(old_lines: Seq<Seq<char>>, new_lines: Seq<Seq<char>>)
    ensures
        last_of(old_lines + new_lines, MAX_LINES as nat).len() <= MAX_LINES,
        new_lines.len() <= MAX_LINES ==> last_of(
            last_of(old_lines + new_lines, MAX_LINES as nat),
            new_lines.len(),
        ) == new_lines,
{
    let kept = last_of(old_lines + new_lines, MAX_LINES as nat);
    assert(last_of(kept, new_lines.len()) =~= if new_lines.len() <= MAX_LINES {
        new_lines
    } else {
        kept
    });
}

} // verus!
