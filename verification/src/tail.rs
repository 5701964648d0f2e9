//! Following a growing log file: where to read next, and the lines read turned
//! into log lines. The watching and reading are the caller's.
use vstd::prelude::*;
use crate::metadata::Metadata;
use crate::plugins::{LineView, LogLine, lines_wf, lv, single};
use crate::text::{chars_of, utf8_len};

verus! {

/// The byte offset up to which a followed file has been read.
pub struct TailCursor {
    pub pos: u64,
}

/// Bytes that the lines took in the file, each with its line break.
pub open spec fn bytes_with_breaks(lines: Seq<Seq<char>>) -> nat
    decreases lines.len(),
{
    if lines.len() == 0 {
        0
    } else {
        bytes_with_breaks(lines.drop_last()) + utf8_len(lines.last()) + 1
    }
}

/// A line read while following a file: no number, the text itself as display text.
pub open spec fn tailed_line(content: Seq<char>) -> LineView {
    LineView {
        line_number: 0,
        content,
        level: None,
        timestamp: None,
        formatted_content: Some(content),
        metadata: Map::empty(),
        processed_by: seq!["tail"@],
    }
}

impl TailCursor {
    /// Starts at the current end of the file.
    pub fn new(file_len: u64) -> (r: TailCursor)
        ensures
            r.pos == file_len,
    {
        TailCursor { pos: file_len }
    }

    /// The file changed and is now `current_len` bytes long: a file that shrank is
    /// read again from the start. Returns the offset to read from when there is
    /// something new.
    pub fn on_change(&mut self, current_len: u64) -> (r: Option<u64>)
        ensures
            final(self).pos == if current_len < old(self).pos {
                0
            } else {
                old(self).pos
            },
            r == if current_len > final(self).pos {
                Some(final(self).pos)
            } else {
                None::<u64>
            },
    {
        if current_len < self.pos {
            self.pos = 0;
        }
        if current_len > self.pos {
            Some(self.pos)
        } else {
            None
        }
    }

    /// Records the lines read from the offset and turns them into log lines.
    pub fn on_lines(&mut self, lines: &Vec<String>) -> (r: Vec<LogLine>)
        requires
            old(self).pos + bytes_with_breaks(lines@.map_values(|l: String| l@)) <= u64::MAX,
        ensures
            final(self).pos == old(self).pos + bytes_with_breaks(lines@.map_values(|l: String| l@)),
            lv(r@) == lines@.map_values(|l: String| tailed_line(l@)),
            lines_wf(r@),
    {
        let ghost ls = lines@.map_values(|l: String| l@);
        let ghost start = self.pos;
        let mut out: Vec<LogLine> = Vec::new();
        let mut i: usize = 0;
        while i < lines.len()
            invariant
                i <= lines@.len(),
                ls == lines@.map_values(|l: String| l@),
                start + bytes_with_breaks(ls) <= u64::MAX,
                self.pos == start + bytes_with_breaks(ls.take(i as int)),
                lv(out@) == lines@.take(i as int).map_values(|l: String| tailed_line(l@)),
                lines_wf(out@),
            decreases lines.len() - i,
        {
            assert(ls.take(i as int + 1).drop_last() =~= ls.take(i as int));
            proof {
                lemma_bytes_prefix(ls, i as int + 1);
            }
            let c = chars_of(lines[i].as_str());
            let n = crate::bytes::utf8_len_wide(&c);
            self.pos = self.pos + (n as u64) + 1;
            let l = LogLine {
                line_number: 0,
                content: lines[i].clone(),
                level: None,
                timestamp: None,
                formatted_content: Some(lines[i].clone()),
                metadata: Metadata::new(),
                processed_by: single("tail"),
            };
            let ghost prev = out@;
            out.push(l);
            assert(lv(out@) =~= lv(prev).push(l@));
            assert(l@ =~= tailed_line(lines@[i as int]@));
            assert(lines@.take(i as int + 1) =~= lines@.take(i as int).push(lines@[i as int]));
            assert(lv(out@) =~= lines@.take(i as int + 1).map_values(|l: String| tailed_line(l@)));
            i = i + 1;
        }
        assert(ls.take(lines@.len() as int) =~= ls);
        assert(lines@.take(lines@.len() as int) =~= lines@);
        out
    }
}

/// The bytes of a prefix of the lines are at most those of all of them.
pub proof fn lemma_bytes_prefix(ls: Seq<Seq<char>>, n: int)
    requires
        0 <= n <= ls.len(),
    ensures
        bytes_with_breaks(ls.take(n)) <= bytes_with_breaks(ls),
    decreases ls.len() - n,
{
    if n < ls.len() {
        lemma_bytes_prefix(ls, n + 1);
        assert(ls.take(n + 1).drop_last() =~= ls.take(n));
    } else {
        assert(ls.take(n) =~= ls);
    }
}

/// After a change is reported, the cursor is within the file.
pub proof fn lemma_cursor_within_file(pos: u64, current_len: u64)
    ensures
        (if current_len < pos {
            0
        } else {
            pos
        }) <= current_len,
{
}

} // verus!
