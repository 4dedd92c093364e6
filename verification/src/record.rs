//! The log record.
//!
//! The decoded lines, in arrival order. Every sink implementation must
//! persist exactly this: appends never disturb what came before, and the
//! order the decoder handed the lines over in is kept end to end.

use vstd::prelude::*;

verus! {

/// An ordered, append-only record of decoded log lines.
pub struct LogRecord {
    lines: Vec<String>,
}

impl View for LogRecord {
    type V = Seq<Seq<char>>;

    closed spec fn view(&self) -> Seq<Seq<char>> {
        self.lines.deep_view()
    }
}

impl LogRecord {
    /// An empty record.
    pub fn new() -> (record: LogRecord)
        ensures
            record@ == Seq::<Seq<char>>::empty(),
    {
        let record = LogRecord { lines: Vec::new() };
        proof {
            assert(record@ =~= Seq::<Seq<char>>::empty());
        }
        record
    }

    /// How many lines the record holds.
    pub fn len(&self) -> (n: usize)
        ensures
            n == self@.len(),
    {
        self.lines.len()
    }

    /// Append one line at the end. Nothing already recorded moves.
    pub fn append_line(&mut self, line: String)
        ensures
            final(self)@ == old(self)@.push(line@),
            final(self)@.take(old(self)@.len() as int) == old(self)@,
    {
        self.lines.push(line);
        proof {
            assert(self@ =~= old(self)@.push(line@));
            assert(self@.take(old(self)@.len() as int) =~= old(self)@);
        }
    }

    /// Append a batch of lines at the end, keeping their order. Nothing
    /// already recorded moves.
    pub fn append_lines(&mut self, lines: &Vec<String>)
        ensures
            final(self)@ == old(self)@ + lines.deep_view(),
            final(self)@.take(old(self)@.len() as int) == old(self)@,
    {
        let n = lines.len();
        let mut i: usize = 0;
        while i < n
            invariant
                i <= n,
                n == lines@.len(),
                self@ == old(self)@ + lines.deep_view().take(i as int),
            decreases n - i,
        {
            let line = lines[i].clone();
            let ghost before = self@;
            self.lines.push(line);
            i += 1;
            proof {
                assert(self@ =~= before.push(lines@[i - 1]@));
                assert(self@ =~= old(self)@ + lines.deep_view().take(i as int));
            }
        }
        proof {
            assert(lines.deep_view().take(n as int) =~= lines.deep_view());
            assert(self@.take(old(self)@.len() as int) =~= old(self)@);
        }
    }

    /// Read one recorded line.
    pub fn line(&self, i: usize) -> (line: &String)
        requires
            i < self@.len(),
        ensures
            line@ == self@[i as int],
    {
        &self.lines[i]
    }
}

} // verus!
