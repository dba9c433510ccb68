use vstd::prelude::*;

verus! {

/// The number of line feeds among the first `n` bytes of `s`.
pub open spec fn lf_count(s: Seq<u8>, n: int) -> nat
    decreases n,
{
    if n <= 0 {
        0
    } else {
        lf_count(s, n - 1) + if s[n - 1] == 10u8 {
            1nat
        } else {
            0nat
        }
    }
}

/// The offset of the last line feed among the first `n` bytes of `s`, or 0
/// where there is none.
pub open spec fn last_lf(s: Seq<u8>, n: int) -> int
    decreases n,
{
    if n <= 0 {
        0
    } else if s[n - 1] == 10u8 {
        n - 1
    } else {
        last_lf(s, n - 1)
    }
}

proof fn lemma_last_lf_bounded(s: Seq<u8>, n: int)
    ensures
        0 <= last_lf(s, n),
        n > 0 ==> last_lf(s, n) < n,
    decreases n,
{
    if n > 0 {
        lemma_last_lf_bounded(s, n - 1);
    }
}

proof fn lemma_lf_count_bounded(s: Seq<u8>, n: int)
    ensures
        n >= 0 ==> lf_count(s, n) <= n,
    decreases n,
{
    if n > 0 {
        lemma_lf_count_bounded(s, n - 1);
    }
}

/// A scan of one file's content that moves forward from match to match,
/// counting line feeds, so that each match's line and offset in its line
/// are found without going back to the start.
#[derive(Clone, Copy, Debug, PartialEq, Eq, Structural)]
pub struct LinePosition {
    pub pos: usize,
    pub column: usize,
    pub last_lf: usize,
}

impl LinePosition {
    /// The scan has covered the first `pos` bytes of `src`.
    pub open spec fn wf(&self, src: Seq<u8>) -> bool {
        &&& self.pos <= src.len()
        &&& self.column == lf_count(src, self.pos as int)
        &&& self.last_lf == last_lf(src, self.pos as int)
    }

    pub fn new() -> (r: Self)
        ensures
            r.pos == 0,
            forall|src: Seq<u8>| #[trigger] r.wf(src),
    {
        LinePosition { pos: 0, column: 0, last_lf: 0 }
    }

    /// Moves the scan up to `beg`, where the next match starts. A scan that
    /// is already past `beg` stays where it is.
    pub fn advance(&mut self, src: &[u8], beg: usize)
        requires
            old(self).wf(src@),
            beg <= src@.len(),
        ensures
            final(self).wf(src@),
            final(self).pos == if beg > old(self).pos {
                beg
            } else {
                old(self).pos
            },
    {
        while self.pos < beg
            invariant
                self.wf(src@),
                beg <= src@.len(),
                self.pos >= old(self).pos,
                old(self).pos <= beg ==> self.pos <= beg,
                old(self).pos > beg ==> self.pos == old(self).pos,
            decreases beg - self.pos,
        {
            proof {
                lemma_lf_count_bounded(src@, self.pos as int);
            }
            if src[self.pos] == 10u8 {
                self.column = self.column + 1;
                self.last_lf = self.pos;
            }
            self.pos = self.pos + 1;
        }
    }

    /// The 1-based line number of the position reached.
    pub fn line_number(&self, src: &[u8]) -> (r: usize)
        requires
            self.wf(src@),
            src@.len() < usize::MAX,
        ensures
            r == lf_count(src@, self.pos as int) + 1,
    {
        proof {
            lemma_lf_count_bounded(src@, self.pos as int);
        }
        self.column + 1
    }

    /// The distance from the last line feed before the scan's position to
    /// `beg` (from the start of the content where there is none).
    pub fn offset_in_line(&self, src: &[u8], beg: usize) -> (r: usize)
        requires
            self.wf(src@),
            self.pos == beg,
        ensures
            r == beg - last_lf(src@, beg as int),
    {
        proof {
            lemma_last_lf_bounded(src@, beg as int);
        }
        beg - self.last_lf
    }
}

} // verus!
