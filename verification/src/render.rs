use vstd::prelude::*;

use crate::span::Span;

verus! {

/// The borrowed material a rendering pass works against: the file's name
/// and its full byte content.
pub struct Context {
    pub filename: String,
    pub source: Vec<u8>,
}

/// How many newline bytes a text holds.
pub open spec fn count_nl(s: Seq<u8>) -> int
    decreases s.len(),
{
    if s.len() == 0 {
        0
    } else {
        count_nl(s.drop_last()) + if s.last() == 10 {
            1int
        } else {
            0int
        }
    }
}

/// The 1-based line number of a byte position.
pub open spec fn line_of(src: Seq<u8>, pos: int) -> int {
    1 + count_nl(src.subrange(0, pos))
}

/// The offset where the line holding `pos` begins: one past the previous
/// newline, or the start of the text.
pub open spec fn line_start_of(src: Seq<u8>, pos: int) -> int
    decreases pos,
{
    if pos <= 0 {
        0
    } else if src[pos - 1] == 10 {
        pos
    } else {
        line_start_of(src, pos - 1)
    }
}

/// The offset where the line holding `pos` ends: the next newline, or the
/// end of the text.
pub open spec fn line_end_of(src: Seq<u8>, pos: int) -> int
    decreases src.len() - pos,
{
    if pos >= src.len() {
        src.len() as int
    } else if src[pos] == 10 {
        pos
    } else {
        line_end_of(src, pos + 1)
    }
}

/// The 0-based column of a byte position within its line.
pub open spec fn col_of(src: Seq<u8>, pos: int) -> int {
    pos - line_start_of(src, pos)
}

/// The location computation round-trips against the text: the line is one
/// more than the count of newlines before the position, and the column
/// measures from just past the previous newline, there being no newline
/// between that point and the position.
pub proof fn lemma_location_round_trip(src: Seq<u8>, pos: int)
    requires
        0 <= pos <= src.len(),
    ensures
        line_of(src, pos) == 1 + count_nl(src.subrange(0, pos)),
        0 <= line_start_of(src, pos) <= pos,
        line_start_of(src, pos) > 0 ==> src[line_start_of(src, pos) - 1] == 10,
        forall|j: int| line_start_of(src, pos) <= j < pos ==> src[j] != 10,
        col_of(src, pos) == pos - line_start_of(src, pos),
    decreases pos,
{
    if pos > 0 {
        if src[pos - 1] == 10 {
        } else {
            lemma_location_round_trip(src, pos - 1);
        }
    }
}

/// The 1-based line and 0-based column of a byte position.
pub fn line_col(source: &Vec<u8>, pos: usize) -> (lc: (usize, usize))
    requires
        pos <= source@.len(),
        pos < usize::MAX,
    ensures
        lc.0 == line_of(source@, pos as int),
        lc.1 == col_of(source@, pos as int),
{
    let mut line: usize = 1;
    let mut start: usize = 0;
    let mut i: usize = 0;
    proof {
        assert(source@.subrange(0, 0) =~= Seq::<u8>::empty());
    }
    while i < pos
        invariant
            i <= pos,
            pos <= source@.len(),
            pos < usize::MAX,
            line == 1 + count_nl(source@.subrange(0, i as int)),
            line <= i + 1,
            start == line_start_of(source@, i as int),
            start <= i,
        decreases pos - i,
    {
        if source[i] == 10 {
            line = line + 1;
            start = i + 1;
        }
        i = i + 1;
        proof {
            assert(source@.subrange(0, i as int).drop_last() =~= source@.subrange(
                0,
                i - 1 as int,
            ));
            assert(source@.subrange(0, i as int).last() == source@[i - 1 as int]);
        }
    }
    (line, pos - start)
}

/// Where the line holding `pos` begins.
pub fn line_start(source: &Vec<u8>, pos: usize) -> (s: usize)
    requires
        pos <= source@.len(),
    ensures
        s == line_start_of(source@, pos as int),
        s <= pos,
    decreases pos,
{
    if pos == 0 {
        0
    } else if source[pos - 1] == 10 {
        pos
    } else {
        line_start(source, pos - 1)
    }
}

/// Where the line holding `pos` ends.
pub fn line_end(source: &Vec<u8>, pos: usize) -> (e: usize)
    requires
        pos <= source@.len(),
    ensures
        e == line_end_of(source@, pos as int),
        pos <= e <= source@.len(),
    decreases source@.len() - pos,
{
    if pos == source.len() {
        pos
    } else if source[pos] == 10 {
        pos
    } else {
        line_end(source, pos + 1)
    }
}

/// A copy of the bytes in `[start, end)`.
pub fn slice_range(source: &Vec<u8>, start: usize, end: usize) -> (v: Vec<u8>)
    requires
        start <= end <= source@.len(),
    ensures
        v@ == source@.subrange(start as int, end as int),
{
    let mut v: Vec<u8> = Vec::new();
    let mut i: usize = start;
    proof {
        assert(v@ =~= source@.subrange(start as int, start as int));
    }
    while i < end
        invariant
            start <= i <= end,
            end <= source@.len(),
            v@ == source@.subrange(start as int, i as int),
        decreases end - i,
    {
        v.push(source[i]);
        i = i + 1;
        proof {
            assert(v@ =~= source@.subrange(start as int, i as int));
        }
    }
    v
}

/// The byte position that stands for the end of a span when picking its
/// last line: the last byte the span covers, or its start if it is empty.
pub open spec fn span_last_pos(span: Span) -> int {
    if span.hi > span.lo {
        span.hi - 1
    } else {
        span.lo as int
    }
}

/// Everything a caller needs to print a source excerpt for one span:
/// the location of its start, the first and (when distinct) last source
/// lines it covers, whether lines in between were skipped, and how wide
/// the caret underline should be.
pub struct Snippet {
    pub line: usize,
    pub col: usize,
    pub first_line: Vec<u8>,
    pub last_line: Option<Vec<u8>>,
    pub elided: bool,
    pub caret_count: usize,
}

impl Snippet {
    /// What a well-formed snippet for `span` over `src` looks like.
    pub open spec fn wf_for(self, src: Seq<u8>, span: Span) -> bool {
        let lo = span.lo as int;
        let last = span_last_pos(span);
        let single = line_start_of(src, lo) == line_start_of(src, last);
        self.line == line_of(src, lo) && self.col == col_of(src, lo) && self.first_line@
            == src.subrange(line_start_of(src, lo), line_end_of(src, lo)) && (single
            ==> self.last_line is None && self.elided == false) && (!single
            ==> (self.last_line matches Some(l) && l@ == src.subrange(
            line_start_of(src, last),
            line_end_of(src, last),
        ) && self.elided == (line_of(src, last) > line_of(src, lo) + 1))) && (single && span.hi
            > span.lo ==> self.caret_count == span.hi - span.lo) && (single && span.hi == span.lo
            ==> self.caret_count == line_end_of(src, lo) - lo)
    }
}

/// Build the printable excerpt for one span.
pub fn snippet_of(source: &Vec<u8>, span: Span) -> (s: Snippet)
    requires
        span.wf(source@.len() as int),
        source@.len() < usize::MAX,
    ensures
        s.wf_for(source@, span),
{
    let (line, col) = line_col(source, span.lo);
    let fs = line_start(source, span.lo);
    let fe = line_end(source, span.lo);
    let first_line = slice_range(source, fs, fe);
    let last_pos = if span.hi > span.lo {
        span.hi - 1
    } else {
        span.lo
    };
    let ls = line_start(source, last_pos);
    if ls == fs {
        let caret_count = if span.hi > span.lo {
            span.hi - span.lo
        } else {
            fe - span.lo
        };
        Snippet { line, col, first_line, last_line: None, elided: false, caret_count }
    } else {
        let le = line_end(source, last_pos);
        let last_line = slice_range(source, ls, le);
        let (lline, _lcol) = line_col(source, last_pos);
        let flen = first_line.len();
        let llen = last_line.len();
        let caret_count = if flen > llen {
            flen
        } else {
            llen
        };
        Snippet {
            line,
            col,
            first_line,
            last_line: Some(last_line),
            elided: (lline > line && lline - line > 1),
            caret_count,
        }
    }
}

/// A text cannot hold more newlines than bytes, and one whose last byte
/// is not a newline holds strictly fewer.
pub proof fn lemma_count_nl_bound(s: Seq<u8>)
    ensures
        0 <= count_nl(s) <= s.len(),
        s.len() > 0 && s.last() != 10 ==> count_nl(s) <= s.len() - 1,
    decreases s.len(),
{
    if s.len() > 0 {
        lemma_count_nl_bound(s.drop_last());
    }
}

/// The number of lines a text prints as: a trailing newline closes the
/// last line rather than opening a new one, and empty text has none.
pub open spec fn line_count_of(src: Seq<u8>) -> int {
    if src.len() == 0 {
        0
    } else if src.last() == 10 {
        count_nl(src)
    } else {
        count_nl(src) + 1
    }
}

/// The position whose line is the text's last printed line.
pub open spec fn eof_pos_of(src: Seq<u8>) -> int {
    if src.len() == 0 {
        0
    } else if src.last() == 10 {
        src.len() - 1
    } else {
        src.len() as int
    }
}

/// What an end-of-file rendering prints: how many lines the text has, the
/// last line, and the one before it when there is one.
pub fn eof_lines(source: &Vec<u8>) -> (r: (usize, Vec<u8>, Option<Vec<u8>>))
    ensures
        r.0 == line_count_of(source@),
        r.1@ == source@.subrange(
            line_start_of(source@, eof_pos_of(source@)),
            eof_pos_of(source@),
        ),
        line_start_of(source@, eof_pos_of(source@)) == 0 ==> r.2 is None,
        line_start_of(source@, eof_pos_of(source@)) > 0 ==> (r.2 matches Some(p) && p@
            == source@.subrange(
            line_start_of(source@, line_start_of(source@, eof_pos_of(source@)) - 1),
            line_start_of(source@, eof_pos_of(source@)) - 1,
        )),
{
    let mut c: usize = 0;
    let mut i: usize = 0;
    proof {
        assert(source@.subrange(0, 0) =~= Seq::<u8>::empty());
    }
    while i < source.len()
        invariant
            i <= source@.len(),
            c == count_nl(source@.subrange(0, i as int)),
            c <= i,
        decreases source@.len() - i,
    {
        if source[i] == 10 {
            c = c + 1;
        }
        i = i + 1;
        proof {
            assert(source@.subrange(0, i as int).drop_last() =~= source@.subrange(
                0,
                i - 1 as int,
            ));
            assert(source@.subrange(0, i as int).last() == source@[i - 1 as int]);
        }
    }
    proof {
        assert(source@.subrange(0, source@.len() as int) =~= source@);
        lemma_count_nl_bound(source@);
    }
    let count: usize = if source.len() == 0 {
        0
    } else if source[source.len() - 1] == 10 {
        c
    } else {
        c + 1
    };
    let ep: usize = if source.len() == 0 {
        0
    } else if source[source.len() - 1] == 10 {
        source.len() - 1
    } else {
        source.len()
    };
    let ls = line_start(source, ep);
    let last = slice_range(source, ls, ep);
    if ls > 0 {
        let ps = line_start(source, ls - 1);
        let prev = slice_range(source, ps, ls - 1);
        (count, last, Some(prev))
    } else {
        (count, last, None)
    }
}

} // verus!
