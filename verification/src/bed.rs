//! A decoder for the BED format: whitespace-separated columns
//! `chr start end [id [score [strand]]]`, where the trailing three
//! are optional. Blank lines and `#` comments are skipped. The score
//! column is accepted and discarded.

use vstd::prelude::*;

verus! {

use crate::Strand;
use crate::text::{
    all_digits,
    chars_string,
    digits_value,
    is_comment_or_blank,
    lemma_next_content_line,
    parse_usize_from,
    spec_numeric_column,
    spec_next_content_line,
    spec_tokens,
    str_chars,
    whitespace_tokens,
};

/// Errors of the BED decoder.
#[derive(Debug)]
pub enum BedError {
    /// A line with fewer than the three mandatory columns.
    RecordTooShort(String),
    /// A coordinate or strand column that does not parse.
    InvalidField(String),
}

/// The mathematical content of a [`BedRecord`].
pub struct BedData {
    pub chr: Seq<char>,
    pub start: usize,
    pub end: usize,
    pub id: Option<Seq<char>>,
    pub strand: Option<Strand>,
}

/// One row of a BED file, without its score column.
#[derive(Debug)]
pub struct BedRecord {
    chr: String,
    start: usize,
    end: usize,
    id: Option<String>,
    strand: Option<Strand>,
}

impl View for BedRecord {
    type V = BedData;

    closed spec fn view(&self) -> BedData {
        BedData {
            chr: self.chr@,
            start: self.start,
            end: self.end,
            id: match self.id {
                Some(ref s) => Some(s@),
                None => None,
            },
            strand: self.strand,
        }
    }
}

impl BedRecord {
    pub fn id(&self) -> (r: Option<&str>)
        ensures
            match r {
                Some(s) => self@.id == Some(s@),
                None => self@.id is None,
            },
    {
        match &self.id {
            Some(s) => Some(s.as_str()),
            None => None,
        }
    }

    pub fn chr(&self) -> (r: &str)
        ensures
            r@ == self@.chr,
    {
        self.chr.as_str()
    }

    pub fn start(&self) -> (r: usize)
        ensures
            r == self@.start,
    {
        self.start
    }

    pub fn end(&self) -> (r: usize)
        ensures
            r == self@.end,
    {
        self.end
    }

    /// The strand column; a record without one has an unknown strand.
    pub fn strand(&self) -> (r: Strand)
        ensures
            r == match self@.strand {
                Some(d) => d,
                None => Strand::Unknown,
            },
    {
        match self.strand {
            Some(d) => d,
            None => Strand::Unknown,
        }
    }
}

/// What one BED line decodes to, column checks applied in the order
/// the columns are read.
pub open spec fn spec_bed_line(s: Seq<char>) -> Result<BedData, BedError> {
    let cols = spec_tokens(s);
    if cols.len() < 2 {
        Err(BedError::RecordTooShort(arbitrary()))
    } else if !spec_numeric_column(cols[1]) {
        Err(BedError::InvalidField(arbitrary()))
    } else if cols.len() < 3 {
        Err(BedError::RecordTooShort(arbitrary()))
    } else if !spec_numeric_column(cols[2]) {
        Err(BedError::InvalidField(arbitrary()))
    } else if cols.len() >= 6 && Strand::spec_from_code(cols[5]) is None {
        Err(BedError::InvalidField(arbitrary()))
    } else {
        Ok(
            BedData {
                chr: cols[0],
                start: digits_value(cols[1]) as usize,
                end: digits_value(cols[2]) as usize,
                id: if cols.len() >= 4 {
                    Some(cols[3])
                } else {
                    None
                },
                strand: if cols.len() >= 6 {
                    Some(Strand::spec_from_code(cols[5])->Some_0)
                } else {
                    None
                },
            },
        )
    }
}

/// Decodes one BED line. The error payload is the whole offending
/// line.
pub fn parse_bed_line(line: &str) -> (r: Result<BedRecord, BedError>)
    ensures
        r matches Ok(rec) ==> spec_bed_line(line@) matches Ok(d) && rec@ == d,
        r matches Err(e) ==> spec_bed_line(line@) is Err && match e {
            BedError::RecordTooShort(t) => spec_bed_line(line@) matches Err(
                BedError::RecordTooShort(_),
            ) && t@ == line@,
            BedError::InvalidField(t) => spec_bed_line(line@) matches Err(
                BedError::InvalidField(_),
            ) && t@ == line@,
        },
{
    let chars = str_chars(line);
    let cols = whitespace_tokens(&chars);
    let ghost scols = spec_tokens(line@);
    proof {
        assert(cols.deep_view() == scols);
        assert(cols@.len() == scols.len());
    }
    if cols.len() < 2 {
        return Err(BedError::RecordTooShort(line.to_owned()));
    }
    proof {
        assert(cols@[1]@ == scols[1]);
        assert(cols@[1]@.subrange(0, cols@[1]@.len() as int) =~= scols[1]);
    }
    let start = match parse_usize_from(&cols[1], 0) {
        Some(n) => n,
        None => {
            return Err(BedError::InvalidField(line.to_owned()));
        },
    };
    if cols.len() < 3 {
        return Err(BedError::RecordTooShort(line.to_owned()));
    }
    proof {
        assert(cols@[2]@ == scols[2]);
        assert(cols@[2]@.subrange(0, cols@[2]@.len() as int) =~= scols[2]);
    }
    let end = match parse_usize_from(&cols[2], 0) {
        Some(n) => n,
        None => {
            return Err(BedError::InvalidField(line.to_owned()));
        },
    };
    let id = if cols.len() >= 4 {
        proof {
            assert(cols@[3]@ == scols[3]);
        }
        Some(chars_string(&cols[3]))
    } else {
        None
    };
    let strand = if cols.len() >= 6 {
        proof {
            assert(cols@[5]@ == scols[5]);
        }
        let code = chars_string(&cols[5]);
        match Strand::from_code(code.as_str()) {
            Ok(d) => Some(d),
            Err(_) => {
                return Err(BedError::InvalidField(line.to_owned()));
            },
        }
    } else {
        None
    };
    proof {
        assert(cols@[0]@ == scols[0]);
    }
    let chr = chars_string(&cols[0]);
    Ok(BedRecord { chr, start, end, id, strand })
}

/// A restartable reader over the lines of a BED file.
pub struct BedReader {
    pub lines: Vec<String>,
    pub pos: usize,
}

impl BedReader {
    pub open spec fn lines_view(&self) -> Seq<Seq<char>> {
        self.lines.deep_view()
    }

    pub open spec fn pos_view(&self) -> int {
        self.pos as int
    }

    pub open spec fn wf(&self) -> bool {
        0 <= self.pos <= self.lines.deep_view().len()
    }

    /// A reader over the given lines, positioned at the first.
    pub fn new(lines: Vec<String>) -> (r: BedReader)
        ensures
            r.wf(),
            r.lines_view() == lines.deep_view(),
            r.pos_view() == 0,
    {
        BedReader { lines, pos: 0 }
    }

    /// Decodes the next line that is neither blank nor a comment;
    /// nothing is left when only such lines remain.
    pub fn next_record(&mut self) -> (r: Option<Result<BedRecord, BedError>>)
        requires
            old(self).wf(),
        ensures
            final(self).wf(),
            final(self).lines_view() == old(self).lines_view(),
            ({
                let k = spec_next_content_line(old(self).lines_view(), old(self).pos_view());
                match r {
                    None => k == old(self).lines_view().len() && final(self).pos_view() == k,
                    Some(res) => {
                        &&& k < old(self).lines_view().len()
                        &&& final(self).pos_view() == k + 1
                        &&& (res matches Ok(rec) ==> spec_bed_line(
                            old(self).lines_view()[k],
                        ) matches Ok(d) && rec@ == d)
                        &&& (res matches Err(e) ==> spec_bed_line(
                            old(self).lines_view()[k],
                        ) is Err && match e {
                            BedError::RecordTooShort(t) => spec_bed_line(
                                old(self).lines_view()[k],
                            ) matches Err(BedError::RecordTooShort(_)) && t@ == old(
                                self,
                            ).lines_view()[k],
                            BedError::InvalidField(t) => spec_bed_line(
                                old(self).lines_view()[k],
                            ) matches Err(BedError::InvalidField(_)) && t@ == old(
                                self,
                            ).lines_view()[k],
                        })
                    },
                }
            }),
    {
        let ghost lines0 = self.lines.deep_view();
        let ghost pos0 = self.pos as int;
        proof {
            lemma_next_content_line(lines0, pos0);
        }
        while self.pos < self.lines.len()
            invariant
                lines0 == old(self).lines_view(),
                pos0 == old(self).pos_view(),
                self.lines.deep_view() == lines0,
                pos0 <= self.pos as int <= lines0.len(),
                spec_next_content_line(lines0, pos0) == spec_next_content_line(
                    lines0,
                    self.pos as int,
                ),
            decreases lines0.len() - self.pos,
        {
            let ghost before = self.pos as int;
            let line = &self.lines[self.pos];
            proof {
                assert(line@ == lines0[before]);
            }
            if !is_comment_or_blank(line.as_str()) {
                let parsed = parse_bed_line(line.as_str());
                self.pos = self.pos + 1;
                return Some(parsed);
            }
            self.pos = self.pos + 1;
        }
        None
    }
}

} // verus!
