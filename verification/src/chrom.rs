//! A decoder for the chromosome-table format:
//! ```text
//! Chrom [TAB] Start [TAB] Stop [TAB] Strand [TAB] geneid
//! ```
//! Strand and id are mandatory; blank lines and `#` comments are
//! skipped.

use vstd::prelude::*;

verus! {

use crate::Strand;
use crate::text::{
    all_digits,
    chars_string,
    digits_value,
    is_comment_or_blank,
    lemma_next_content_line,
    parse_usize_from,
    spec_numeric_column,
    spec_next_content_line,
    spec_split,
    split_chars,
    str_chars,
};

/// Errors of the chromosome-table decoder.
#[derive(Debug)]
pub enum ChromError {
    /// A line with fewer than the five mandatory columns.
    RecordTooShort(String),
    /// A strand column that is none of the recognized codes.
    UnknownStrand(String),
    /// A coordinate column that does not parse as a number.
    InvalidField(String),
}

/// The mathematical content of a [`ChromRecord`].
pub struct ChromData {
    pub chr: Seq<char>,
    pub start: usize,
    pub end: usize,
    pub id: Seq<char>,
    pub strand: Strand,
}

/// One row of a chromosome table.
#[derive(Debug)]
pub struct ChromRecord {
    chr: String,
    start: usize,
    end: usize,
    id: String,
    strand: Strand,
}

impl View for ChromRecord {
    type V = ChromData;

    closed spec fn view(&self) -> ChromData {
        ChromData {
            chr: self.chr@,
            start: self.start,
            end: self.end,
            id: self.id@,
            strand: self.strand,
        }
    }
}

impl ChromRecord {
    pub fn id(&self) -> (r: &str)
        ensures
            r@ == self@.id,
    {
        self.id.as_str()
    }

    pub fn chr(&self) -> (r: &str)
        ensures
            r@ == self@.chr,
    {
        self.chr.as_str()
    }

    pub fn start(&self) -> (r: usize)
        ensures
            r == self@.start,
    {
        self.start
    }

    pub fn end(&self) -> (r: usize)
        ensures
            r == self@.end,
    {
        self.end
    }

    pub fn strand(&self) -> (r: Strand)
        ensures
            r == self@.strand,
    {
        self.strand
    }
}

/// What one chromosome-table line decodes to, column checks applied in
/// the order the columns are read.
pub open spec fn spec_chrom_line(s: Seq<char>) -> Result<ChromData, ChromError> {
    let cols = spec_split(s, '\t');
    if cols.len() < 2 {
        Err(ChromError::RecordTooShort(arbitrary()))
    } else if !spec_numeric_column(cols[1]) {
        Err(ChromError::InvalidField(arbitrary()))
    } else if cols.len() < 3 {
        Err(ChromError::RecordTooShort(arbitrary()))
    } else if !spec_numeric_column(cols[2]) {
        Err(ChromError::InvalidField(arbitrary()))
    } else if cols.len() < 4 {
        Err(ChromError::RecordTooShort(arbitrary()))
    } else if Strand::spec_from_code(cols[3]) is None {
        Err(ChromError::UnknownStrand(arbitrary()))
    } else if cols.len() < 5 {
        Err(ChromError::RecordTooShort(arbitrary()))
    } else {
        Ok(
            ChromData {
                chr: cols[0],
                start: digits_value(cols[1]) as usize,
                end: digits_value(cols[2]) as usize,
                id: cols[4],
                strand: Strand::spec_from_code(cols[3])->Some_0,
            },
        )
    }
}

/// Decodes one chromosome-table line. The error payload is the whole
/// offending line.
pub fn parse_chrom_line(line: &str) -> (r: Result<ChromRecord, ChromError>)
    ensures
        r matches Ok(rec) ==> spec_chrom_line(line@) matches Ok(d) && rec@ == d,
        r matches Err(e) ==> spec_chrom_line(line@) is Err && match e {
            ChromError::RecordTooShort(t) => spec_chrom_line(line@) matches Err(
                ChromError::RecordTooShort(_),
            ) && t@ == line@,
            ChromError::InvalidField(t) => spec_chrom_line(line@) matches Err(
                ChromError::InvalidField(_),
            ) && t@ == line@,
            ChromError::UnknownStrand(t) => spec_chrom_line(line@) matches Err(
                ChromError::UnknownStrand(_),
            ) && t@ == line@,
        },
{
    let chars = str_chars(line);
    let cols = split_chars(&chars, '\t');
    let ghost scols = spec_split(line@, '\t');
    proof {
        assert(cols.deep_view() == scols);
        assert(cols@.len() == scols.len());
    }
    if cols.len() < 2 {
        return Err(ChromError::RecordTooShort(line.to_owned()));
    }
    proof {
        assert(cols@[1]@ == scols[1]);
    }
    let start = match parse_usize_from(&cols[1], 0) {
        Some(n) => n,
        None => {
            proof {
                assert(cols@[1]@.subrange(0, cols@[1]@.len() as int) =~= scols[1]);
            }
            return Err(ChromError::InvalidField(line.to_owned()));
        },
    };
    proof {
        assert(cols@[1]@.subrange(0, cols@[1]@.len() as int) =~= scols[1]);
    }
    if cols.len() < 3 {
        return Err(ChromError::RecordTooShort(line.to_owned()));
    }
    proof {
        assert(cols@[2]@ == scols[2]);
    }
    let end = match parse_usize_from(&cols[2], 0) {
        Some(n) => n,
        None => {
            proof {
                assert(cols@[2]@.subrange(0, cols@[2]@.len() as int) =~= scols[2]);
            }
            return Err(ChromError::InvalidField(line.to_owned()));
        },
    };
    proof {
        assert(cols@[2]@.subrange(0, cols@[2]@.len() as int) =~= scols[2]);
    }
    if cols.len() < 4 {
        return Err(ChromError::RecordTooShort(line.to_owned()));
    }
    proof {
        assert(cols@[3]@ == scols[3]);
    }
    let strand_text = chars_string(&cols[3]);
    let strand = match Strand::from_code(strand_text.as_str()) {
        Ok(d) => d,
        Err(_) => {
            return Err(ChromError::UnknownStrand(line.to_owned()));
        },
    };
    if cols.len() < 5 {
        return Err(ChromError::RecordTooShort(line.to_owned()));
    }
    proof {
        assert(cols@[0]@ == scols[0]);
        assert(cols@[4]@ == scols[4]);
    }
    let chr = chars_string(&cols[0]);
    let id = chars_string(&cols[4]);
    Ok(ChromRecord { chr, start, end, id, strand })
}

/// A restartable reader over the lines of a chromosome table.
pub struct ChromReader {
    pub lines: Vec<String>,
    pub pos: usize,
}

impl ChromReader {
    /// The lines still to be read come from `lines`, starting at
    /// `pos`.
    pub open spec fn lines_view(&self) -> Seq<Seq<char>> {
        self.lines.deep_view()
    }

    pub open spec fn pos_view(&self) -> int {
        self.pos as int
    }

    pub open spec fn wf(&self) -> bool {
        0 <= self.pos <= self.lines.deep_view().len()
    }

    /// A reader over the given lines, positioned at the first.
    pub fn new(lines: Vec<String>) -> (r: ChromReader)
        ensures
            r.wf(),
            r.lines_view() == lines.deep_view(),
            r.pos_view() == 0,
    {
        ChromReader { lines, pos: 0 }
    }

    /// Decodes the next line that is neither blank nor a comment;
    /// nothing is left when only such lines remain.
    pub fn next_record(&mut self) -> (r: Option<Result<ChromRecord, ChromError>>)
        requires
            old(self).wf(),
        ensures
            final(self).wf(),
            final(self).lines_view() == old(self).lines_view(),
            ({
                let k = spec_next_content_line(old(self).lines_view(), old(self).pos_view());
                match r {
                    None => k == old(self).lines_view().len() && final(self).pos_view() == k,
                    Some(res) => {
                        &&& k < old(self).lines_view().len()
                        &&& final(self).pos_view() == k + 1
                        &&& (res matches Ok(rec) ==> spec_chrom_line(
                            old(self).lines_view()[k],
                        ) matches Ok(d) && rec@ == d)
                        &&& (res matches Err(e) ==> spec_chrom_line(
                            old(self).lines_view()[k],
                        ) is Err && match e {
                            ChromError::RecordTooShort(t) => spec_chrom_line(
                                old(self).lines_view()[k],
                            ) matches Err(ChromError::RecordTooShort(_)) && t@ == old(
                                self,
                            ).lines_view()[k],
                            ChromError::InvalidField(t) => spec_chrom_line(
                                old(self).lines_view()[k],
                            ) matches Err(ChromError::InvalidField(_)) && t@ == old(
                                self,
                            ).lines_view()[k],
                            ChromError::UnknownStrand(t) => spec_chrom_line(
                                old(self).lines_view()[k],
                            ) matches Err(ChromError::UnknownStrand(_)) && t@ == old(
                                self,
                            ).lines_view()[k],
                        })
                    },
                }
            }),
    {
        let ghost lines0 = self.lines.deep_view();
        let ghost pos0 = self.pos as int;
        proof {
            lemma_next_content_line(lines0, pos0);
        }
        while self.pos < self.lines.len()
            invariant
                lines0 == old(self).lines_view(),
                pos0 == old(self).pos_view(),
                self.lines.deep_view() == lines0,
                pos0 <= self.pos as int <= lines0.len(),
                spec_next_content_line(lines0, pos0) == spec_next_content_line(
                    lines0,
                    self.pos as int,
                ),
            decreases lines0.len() - self.pos,
        {
            let ghost before = self.pos as int;
            let line = &self.lines[self.pos];
            proof {
                assert(line@ == lines0[before]);
            }
            if !is_comment_or_blank(line.as_str()) {
                let parsed = parse_chrom_line(line.as_str());
                self.pos = self.pos + 1;
                return Some(parsed);
            }
            self.pos = self.pos + 1;
        }
        None
    }
}

} // verus!
