//! A synteny-window index over annotated genomes.
//!
//! The library ingests per-species annotation files together with
//! gene-family membership lists, computes for every gene the ordered
//! window of its chromosomal neighbours' family identities, persists
//! the result in a relational table, and serves lookups over that
//! table through the query engine.

use vstd::prelude::*;

pub mod bed;
pub mod chrom;
pub mod db;
pub mod dbmaker;
pub mod errors;
pub mod family;
pub mod genebook;
pub mod gff;
pub mod pattern;
pub mod tail;
pub mod text;

verus! {

use crate::errors::ParseError;
use crate::text::str_eq;

/// Reading phase of a coding feature, as annotation formats carry it.
#[derive(Debug, Copy, Clone)]
pub enum Phase {
    Sync,
    OneShifted,
    TwoShifted,
}

impl Phase {
    pub open spec fn spec_index(&self) -> usize {
        match self {
            Phase::Sync => 0,
            Phase::OneShifted => 1,
            Phase::TwoShifted => 2,
        }
    }

    /// Numeric form of the phase: how many bases the reading frame is shifted.
    pub fn index(&self) -> (r: usize)
        ensures
            r == self.spec_index(),
    {
        match self {
            Phase::Sync => 0,
            Phase::OneShifted => 1,
            Phase::TwoShifted => 2,
        }
    }

    /// Parses the textual phase column: `"0"`, `"1"` or `"2"`.
    pub fn from_code(x: &str) -> (r: Result<Phase, ParseError>)
        ensures
            x@ == "0"@ ==> r == Ok::<Phase, ParseError>(Phase::Sync),
            x@ == "1"@ ==> r == Ok::<Phase, ParseError>(Phase::OneShifted),
            x@ == "2"@ ==> r == Ok::<Phase, ParseError>(Phase::TwoShifted),
            r is Err ==> x@ != "0"@ && x@ != "1"@ && x@ != "2"@
                && (r matches Err(ParseError::InvalidPhase(s)) && s@ == x@),
    {
        proof {
            reveal_strlit("0");
            reveal_strlit("1");
            reveal_strlit("2");
            assert("0"@[0] == '0');
            assert("1"@[0] == '1');
            assert("2"@[0] == '2');
        }
        if str_eq(x, "0") {
            Ok(Phase::Sync)
        } else if str_eq(x, "1") {
            Ok(Phase::OneShifted)
        } else if str_eq(x, "2") {
            Ok(Phase::TwoShifted)
        } else {
            Err(ParseError::InvalidPhase(x.to_owned()))
        }
    }

    /// Numeric form back to a phase; values above two are rejected.
    pub fn from_index(x: usize) -> (r: Result<Phase, ParseError>)
        ensures
            x == 0 ==> r == Ok::<Phase, ParseError>(Phase::Sync),
            x == 1 ==> r == Ok::<Phase, ParseError>(Phase::OneShifted),
            x == 2 ==> r == Ok::<Phase, ParseError>(Phase::TwoShifted),
            x > 2 ==> r == Err::<Phase, ParseError>(ParseError::InvalidPhaseIndex(x)),
    {
        match x {
            0 => Ok(Phase::Sync),
            1 => Ok(Phase::OneShifted),
            2 => Ok(Phase::TwoShifted),
            _ => Err(ParseError::InvalidPhaseIndex(x)),
        }
    }
}

/// Orientation of a gene on its chromosome.
#[derive(Debug, Copy, Clone, PartialEq, Eq, Structural)]
pub enum Strand {
    Direct,
    Reverse,
    Unknown,
}

impl Strand {
    /// Flips a known orientation in place; an unknown one stays unknown.
    pub fn reverse(&mut self)
        ensures
            *old(self) is Direct ==> *final(self) is Reverse,
            *old(self) is Reverse ==> *final(self) is Direct,
            *old(self) is Unknown ==> *final(self) is Unknown,
    {
        match self {
            Strand::Direct => *self = Strand::Reverse,
            Strand::Reverse => *self = Strand::Direct,
            Strand::Unknown => {}
        }
    }

    /// The character that stands for this strand: `+` direct, `-`
    /// reverse, `.` unknown. It names the strand in the persisted
    /// `direction` column; in the tail wire format an unknown
    /// strand's character is omitted instead, since `.` also
    /// separates tokens there.
    pub open spec fn spec_symbol(&self) -> char {
        match self {
            Strand::Direct => '+',
            Strand::Reverse => '-',
            Strand::Unknown => '.',
        }
    }

    pub fn symbol(&self) -> (r: char)
        ensures
            r == self.spec_symbol(),
    {
        match self {
            Strand::Direct => '+',
            Strand::Reverse => '-',
            Strand::Unknown => '.',
        }
    }

    /// Strand of a single character: `+`, `-` or `.`.
    pub open spec fn spec_from_symbol(c: char) -> Option<Strand> {
        if c == '+' {
            Some(Strand::Direct)
        } else if c == '-' {
            Some(Strand::Reverse)
        } else if c == '.' {
            Some(Strand::Unknown)
        } else {
            None
        }
    }

    pub fn from_symbol(c: char) -> (r: Option<Strand>)
        ensures
            r == Strand::spec_from_symbol(c),
    {
        match c {
            '+' => Some(Strand::Direct),
            '-' => Some(Strand::Reverse),
            '.' => Some(Strand::Unknown),
            _ => None,
        }
    }

    /// Parses the strand column of the annotation formats; `1` and `+1`
    /// also mean direct, `-1` reverse.
    pub open spec fn spec_from_code(s: Seq<char>) -> Option<Strand> {
        if s == "+"@ || s == "1"@ || s == "+1"@ {
            Some(Strand::Direct)
        } else if s == "-"@ || s == "-1"@ {
            Some(Strand::Reverse)
        } else if s == "."@ {
            Some(Strand::Unknown)
        } else {
            None
        }
    }

    pub fn from_code(s: &str) -> (r: Result<Strand, ParseError>)
        ensures
            Strand::spec_from_code(s@) matches Some(d) ==> r == Ok::<Strand, ParseError>(d),
            Strand::spec_from_code(s@) is None ==> (r matches Err(ParseError::InvalidStrand(t))
                && t@ == s@),
    {
        proof {
            reveal_strlit("+");
            reveal_strlit("-");
            reveal_strlit(".");
            reveal_strlit("1");
            reveal_strlit("+1");
            reveal_strlit("-1");
            assert("+"@[0] == '+' && "-"@[0] == '-' && "."@[0] == '.' && "1"@[0] == '1');
            assert("+1"@[0] == '+' && "-1"@[0] == '-');
            assert("+"@.len() == 1 && "-"@.len() == 1 && "."@.len() == 1 && "1"@.len() == 1);
            assert("+1"@.len() == 2 && "-1"@.len() == 2);
        }
        if str_eq(s, "+") || str_eq(s, "1") || str_eq(s, "+1") {
            Ok(Strand::Direct)
        } else if str_eq(s, "-") || str_eq(s, "-1") {
            Ok(Strand::Reverse)
        } else if str_eq(s, ".") {
            Ok(Strand::Unknown)
        } else {
            Err(ParseError::InvalidStrand(s.to_owned()))
        }
    }
}

impl Default for Strand {
    /// An absent strand is unknown.
    fn default() -> (r: Strand)
        ensures
            r is Unknown,
    {
        Strand::Unknown
    }
}

/// A decoded annotation record of any of the three formats, seen
/// uniformly.
pub enum Record {
    Gff(crate::gff::Record),
    Bed(crate::bed::BedRecord),
    Chrom(crate::chrom::ChromRecord),
}

/// The mathematical content of a [`Record`].
pub enum RecordData {
    Gff(crate::gff::GffData),
    Bed(crate::bed::BedData),
    Chrom(crate::chrom::ChromData),
}

impl View for Record {
    type V = RecordData;

    open spec fn view(&self) -> RecordData {
        match self {
            Record::Gff(g) => RecordData::Gff(g@),
            Record::Bed(b) => RecordData::Bed(b@),
            Record::Chrom(c) => RecordData::Chrom(c@),
        }
    }
}

/// The raw gene id a record carries, if any.
pub open spec fn spec_rec_id(r: RecordData) -> Option<Seq<char>> {
    match r {
        RecordData::Gff(g) => crate::gff::spec_record_id(g),
        RecordData::Bed(b) => b.id,
        RecordData::Chrom(c) => Some(c.id),
    }
}

/// The chromosome a record lies on.
pub open spec fn spec_rec_chr(r: RecordData) -> Seq<char> {
    match r {
        RecordData::Gff(g) => g.chr,
        RecordData::Bed(b) => b.chr,
        RecordData::Chrom(c) => c.chr,
    }
}

/// The start coordinate of a record.
pub open spec fn spec_rec_start(r: RecordData) -> usize {
    match r {
        RecordData::Gff(g) => g.start,
        RecordData::Bed(b) => b.start,
        RecordData::Chrom(c) => c.start,
    }
}

/// The end coordinate of a record.
pub open spec fn spec_rec_end(r: RecordData) -> usize {
    match r {
        RecordData::Gff(g) => g.end,
        RecordData::Bed(b) => b.end,
        RecordData::Chrom(c) => c.end,
    }
}

/// The strand of a record: the one it states, or unknown when it
/// states none — a GFF3 strand column of `.` among them, since the
/// decoder reads `.` as no strand at all.
pub open spec fn spec_rec_strand(r: RecordData) -> Strand {
    match r {
        RecordData::Gff(g) => match g.strand {
            Some(d) => d,
            None => Strand::Unknown,
        },
        RecordData::Bed(b) => match b.strand {
            Some(d) => d,
            None => Strand::Unknown,
        },
        RecordData::Chrom(c) => c.strand,
    }
}

/// Whether a record passes the feature-class filter: GFF3 records are
/// kept when their class column equals the filter, records of the
/// other formats always.
pub open spec fn spec_rec_is_class(r: RecordData, class: Seq<char>) -> bool {
    match r {
        RecordData::Gff(g) => match g.class {
            Some(c) => c == class,
            None => false,
        },
        RecordData::Bed(_) => true,
        RecordData::Chrom(_) => true,
    }
}

impl Record {
    pub fn id(&self) -> (r: Option<&str>)
        ensures
            match r {
                Some(s) => spec_rec_id(self@) == Some(s@),
                None => spec_rec_id(self@) is None,
            },
    {
        match self {
            Record::Bed(r) => r.id(),
            Record::Gff(r) => r.id(),
            Record::Chrom(r) => Some(r.id()),
        }
    }

    pub fn chr(&self) -> (r: &str)
        ensures
            r@ == spec_rec_chr(self@),
    {
        match self {
            Record::Gff(r) => r.chr(),
            Record::Bed(r) => r.chr(),
            Record::Chrom(r) => r.chr(),
        }
    }

    pub fn start(&self) -> (r: usize)
        ensures
            r == spec_rec_start(self@),
    {
        match self {
            Record::Gff(r) => r.start(),
            Record::Bed(r) => r.start(),
            Record::Chrom(r) => r.start(),
        }
    }

    pub fn end(&self) -> (r: usize)
        ensures
            r == spec_rec_end(self@),
    {
        match self {
            Record::Gff(r) => r.end(),
            Record::Bed(r) => r.end(),
            Record::Chrom(r) => r.end(),
        }
    }

    pub fn strand(&self) -> (r: Strand)
        ensures
            r == spec_rec_strand(self@),
    {
        match self {
            Record::Gff(r) => match r.strand() {
                Some(d) => d,
                None => Strand::Unknown,
            },
            Record::Bed(r) => r.strand(),
            Record::Chrom(r) => r.strand(),
        }
    }

    pub fn is_class(&self, class: &str) -> (r: bool)
        ensures
            r == spec_rec_is_class(self@, class@),
    {
        match self {
            Record::Gff(r) => match r.class() {
                Some(c) => str_eq(c.as_str(), class),
                None => false,
            },
            Record::Bed(_) => true,
            Record::Chrom(_) => true,
        }
    }
}

} // verus!
