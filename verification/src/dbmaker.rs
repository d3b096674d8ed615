//! The ingestion pipeline: family files and per-species annotation
//! files in, one persisted `genomes` table out. Records are filtered
//! by feature class, resolved to families, deduplicated by first
//! occurrence of each canonical id, grouped per chromosome, stably
//! sorted by start coordinate, and written with each gene's left and
//! right landscape window serialized in the tail wire format.

use vstd::prelude::*;

verus! {

use crate::{Record, RecordData, Strand};
use crate::errors::ParseError;
use crate::family::FamilyIndex;
use crate::pattern::{Pattern, regex_capture, regex_valid};
use crate::tail::TailGene;
use crate::text::{
    base_name,
    chars_string,
    format_usize,
    spec_base_name,
    spec_comment_or_blank,
    spec_digits,
    spec_ends_with,
    str_ends_with,
    str_eq,
    is_comment_or_blank,
};

/// Errors of the ingestion pipeline.
#[derive(Debug)]
pub enum Error {
    /// A pattern that is no valid regular expression; the payload
    /// carries the pattern and the engine's message.
    InvalidRegex { re: String, message: String },
    /// A pattern that lacks the required named capture group.
    MissingCaptureGroup { cap: String, re: String },
    /// The species pattern matched nothing in the file's name.
    SpeciesNotFound(String),
    /// The id pattern matched nothing in a record's raw id; the
    /// payload is that raw id.
    IdNotFound(String),
    /// A record that carries no raw id at all; the payload names the
    /// record by place.
    RecordWithoutId(String),
    /// A file whose extension names no supported format.
    UnsupportedFiletype(String),
    /// A record line that does not decode.
    Parse(ParseError),
    /// A source file's lines could not be had.
    File(crate::errors::FileError),
    /// The persisted table could not be written.
    Storage(String),
}

/// One source file, by its name and its lines.
pub struct FileContent {
    pub name: String,
    pub lines: Vec<String>,
}

/// The annotation format a genome file is decoded with.
#[derive(Debug, Copy, Clone, PartialEq, Eq, Structural)]
pub enum DecoderKind {
    Gff3,
    Bed,
}

/// The decoder a file name selects, by its extension, compressed or
/// not.
pub open spec fn spec_decoder_kind(name: Seq<char>) -> Option<DecoderKind> {
    if spec_ends_with(name, "gff"@) || spec_ends_with(name, "gff3"@) || spec_ends_with(
        name,
        "gff.gz"@,
    ) || spec_ends_with(name, "gff3.gz"@) {
        Some(DecoderKind::Gff3)
    } else if spec_ends_with(name, "bed"@) || spec_ends_with(name, "bed.gz"@) {
        Some(DecoderKind::Bed)
    } else {
        None
    }
}

/// Selects the decoder a file name calls for.
pub fn decoder_kind(name: &str) -> (r: Option<DecoderKind>)
    ensures
        r == spec_decoder_kind(name@),
{
    if str_ends_with(name, "gff") || str_ends_with(name, "gff3") || str_ends_with(
        name,
        "gff.gz",
    ) || str_ends_with(name, "gff3.gz") {
        Some(DecoderKind::Gff3)
    } else if str_ends_with(name, "bed") || str_ends_with(name, "bed.gz") {
        Some(DecoderKind::Bed)
    } else {
        None
    }
}

/// Extracts the species name from a file's base name with the
/// configured pattern, which must compile and declare a named capture
/// group `species`.
pub fn parse_species(filename: &str, species_pattern: &str) -> (r: Result<String, Error>)
    ensures
        r matches Ok(sp) ==> regex_valid(species_pattern@)
            && crate::pattern::regex_group_names(species_pattern@).contains(Some("species"@))
            && regex_capture(
            species_pattern@,
            spec_base_name(filename@),
            "species"@,
        ) == Some(sp@),
        !regex_valid(species_pattern@) ==> r matches Err(Error::InvalidRegex { .. }),
        regex_valid(species_pattern@) && !crate::pattern::regex_group_names(
            species_pattern@,
        ).contains(Some("species"@)) ==> r matches Err(Error::MissingCaptureGroup { .. }),
        regex_valid(species_pattern@) && crate::pattern::regex_group_names(
            species_pattern@,
        ).contains(Some("species"@)) && regex_capture(
            species_pattern@,
            spec_base_name(filename@),
            "species"@,
        ) is None ==> r matches Err(Error::SpeciesNotFound(_)),
        regex_valid(species_pattern@) && crate::pattern::regex_group_names(
            species_pattern@,
        ).contains(Some("species"@)) && regex_capture(
            species_pattern@,
            spec_base_name(filename@),
            "species"@,
        ) is Some ==> r is Ok,
        r matches Err(e) ==> match e {
            Error::InvalidRegex { re, .. } => !regex_valid(species_pattern@) && re@
                == species_pattern@,
            Error::MissingCaptureGroup { cap, re } => regex_valid(species_pattern@) && cap@
                == "species"@ && re@ == species_pattern@
                && !crate::pattern::regex_group_names(species_pattern@).contains(
                Some("species"@),
            ),
            Error::SpeciesNotFound(f) => regex_valid(species_pattern@) && f@ == filename@
                && regex_capture(species_pattern@, spec_base_name(filename@), "species"@)
                is None,
            _ => false,
        },
{
    let pattern = match Pattern::compile(species_pattern) {
        Ok(p) => p,
        Err(m) => {
            return Err(Error::InvalidRegex { re: species_pattern.to_owned(), message: m });
        },
    };
    if !pattern.has_group("species") {
        return Err(
            Error::MissingCaptureGroup {
                cap: String::from_str("species"),
                re: species_pattern.to_owned(),
            },
        );
    }
    let base = base_name(filename);
    match pattern.capture(base.as_str(), "species") {
        Some(sp) => Ok(sp),
        None => Err(Error::SpeciesNotFound(filename.to_owned())),
    }
}

/// The mathematical content of an [`Annotation`].
pub struct AnnotationData {
    pub id: Seq<char>,
    pub dir: Strand,
    pub start: usize,
    pub stop: usize,
    pub ancestral_id: usize,
}

/// One gene retained by the ingester: canonical id, strand, its
/// coordinates, and the family it resolved to.
#[derive(Debug)]
pub struct Annotation {
    pub id: String,
    pub dir: Strand,
    pub start: usize,
    pub stop: usize,
    pub ancestral_id: usize,
}

impl View for Annotation {
    type V = AnnotationData;

    open spec fn view(&self) -> AnnotationData {
        AnnotationData {
            id: self.id@,
            dir: self.dir,
            start: self.start,
            stop: self.stop,
            ancestral_id: self.ancestral_id,
        }
    }
}

/// The views of an annotation list.
pub open spec fn anns_view(s: Seq<Annotation>) -> Seq<AnnotationData> {
    s.map_values(|a: Annotation| a@)
}

/// Ascending by start coordinate.
pub open spec fn spec_sorted_by_start(s: Seq<AnnotationData>) -> bool {
    forall|i: int, j: int| 0 <= i < j < s.len() ==> #[trigger] s[i].start <= #[trigger] s[j].start
}

/// Insertion of one annotation behind every element whose start does
/// not exceed its own: the stable insertion step.
pub open spec fn spec_insert_by_start(g: AnnotationData, s: Seq<AnnotationData>) -> Seq<
    AnnotationData,
>
    decreases s.len(),
{
    if s.len() == 0 {
        seq![g]
    } else if g.start < s[0].start {
        seq![g] + s
    } else {
        seq![s[0]] + spec_insert_by_start(g, s.skip(1))
    }
}

/// The stable sort of an annotation list by start coordinate: ties
/// keep their encounter order.
pub open spec fn spec_sort_by_start(s: Seq<AnnotationData>) -> Seq<AnnotationData>
    decreases s.len(),
{
    if s.len() == 0 {
        Seq::<AnnotationData>::empty()
    } else {
        spec_insert_by_start(s.last(), spec_sort_by_start(s.drop_last()))
    }
}

/// Where the stable insertion lands: before the first element whose
/// start exceeds the inserted one's.
proof fn lemma_insert_at(g: AnnotationData, s: Seq<AnnotationData>, p: int)
    requires
        0 <= p <= s.len(),
        forall|k: int| 0 <= k < p ==> !(g.start < (#[trigger] s[k]).start),
        p < s.len() ==> g.start < s[p].start,
    ensures
        spec_insert_by_start(g, s) == s.subrange(0, p) + seq![g] + s.skip(p),
    decreases s.len(),
{
    if p == 0 {
        if s.len() == 0 {
            assert(spec_insert_by_start(g, s) =~= s.subrange(0, p) + seq![g] + s.skip(p));
        } else {
            assert(spec_insert_by_start(g, s) =~= s.subrange(0, p) + seq![g] + s.skip(p));
        }
    } else {
        assert(forall|k: int|
            0 <= k < p - 1 ==> s.skip(1)[k] == #[trigger] s[k + 1]);
        lemma_insert_at(g, s.skip(1), p - 1);
        assert(spec_insert_by_start(g, s) == seq![s[0]] + spec_insert_by_start(g, s.skip(1)));
        assert(seq![s[0]] + (s.skip(1).subrange(0, p - 1) + seq![g] + s.skip(1).skip(p - 1))
            =~= s.subrange(0, p) + seq![g] + s.skip(p));
    }
}

/// Stable insertion keeps sortedness and adds exactly the inserted
/// element.
pub proof fn lemma_insert_by_start_sorted(g: AnnotationData, s: Seq<AnnotationData>)
    requires
        spec_sorted_by_start(s),
    ensures
        spec_sorted_by_start(spec_insert_by_start(g, s)),
        spec_insert_by_start(g, s).to_multiset() == s.to_multiset().insert(g),
        spec_insert_by_start(g, s).len() == s.len() + 1,
    decreases s.len(),
{
    broadcast use vstd::seq_lib::group_to_multiset_ensures;

    if s.len() == 0 {
        assert(seq![g] =~= Seq::<AnnotationData>::empty().push(g));
        assert(seq![g].to_multiset() == s.to_multiset().insert(g));
    } else if g.start < s[0].start {
        let r = seq![g] + s;
        assert forall|i: int, j: int| 0 <= i < j < r.len() implies #[trigger] r[i].start
            <= #[trigger] r[j].start by {
            if i > 0 {
                assert(r[i] == s[i - 1]);
                assert(r[j] == s[j - 1]);
            }
        }
        assert(r =~= s.insert(0, g));
        assert(s.insert(0, g).to_multiset() == s.to_multiset().insert(g));
    } else {
        assert(spec_sorted_by_start(s.skip(1))) by {
            assert(forall|k: int|
                0 <= k < s.skip(1).len() ==> s.skip(1)[k] == #[trigger] s[k + 1]);
        }
        lemma_insert_by_start_sorted(g, s.skip(1));
        let t = spec_insert_by_start(g, s.skip(1));
        let r = seq![s[0]] + t;
        assert forall|i: int, j: int| 0 <= i < j < r.len() implies #[trigger] r[i].start
            <= #[trigger] r[j].start by {
            if i == 0 {
                if j >= 1 {
                    assert(r[j] == t[j - 1]);
                    assert(t.to_multiset() == s.skip(1).to_multiset().insert(g));
                    assert(t.to_multiset().contains(t[j - 1]));
                    if t[j - 1] == g {
                        assert(s[0].start <= g.start);
                    } else {
                        assert(s.skip(1).to_multiset().count(t[j - 1]) > 0);
                        assert(s.skip(1).contains(t[j - 1]));
                        let w = choose|w: int|
                            0 <= w < s.skip(1).len() && s.skip(1)[w] == t[j - 1];
                        assert(s.skip(1)[w] == s[w + 1]);
                        assert(s[0].start <= s[w + 1].start);
                    }
                }
            } else {
                assert(r[i] == t[i - 1]);
                assert(r[j] == t[j - 1]);
            }
        }
        assert(r =~= t.insert(0, s[0]));
        assert(t.insert(0, s[0]).to_multiset() == t.to_multiset().insert(s[0]));
        assert(s =~= s.skip(1).insert(0, s[0]));
        assert(s.skip(1).insert(0, s[0]).to_multiset() == s.skip(1).to_multiset().insert(s[0]));
        assert(r.to_multiset() == s.to_multiset().insert(g)) by {
            assert(r.to_multiset() == t.to_multiset().insert(s[0]));
            assert(t.to_multiset() == s.skip(1).to_multiset().insert(g));
            assert(s.to_multiset() == s.skip(1).to_multiset().insert(s[0]));
            assert(s.skip(1).to_multiset().insert(g).insert(s[0]) == s.skip(
                1,
            ).to_multiset().insert(s[0]).insert(g));
        }
    }
}

/// The stable sort is sorted and holds exactly the input's elements.
pub proof fn lemma_sort_by_start_sorted(s: Seq<AnnotationData>)
    ensures
        spec_sorted_by_start(spec_sort_by_start(s)),
        spec_sort_by_start(s).to_multiset() == s.to_multiset(),
        spec_sort_by_start(s).len() == s.len(),
    decreases s.len(),
{
    broadcast use vstd::seq_lib::group_to_multiset_ensures;

    if s.len() > 0 {
        lemma_sort_by_start_sorted(s.drop_last());
        lemma_insert_by_start_sorted(s.last(), spec_sort_by_start(s.drop_last()));
        assert(s =~= s.drop_last().push(s.last()));
        assert(s.drop_last().push(s.last()).to_multiset() == s.drop_last().to_multiset().insert(
            s.last(),
        ));
    }
}

/// Sorts an annotation list stably by start coordinate.
pub fn sort_annotations(v: Vec<Annotation>) -> (r: Vec<Annotation>)
    ensures
        anns_view(r@) == spec_sort_by_start(anns_view(v@)),
{
    let ghost input = anns_view(v@);
    let mut rest = v;
    let mut out: Vec<Annotation> = Vec::new();
    proof {
        assert(anns_view(rest@).subrange(0, 0) =~= Seq::<AnnotationData>::empty());
        assert(anns_view(out@) =~= spec_sort_by_start(Seq::<AnnotationData>::empty()));
    }
    let ghost mut done: int = 0;
    while rest.len() > 0
        invariant
            0 <= done <= input.len(),
            anns_view(rest@) == input.skip(done),
            anns_view(out@) == spec_sort_by_start(input.subrange(0, done)),
        decreases rest@.len(),
    {
        let ghost rest0 = rest@;
        let a = rest.remove(0);
        let ghost g = a@;
        proof {
            assert(anns_view(rest0) == input.skip(done));
            assert(anns_view(rest0).len() == rest0.len());
            assert(0 <= done);
            assert(input.skip(done).len() == input.len() - done);
            assert(done < input.len());
            assert(anns_view(rest0)[0] == rest0[0]@);
            assert(input.skip(done)[0] == input[done]);
            assert(g == input[done]);
            assert(rest@ =~= rest0.skip(1));
            assert forall|k: int| 0 <= k < anns_view(rest@).len() implies anns_view(rest@)[k]
                == input.skip(done + 1)[k] by {
                assert(anns_view(rest@)[k] == rest@[k]@);
                assert(rest@[k] == rest0[k + 1]);
                assert(anns_view(rest0)[k + 1] == rest0[k + 1]@);
                assert(input.skip(done)[k + 1] == input[done + 1 + k]);
                assert(input.skip(done + 1)[k] == input[done + 1 + k]);
            }
            assert(anns_view(rest@) =~= input.skip(done + 1));
        }
        let mut p: usize = 0;
        while p < out.len() && !(a.start < out[p].start)
            invariant
                0 <= p <= out@.len(),
                forall|k: int| 0 <= k < p ==> !(g.start < (#[trigger] anns_view(out@)[k]).start),
                g == a@,
            decreases out@.len() - p,
        {
            proof {
                assert(anns_view(out@)[p as int] == out@[p as int]@);
            }
            p += 1;
        }
        proof {
            assert(p < out@.len() ==> g.start < anns_view(out@)[p as int].start);
            lemma_insert_at(g, anns_view(out@), p as int);
        }
        let ghost before = anns_view(out@);
        out.insert(p, a);
        proof {
            assert(anns_view(out@) =~= before.subrange(0, p as int) + seq![g] + before.skip(
                p as int,
            ));
            let sub = input.subrange(0, done + 1);
            assert(sub.drop_last() =~= input.subrange(0, done));
            assert(sub.last() == input[done]);
        }
        proof {
            done = done + 1;
        }
    }
    proof {
        assert(input.subrange(0, done) =~= input);
    }
    out
}

/// The tail entry an annotation contributes to a neighbour's
/// landscape.
pub open spec fn spec_tail_of(a: AnnotationData) -> TailGene {
    TailGene { family: a.ancestral_id, strand: a.dir }
}

/// The landscape windows of the gene at index `j` of a chromosome's
/// list: the left window holds the up to `window` nearest
/// predecessors, farthest first; the right window the up to `window`
/// nearest successors, nearest first. So for every index, the left
/// window's length is `min(j, window)` and the right window's length
/// is `min(len - 1 - j, window)`.
pub fn tails_at(ids: &Vec<Annotation>, j: usize, window: usize) -> (r: (
    Vec<TailGene>,
    Vec<TailGene>,
))
    requires
        j < ids@.len(),
    ensures
        r.0@.len() == if j <= window {
            j as int
        } else {
            window as int
        },
        r.1@.len() == if ids@.len() - 1 - j <= window {
            ids@.len() - 1 - j
        } else {
            window as int
        },
        forall|k: int| 0 <= k < r.0@.len() ==> r.0@[k] == spec_tail_of(
            #[trigger] anns_view(ids@)[j - r.0@.len() + k],
        ),
        forall|k: int| 0 <= k < r.1@.len() ==> r.1@[k] == spec_tail_of(
            #[trigger] anns_view(ids@)[j + 1 + k],
        ),
{
    let lo = if j <= window {
        0
    } else {
        j - window
    };
    let mut left: Vec<TailGene> = Vec::new();
    let mut i: usize = lo;
    while i < j
        invariant
            lo <= i <= j < ids@.len(),
            left@.len() == i - lo,
            forall|k: int| 0 <= k < left@.len() ==> left@[k] == spec_tail_of(
                #[trigger] anns_view(ids@)[lo + k],
            ),
        decreases j - i,
    {
        let a = &ids[i];
        proof {
            assert(anns_view(ids@)[i as int] == ids@[i as int]@);
        }
        left.push(TailGene { family: a.ancestral_id, strand: a.dir });
        i += 1;
    }
    let hi = if ids.len() - 1 - j <= window {
        ids.len() - 1
    } else {
        j + window
    };
    let n = ids.len();
    let mut right: Vec<TailGene> = Vec::new();
    let mut m: usize = j + 1;
    while m <= hi
        invariant
            j + 1 <= m <= hi + 1,
            hi < n,
            n == ids@.len(),
            right@.len() == m - j - 1,
            forall|k: int| 0 <= k < right@.len() ==> right@[k] == spec_tail_of(
                #[trigger] anns_view(ids@)[j + 1 + k],
            ),
        decreases hi + 1 - m,
    {
        let a = &ids[m];
        proof {
            assert(anns_view(ids@)[m as int] == ids@[m as int]@);
        }
        right.push(TailGene { family: a.ancestral_id, strand: a.dir });
        m += 1;
    }
    (left, right)
}

/// The views of a per-chromosome grouping.
pub open spec fn groups_view(v: Seq<(String, Vec<Annotation>)>) -> Seq<
    (Seq<char>, Seq<AnnotationData>),
> {
    v.map_values(|p: (String, Vec<Annotation>)| (p.0@, anns_view(p.1@)))
}

/// The first entry under a chromosome, or the length when the
/// chromosome has none yet.
pub open spec fn spec_group_index(
    groups: Seq<(Seq<char>, Seq<AnnotationData>)>,
    chr: Seq<char>,
) -> int
    decreases groups.len(),
{
    if groups.len() == 0 {
        0
    } else if groups[0].0 == chr {
        0
    } else {
        1 + spec_group_index(groups.skip(1), chr)
    }
}

/// What the group index points at.
pub proof fn lemma_group_index(groups: Seq<(Seq<char>, Seq<AnnotationData>)>, chr: Seq<char>)
    ensures
        0 <= spec_group_index(groups, chr) <= groups.len(),
        spec_group_index(groups, chr) < groups.len() ==> groups[spec_group_index(
            groups,
            chr,
        )].0 == chr,
        forall|k: int| 0 <= k < spec_group_index(groups, chr) ==> (#[trigger] groups[k]).0
            != chr,
    decreases groups.len(),
{
    if groups.len() > 0 && groups[0].0 != chr {
        lemma_group_index(groups.skip(1), chr);
        assert forall|k: int| 0 <= k < spec_group_index(groups, chr) implies (
        #[trigger] groups[k]).0 != chr by {
            if k >= 1 {
                assert(groups.skip(1)[k - 1] == groups[k]);
            }
        }
    }
}

/// One annotation appended under its chromosome: to that chromosome's
/// entry when one exists, else as a new entry at the end.
pub open spec fn spec_group_push(
    groups: Seq<(Seq<char>, Seq<AnnotationData>)>,
    chr: Seq<char>,
    a: AnnotationData,
) -> Seq<(Seq<char>, Seq<AnnotationData>)> {
    let i = spec_group_index(groups, chr);
    if i < groups.len() {
        groups.update(i, (groups[i].0, groups[i].1.push(a)))
    } else {
        groups.push((chr, seq![a]))
    }
}

/// Some entry of the grouping already carries the canonical id.
pub open spec fn spec_groups_have_id(
    groups: Seq<(Seq<char>, Seq<AnnotationData>)>,
    id: Seq<char>,
) -> bool {
    exists|i: int, j: int|
        0 <= i < groups.len() && 0 <= j < groups[i].1.len() && (#[trigger] groups[i].1[j]).id
            == id
}

/// Why ingestion rejected a record, in mathematical form.
pub enum IngestIssue {
    /// A line did not decode.
    Decode,
    /// A record carries no raw id; the payload names it by place.
    RecordWithoutId(Seq<char>),
    /// The id pattern matched nothing in a raw id.
    IdNotFound(Seq<char>),
}

/// How a record without an id is named: `chr:start-end`.
pub open spec fn spec_place(rec: RecordData) -> Seq<char> {
    crate::spec_rec_chr(rec) + ":"@ + spec_digits(crate::spec_rec_start(rec) as nat) + "-"@
        + spec_digits(crate::spec_rec_end(rec) as nat)
}

/// What one decoded record does to the grouping: skipped when the
/// class filter rejects it, when its canonical id is in no family, or
/// when that id was already taken in; kept otherwise, under its
/// chromosome, with its family id.
pub open spec fn spec_record_step(
    groups: Seq<(Seq<char>, Seq<AnnotationData>)>,
    rec: RecordData,
    id_pattern: Seq<char>,
    id_type: Seq<char>,
    families: Map<Seq<char>, usize>,
) -> Result<Seq<(Seq<char>, Seq<AnnotationData>)>, IngestIssue> {
    if !crate::spec_rec_is_class(rec, id_type) {
        Ok(groups)
    } else {
        match crate::spec_rec_id(rec) {
            None => Err(IngestIssue::RecordWithoutId(spec_place(rec))),
            Some(raw) => match regex_capture(id_pattern, raw, "id"@) {
                None => Err(IngestIssue::IdNotFound(raw)),
                Some(id) => if !families.contains_key(id) {
                    Ok(groups)
                } else if spec_groups_have_id(groups, id) {
                    Ok(groups)
                } else {
                    Ok(
                        spec_group_push(
                            groups,
                            crate::spec_rec_chr(rec),
                            AnnotationData {
                                id: id,
                                dir: crate::spec_rec_strand(rec),
                                start: crate::spec_rec_start(rec),
                                stop: crate::spec_rec_end(rec),
                                ancestral_id: families[id],
                            },
                        ),
                    )
                },
            },
        }
    }
}

/// What one line decodes to under a decoder kind; the error case
/// stands for any decode failure.
pub open spec fn spec_line_record(kind: DecoderKind, line: Seq<char>) -> Result<RecordData, ()> {
    match kind {
        DecoderKind::Gff3 => match crate::gff::spec_gff_line(line) {
            Ok(d) => Ok(RecordData::Gff(d)),
            Err(_) => Err(()),
        },
        DecoderKind::Bed => match crate::bed::spec_bed_line(line) {
            Ok(d) => Ok(RecordData::Bed(d)),
            Err(_) => Err(()),
        },
    }
}

/// The grouping a genome file's lines build up from `pos` on, blank
/// and comment lines skipped, stopping at the first bad line or
/// rejected record.
pub open spec fn spec_ingest_lines(
    groups: Seq<(Seq<char>, Seq<AnnotationData>)>,
    lines: Seq<Seq<char>>,
    pos: int,
    kind: DecoderKind,
    id_pattern: Seq<char>,
    id_type: Seq<char>,
    families: Map<Seq<char>, usize>,
) -> Result<Seq<(Seq<char>, Seq<AnnotationData>)>, IngestIssue>
    decreases lines.len() - pos when 0 <= pos <= lines.len()
{
    if pos >= lines.len() {
        Ok(groups)
    } else if spec_comment_or_blank(lines[pos]) {
        spec_ingest_lines(groups, lines, pos + 1, kind, id_pattern, id_type, families)
    } else {
        match spec_line_record(kind, lines[pos]) {
            Err(_) => Err(IngestIssue::Decode),
            Ok(rec) => match spec_record_step(groups, rec, id_pattern, id_type, families) {
                Err(e) => Err(e),
                Ok(g2) => spec_ingest_lines(
                    g2,
                    lines,
                    pos + 1,
                    kind,
                    id_pattern,
                    id_type,
                    families,
                ),
            },
        }
    }
}

/// Finds the entry under a chromosome, or the length when there is
/// none.
fn group_find(groups: &Vec<(String, Vec<Annotation>)>, chr: &str) -> (r: usize)
    ensures
        r == spec_group_index(groups_view(groups@), chr@),
{
    let ghost gv = groups_view(groups@);
    let mut i: usize = 0;
    while i < groups.len()
        invariant
            0 <= i <= groups@.len(),
            gv == groups_view(groups@),
            gv.len() == groups@.len(),
            forall|k: int| 0 <= k < i ==> (#[trigger] gv[k]).0 != chr@,
        decreases groups@.len() - i,
    {
        proof {
            assert(gv[i as int] == (groups@[i as int].0@, anns_view(groups@[i as int].1@)));
        }
        if str_eq(groups[i].0.as_str(), chr) {
            proof {
                lemma_group_index(gv, chr@);
                if spec_group_index(gv, chr@) < i {
                    assert(gv[spec_group_index(gv, chr@)].0 == chr@);
                }
            }
            return i;
        }
        i += 1;
    }
    proof {
        lemma_group_index(gv, chr@);
        if spec_group_index(gv, chr@) < gv.len() {
            assert(gv[spec_group_index(gv, chr@)].0 == chr@);
        }
    }
    i
}

/// Whether some retained annotation already carries the id.
fn groups_have_id(groups: &Vec<(String, Vec<Annotation>)>, id: &str) -> (r: bool)
    ensures
        r == spec_groups_have_id(groups_view(groups@), id@),
{
    let ghost gv = groups_view(groups@);
    let mut i: usize = 0;
    while i < groups.len()
        invariant
            0 <= i <= groups@.len(),
            gv == groups_view(groups@),
            gv.len() == groups@.len(),
            forall|k: int, j: int|
                0 <= k < i && 0 <= j < gv[k].1.len() ==> (#[trigger] gv[k].1[j]).id != id@,
        decreases groups@.len() - i,
    {
        let anns = &groups[i].1;
        proof {
            assert(gv[i as int] == (groups@[i as int].0@, anns_view(groups@[i as int].1@)));
        }
        let mut j: usize = 0;
        while j < anns.len()
            invariant
                0 <= j <= anns@.len(),
                gv == groups_view(groups@),
                gv[i as int].1 == anns_view(anns@),
                anns_view(anns@).len() == anns@.len(),
                0 <= i < gv.len(),
                forall|k: int| 0 <= k < j ==> (#[trigger] anns_view(anns@)[k]).id != id@,
            decreases anns@.len() - j,
        {
            proof {
                assert(anns_view(anns@)[j as int] == anns@[j as int]@);
            }
            if str_eq(anns[j].id.as_str(), id) {
                proof {
                    assert(gv[i as int].1[j as int].id == id@);
                }
                return true;
            }
            j += 1;
        }
        i += 1;
    }
    proof {
        if spec_groups_have_id(gv, id@) {
            let (k, j): (int, int) = choose|k: int, j: int|
                0 <= k < gv.len() && 0 <= j < gv[k].1.len() && (#[trigger] gv[k].1[j]).id
                    == id@;
            assert(false);
        }
    }
    false
}

/// Appends one annotation under its chromosome.
fn group_push(groups: &mut Vec<(String, Vec<Annotation>)>, chr: &str, a: Annotation)
    ensures
        groups_view(final(groups)@) == spec_group_push(groups_view(old(groups)@), chr@, a@),
{
    let ghost gv = groups_view(groups@);
    proof {
        lemma_group_index(gv, chr@);
    }
    let i = group_find(groups, chr);
    if i < groups.len() {
        let mut entry = groups.remove(i);
        entry.1.push(a);
        groups.insert(i, entry);
        proof {
            let target = spec_group_push(gv, chr@, a@);
            assert(anns_view(entry.1@) =~= gv[i as int].1.push(a@));
            assert forall|k: int| 0 <= k < groups_view(groups@).len() implies groups_view(
                groups@,
            )[k] == target[k] by {
                assert(groups_view(groups@)[k] == (groups@[k].0@, anns_view(groups@[k].1@)));
                if k < i {
                    assert(groups@[k] == old(groups)@[k]);
                    assert(gv[k] == (old(groups)@[k].0@, anns_view(old(groups)@[k].1@)));
                } else if k == i {
                } else {
                    assert(groups@[k] == old(groups)@[k]);
                    assert(gv[k] == (old(groups)@[k].0@, anns_view(old(groups)@[k].1@)));
                }
            }
            assert(groups_view(groups@) =~= target);
        }
    } else {
        let mut anns: Vec<Annotation> = Vec::new();
        anns.push(a);
        groups.push((chr.to_owned(), anns));
        proof {
            let target = spec_group_push(gv, chr@, a@);
            assert(anns_view(anns@) =~= seq![a@]);
            assert forall|k: int| 0 <= k < groups_view(groups@).len() implies groups_view(
                groups@,
            )[k] == target[k] by {
                assert(groups_view(groups@)[k] == (groups@[k].0@, anns_view(groups@[k].1@)));
                if k < i {
                    assert(groups@[k] == old(groups)@[k]);
                    assert(gv[k] == (old(groups)@[k].0@, anns_view(old(groups)@[k].1@)));
                }
            }
            assert(groups_view(groups@) =~= target);
        }
    }
}

/// Names a record by place, `chr:start-end`.
fn place_of(rec: &Record) -> (r: String)
    ensures
        r@ == spec_place(rec@),
{
    let mut s = rec.chr().to_owned();
    s.append(":");
    let start_text = chars_string(&format_usize(rec.start()));
    s.append(start_text.as_str());
    s.append("-");
    let end_text = chars_string(&format_usize(rec.end()));
    s.append(end_text.as_str());
    proof {
        assert(s@ =~= spec_place(rec@));
    }
    s
}

/// Decodes one content line under a decoder kind.
fn parse_record_line(kind: DecoderKind, line: &str) -> (r: Result<Record, ParseError>)
    ensures
        r matches Ok(rec) ==> spec_line_record(kind, line@) == Ok::<RecordData, ()>(rec@),
        r is Err ==> spec_line_record(kind, line@) is Err,
{
    match kind {
        DecoderKind::Gff3 => match crate::gff::parse_gff_line(line) {
            Ok(rec) => Ok(Record::Gff(rec)),
            Err(e) => Err(ParseError::GffError(e)),
        },
        DecoderKind::Bed => match crate::bed::parse_bed_line(line) {
            Ok(rec) => Ok(Record::Bed(rec)),
            Err(e) => Err(ParseError::BedError(e)),
        },
    }
}

/// Ingests one genome file: filters its records to the configured
/// feature class, extracts each canonical id with the id pattern,
/// resolves it against the family index, keeps the first occurrence
/// of each id, and groups the survivors per chromosome in encounter
/// order. The id pattern must compile and declare a named capture
/// group `id`; the species pattern is applied to the file's base name
/// and must declare `species`.
pub fn ingest_genome_file(
    content: &FileContent,
    species_pattern: &str,
    id_type: &str,
    id_pattern: &str,
    families: &FamilyIndex,
) -> (r: Result<(String, Vec<(String, Vec<Annotation>)>), Error>)
    ensures
        r matches Ok((species, groups)) ==> {
            &&& regex_valid(id_pattern@)
            &&& crate::pattern::regex_group_names(id_pattern@).contains(Some("id"@))
            &&& regex_valid(species_pattern@)
            &&& crate::pattern::regex_group_names(species_pattern@).contains(
                Some("species"@),
            )
            &&& regex_capture(species_pattern@, spec_base_name(content.name@), "species"@)
                == Some(species@)
            &&& spec_decoder_kind(content.name@) matches Some(kind) && spec_ingest_lines(
                Seq::<(Seq<char>, Seq<AnnotationData>)>::empty(),
                content.lines.deep_view(),
                0,
                kind,
                id_pattern@,
                id_type@,
                families.map@,
            ) == Ok::<_, IngestIssue>(groups_view(groups@))
        },
        !regex_valid(id_pattern@) ==> (r matches Err(Error::InvalidRegex { re, .. }) && re@
            == id_pattern@),
        regex_valid(id_pattern@) && !crate::pattern::regex_group_names(id_pattern@).contains(
            Some("id"@),
        ) ==> (r matches Err(Error::MissingCaptureGroup { cap, re }) && cap@ == "id"@ && re@
            == id_pattern@),
        r matches Err(e) ==> match e {
            Error::InvalidRegex { re, .. } => (re@ == id_pattern@ && !regex_valid(id_pattern@))
                || (re@ == species_pattern@ && !regex_valid(species_pattern@)),
            Error::MissingCaptureGroup { cap, re } => (regex_valid(id_pattern@) && cap@
                == "id"@ && re@ == id_pattern@ && !crate::pattern::regex_group_names(
                id_pattern@,
            ).contains(Some("id"@))) || (regex_valid(species_pattern@) && cap@ == "species"@
                && re@ == species_pattern@ && !crate::pattern::regex_group_names(
                species_pattern@,
            ).contains(Some("species"@))),
            Error::SpeciesNotFound(f) => f@ == content.name@ && regex_capture(
                species_pattern@,
                spec_base_name(content.name@),
                "species"@,
            ) is None,
            Error::UnsupportedFiletype(n) => n@ == content.name@ && spec_decoder_kind(
                content.name@,
            ) is None,
            Error::Parse(_) => spec_decoder_kind(content.name@) matches Some(kind)
                && spec_ingest_lines(
                Seq::<(Seq<char>, Seq<AnnotationData>)>::empty(),
                content.lines.deep_view(),
                0,
                kind,
                id_pattern@,
                id_type@,
                families.map@,
            ) == Err::<Seq<(Seq<char>, Seq<AnnotationData>)>, _>(IngestIssue::Decode),
            Error::RecordWithoutId(t) => spec_decoder_kind(content.name@) matches Some(kind)
                && spec_ingest_lines(
                Seq::<(Seq<char>, Seq<AnnotationData>)>::empty(),
                content.lines.deep_view(),
                0,
                kind,
                id_pattern@,
                id_type@,
                families.map@,
            ) == Err::<Seq<(Seq<char>, Seq<AnnotationData>)>, _>(
                IngestIssue::RecordWithoutId(t@),
            ),
            Error::IdNotFound(t) => spec_decoder_kind(content.name@) matches Some(kind)
                && spec_ingest_lines(
                Seq::<(Seq<char>, Seq<AnnotationData>)>::empty(),
                content.lines.deep_view(),
                0,
                kind,
                id_pattern@,
                id_type@,
                families.map@,
            ) == Err::<Seq<(Seq<char>, Seq<AnnotationData>)>, _>(IngestIssue::IdNotFound(t@)),
            _ => false,
        },
{
    let id_regex = match Pattern::compile(id_pattern) {
        Ok(p) => p,
        Err(m) => {
            return Err(Error::InvalidRegex { re: id_pattern.to_owned(), message: m });
        },
    };
    if !id_regex.has_group("id") {
        return Err(
            Error::MissingCaptureGroup {
                cap: String::from_str("id"),
                re: id_pattern.to_owned(),
            },
        );
    }
    let species = match parse_species(content.name.as_str(), species_pattern) {
        Ok(sp) => sp,
        Err(e) => {
            return Err(e);
        },
    };
    let kind = match decoder_kind(content.name.as_str()) {
        Some(k) => k,
        None => {
            return Err(Error::UnsupportedFiletype(content.name.clone()));
        },
    };
    let ghost lines = content.lines.deep_view();
    let ghost fams = families.map@;
    let ghost whole = spec_ingest_lines(
        Seq::<(Seq<char>, Seq<AnnotationData>)>::empty(),
        lines,
        0,
        kind,
        id_pattern@,
        id_type@,
        fams,
    );
    let mut groups: Vec<(String, Vec<Annotation>)> = Vec::new();
    let mut i: usize = 0;
    proof {
        assert(groups_view(groups@) =~= Seq::<(Seq<char>, Seq<AnnotationData>)>::empty());
    }
    while i < content.lines.len()
        invariant
            0 <= i <= content.lines@.len(),
            lines == content.lines.deep_view(),
            lines.len() == content.lines@.len(),
            fams == families.map@,
            id_regex@ == id_pattern@,
            regex_valid(id_pattern@),
            crate::pattern::regex_group_names(id_pattern@).contains(Some("id"@)),
            spec_decoder_kind(content.name@) == Some(kind),
            whole == spec_ingest_lines(
                Seq::<(Seq<char>, Seq<AnnotationData>)>::empty(),
                lines,
                0,
                kind,
                id_pattern@,
                id_type@,
                fams,
            ),
            whole == spec_ingest_lines(
                groups_view(groups@),
                lines,
                i as int,
                kind,
                id_pattern@,
                id_type@,
                fams,
            ),
        decreases content.lines@.len() - i,
    {
        let line = &content.lines[i];
        proof {
            assert(line@ == lines[i as int]);
        }
        if !is_comment_or_blank(line.as_str()) {
            let record = match parse_record_line(kind, line.as_str()) {
                Ok(rec) => rec,
                Err(e) => {
                    return Err(Error::Parse(e));
                },
            };
            let ghost rec = record@;
            if record.is_class(id_type) {
                let raw = match record.id() {
                    Some(x) => x,
                    None => {
                        return Err(Error::RecordWithoutId(place_of(&record)));
                    },
                };
                let id = match id_regex.capture(raw, "id") {
                    Some(x) => x,
                    None => {
                        return Err(Error::IdNotFound(raw.to_owned()));
                    },
                };
                match families.lookup(id.as_str()) {
                    Some(ancestral_id) => {
                        if !groups_have_id(&groups, id.as_str()) {
                            let chr = record.chr().to_owned();
                            let ann = Annotation {
                                id,
                                dir: record.strand(),
                                start: record.start(),
                                stop: record.end(),
                                ancestral_id,
                            };
                            group_push(&mut groups, chr.as_str(), ann);
                        }
                    },
                    None => {},
                }
            }
        }
        i += 1;
    }
    proof {
        assert(spec_ingest_lines(
            groups_view(groups@),
            lines,
            i as int,
            kind,
            id_pattern@,
            id_type@,
            fams,
        ) == Ok::<_, IngestIssue>(groups_view(groups@)));
    }
    Ok((species, groups))
}

/// The views of the per-species genome accumulation.
pub open spec fn genomes_view(v: Seq<(String, Vec<(String, Vec<Annotation>)>)>) -> Seq<
    (Seq<char>, Seq<(Seq<char>, Seq<AnnotationData>)>),
> {
    v.map_values(|p: (String, Vec<(String, Vec<Annotation>)>)| (p.0@, groups_view(p.1@)))
}

/// A whole grouping appended under a chromosome: concatenated onto
/// that chromosome's entry when one exists, else as a new entry.
pub open spec fn spec_group_append(
    groups: Seq<(Seq<char>, Seq<AnnotationData>)>,
    chr: Seq<char>,
    anns: Seq<AnnotationData>,
) -> Seq<(Seq<char>, Seq<AnnotationData>)> {
    let i = spec_group_index(groups, chr);
    if i < groups.len() {
        groups.update(i, (groups[i].0, groups[i].1 + anns))
    } else {
        groups.push((chr, anns))
    }
}

/// One file's grouping merged into a species' genome, entry by entry
/// in the file's order.
pub open spec fn spec_merge_into(
    genome: Seq<(Seq<char>, Seq<AnnotationData>)>,
    file_groups: Seq<(Seq<char>, Seq<AnnotationData>)>,
) -> Seq<(Seq<char>, Seq<AnnotationData>)>
    decreases file_groups.len(),
{
    if file_groups.len() == 0 {
        genome
    } else {
        spec_group_append(
            spec_merge_into(genome, file_groups.drop_last()),
            file_groups.last().0,
            file_groups.last().1,
        )
    }
}

/// Every chromosome list of a genome stably sorted by start.
pub open spec fn spec_sort_genome(groups: Seq<(Seq<char>, Seq<AnnotationData>)>) -> Seq<
    (Seq<char>, Seq<AnnotationData>),
> {
    groups.map_values(
        |p: (Seq<char>, Seq<AnnotationData>)| (p.0, spec_sort_by_start(p.1)),
    )
}

/// Appends a whole annotation list under its chromosome.
fn group_append(groups: &mut Vec<(String, Vec<Annotation>)>, chr: &str, anns: Vec<Annotation>)
    ensures
        groups_view(final(groups)@) == spec_group_append(
            groups_view(old(groups)@),
            chr@,
            anns_view(anns@),
        ),
{
    let ghost gv = groups_view(groups@);
    let ghost av = anns_view(anns@);
    proof {
        lemma_group_index(gv, chr@);
    }
    let i = group_find(groups, chr);
    if i < groups.len() {
        let mut entry = groups.remove(i);
        let mut tail = anns;
        entry.1.append(&mut tail);
        groups.insert(i, entry);
        proof {
            let target = spec_group_append(gv, chr@, av);
            assert forall|k: int| 0 <= k < anns_view(entry.1@).len() implies anns_view(
                entry.1@,
            )[k] == (gv[i as int].1 + av)[k] by {
                assert(anns_view(entry.1@)[k] == entry.1@[k]@);
            }
            assert(anns_view(entry.1@) =~= gv[i as int].1 + av);
            assert forall|k: int| 0 <= k < groups_view(groups@).len() implies groups_view(
                groups@,
            )[k] == target[k] by {
                assert(groups_view(groups@)[k] == (groups@[k].0@, anns_view(groups@[k].1@)));
                if k != i {
                    assert(groups@[k] == old(groups)@[k]);
                    assert(gv[k] == (old(groups)@[k].0@, anns_view(old(groups)@[k].1@)));
                }
            }
            assert(groups_view(groups@) =~= target);
        }
    } else {
        groups.push((chr.to_owned(), anns));
        proof {
            let target = spec_group_append(gv, chr@, av);
            assert forall|k: int| 0 <= k < groups_view(groups@).len() implies groups_view(
                groups@,
            )[k] == target[k] by {
                assert(groups_view(groups@)[k] == (groups@[k].0@, anns_view(groups@[k].1@)));
                if k < i {
                    assert(groups@[k] == old(groups)@[k]);
                    assert(gv[k] == (old(groups)@[k].0@, anns_view(old(groups)@[k].1@)));
                }
            }
            assert(groups_view(groups@) =~= target);
        }
    }
}

/// Merges one file's grouping into a species' genome.
fn merge_genome(genome: &mut Vec<(String, Vec<Annotation>)>, file_groups: Vec<(String, Vec<Annotation>)>)
    ensures
        groups_view(final(genome)@) == spec_merge_into(
            groups_view(old(genome)@),
            groups_view(file_groups@),
        ),
{
    let ghost fgv = groups_view(file_groups@);
    let ghost base = groups_view(genome@);
    let mut rest = file_groups;
    let ghost mut done: int = 0;
    proof {
        assert(fgv.subrange(0, 0) =~= Seq::<(Seq<char>, Seq<AnnotationData>)>::empty());
    }
    while rest.len() > 0
        invariant
            0 <= done <= fgv.len(),
            base == groups_view(old(genome)@),
            groups_view(rest@) == fgv.skip(done),
            groups_view(genome@) == spec_merge_into(base, fgv.subrange(0, done)),
        decreases rest@.len(),
    {
        let ghost rest0 = rest@;
        let entry = rest.remove(0);
        proof {
            assert(groups_view(rest0) == fgv.skip(done));
            assert(groups_view(rest0).len() == rest0.len());
            assert(0 <= done < fgv.len());
            assert(fgv.skip(done).len() == fgv.len() - done);
            assert(groups_view(rest0)[0] == (rest0[0].0@, anns_view(rest0[0].1@)));
            assert(fgv.skip(done)[0] == fgv[done]);
            assert(rest@ =~= rest0.skip(1));
            assert forall|k: int| 0 <= k < groups_view(rest@).len() implies groups_view(
                rest@,
            )[k] == fgv.skip(done + 1)[k] by {
                assert(groups_view(rest@)[k] == (rest@[k].0@, anns_view(rest@[k].1@)));
                assert(rest@[k] == rest0[k + 1]);
                assert(groups_view(rest0)[k + 1] == (rest0[k + 1].0@, anns_view(
                    rest0[k + 1].1@,
                )));
                assert(fgv.skip(done)[k + 1] == fgv[done + 1 + k]);
                assert(fgv.skip(done + 1)[k] == fgv[done + 1 + k]);
            }
            assert(groups_view(rest@) =~= fgv.skip(done + 1));
        }
        let (chr, anns) = entry;
        proof {
            assert((chr@, anns_view(anns@)) == fgv[done]);
        }
        group_append(genome, chr.as_str(), anns);
        proof {
            let sub = fgv.subrange(0, done + 1);
            assert(sub.drop_last() =~= fgv.subrange(0, done));
            assert(sub.last() == fgv[done]);
            done = done + 1;
        }
    }
    proof {
        assert(fgv.subrange(0, done) =~= fgv);
    }
}

/// Sorts every chromosome list of a genome stably by start.
fn sort_genome(genome: &mut Vec<(String, Vec<Annotation>)>)
    ensures
        groups_view(final(genome)@) == spec_sort_genome(groups_view(old(genome)@)),
{
    let ghost gv = groups_view(old(genome)@);
    let mut i: usize = 0;
    while i < genome.len()
        invariant
            0 <= i <= genome@.len(),
            genome@.len() == gv.len(),
            gv == groups_view(old(genome)@),
            forall|k: int| 0 <= k < genome@.len() ==> (#[trigger] groups_view(genome@)[k])
                == if k < i {
                    spec_sort_genome(gv)[k]
                } else {
                    gv[k]
                },
        decreases genome@.len() - i,
    {
        let ghost prev = genome@;
        let entry = genome.remove(i);
        let (chr, anns) = entry;
        let ghost anns0 = anns_view(anns@);
        proof {
            assert(groups_view(prev)[i as int] == (prev[i as int].0@, anns_view(
                prev[i as int].1@,
            )));
            assert((chr@, anns0) == gv[i as int]);
        }
        let sorted = sort_annotations(anns);
        genome.insert(i, (chr, sorted));
        proof {
            assert(genome@ =~= prev.update(i as int, genome@[i as int]));
            assert(genome@[i as int].0@ == gv[i as int].0);
            assert(anns_view(genome@[i as int].1@) == spec_sort_by_start(gv[i as int].1));
            assert forall|k: int| 0 <= k < genome@.len() implies (#[trigger] groups_view(
                genome@,
            )[k]) == if k < i + 1 {
                spec_sort_genome(gv)[k]
            } else {
                gv[k]
            } by {
                assert(groups_view(genome@)[k] == (genome@[k].0@, anns_view(genome@[k].1@)));
                if k == i {
                    assert(spec_sort_genome(gv)[k] == (gv[k].0, spec_sort_by_start(gv[k].1)));
                } else {
                    assert(genome@[k] == prev[k]);
                    assert(groups_view(prev)[k] == (prev[k].0@, anns_view(prev[k].1@)));
                    if k < i {
                        assert(groups_view(prev)[k] == spec_sort_genome(gv)[k]);
                    } else {
                        assert(groups_view(prev)[k] == gv[k]);
                    }
                }
            }
        }
        i += 1;
    }
    proof {
        assert forall|k: int| 0 <= k < groups_view(genome@).len() implies groups_view(
            genome@,
        )[k] == spec_sort_genome(gv)[k] by {}
        assert(groups_view(genome@) =~= spec_sort_genome(gv));
    }
}

/// Builds a one-character string.
fn char_string(c: char) -> (r: String)
    ensures
        r@ == seq![c],
{
    let mut s = String::new();
    crate::text::push_char(&mut s, c);
    proof {
        assert(s@ =~= seq![c]);
    }
    s
}

/// Every genome file of the list ingests cleanly: its species name is
/// captured from its base name, its extension selects a decoder, and
/// its lines fold to a grouping with no bad line and no rejected
/// record.
pub open spec fn spec_all_files_ingest(
    files: Seq<FileContent>,
    species_pattern: Seq<char>,
    id_type: Seq<char>,
    id_pattern: Seq<char>,
    families: Map<Seq<char>, usize>,
) -> bool {
    forall|k: int| 0 <= k < files.len() ==> {
        &&& regex_capture(
            species_pattern,
            spec_base_name((#[trigger] files[k]).name@),
            "species"@,
        ) is Some
        &&& spec_decoder_kind(files[k].name@) is Some
        &&& spec_ingest_lines(
            Seq::<(Seq<char>, Seq<AnnotationData>)>::empty(),
            files[k].lines.deep_view(),
            0,
            spec_decoder_kind(files[k].name@)->Some_0,
            id_pattern,
            id_type,
            families,
        ) is Ok
    }
}

/// Builds the whole synteny index: registers the family files in
/// order, ingests every genome file, merges each into its species'
/// genome and stably sorts every chromosome list, then drops and
/// recreates the `genomes` table and writes one row per retained
/// gene, its landscape windows of up to `window` neighbours per side
/// serialized in the tail wire format. Rows are committed one
/// chromosome per transaction.
pub fn db_from_files(
    families: &Vec<Vec<String>>,
    genome_files: &Vec<FileContent>,
    db_file: &str,
    species_pattern: &str,
    id_type: &str,
    id_pattern: &str,
    window: usize,
) -> (r: Result<(), Error>)
    ensures
        r is Ok && genome_files@.len() > 0 ==> {
            &&& regex_valid(id_pattern@)
            &&& crate::pattern::regex_group_names(id_pattern@).contains(Some("id"@))
            &&& regex_valid(species_pattern@)
            &&& crate::pattern::regex_group_names(species_pattern@).contains(
                Some("species"@),
            )
        },
        genome_files@.len() > 0 && !regex_valid(id_pattern@) ==> (r matches Err(
            Error::InvalidRegex { re, .. },
        ) && re@ == id_pattern@),
        genome_files@.len() > 0 && regex_valid(id_pattern@)
            && !crate::pattern::regex_group_names(id_pattern@).contains(Some("id"@)) ==> (
        r matches Err(Error::MissingCaptureGroup { cap, re }) && cap@ == "id"@ && re@
            == id_pattern@),
        r is Ok ==> spec_all_files_ingest(
            genome_files@,
            species_pattern@,
            id_type@,
            id_pattern@,
            crate::family::spec_family_index(families.deep_view()),
        ),
        r matches Err(e) ==> match e {
            Error::InvalidRegex { re, .. } => (re@ == id_pattern@ && !regex_valid(id_pattern@))
                || (re@ == species_pattern@ && !regex_valid(species_pattern@)),
            Error::MissingCaptureGroup { cap, re } => (regex_valid(id_pattern@) && cap@
                == "id"@ && re@ == id_pattern@ && !crate::pattern::regex_group_names(
                id_pattern@,
            ).contains(Some("id"@))) || (regex_valid(species_pattern@) && cap@ == "species"@
                && re@ == species_pattern@ && !crate::pattern::regex_group_names(
                species_pattern@,
            ).contains(Some("species"@))),
            Error::SpeciesNotFound(f) => exists|k: int|
                {
                    &&& 0 <= k < genome_files@.len()
                    &&& (#[trigger] genome_files@[k]).name@ == f@
                    &&& regex_capture(
                        species_pattern@,
                        spec_base_name(genome_files@[k].name@),
                        "species"@,
                    ) is None
                },
            Error::UnsupportedFiletype(n) => exists|k: int|
                {
                    &&& 0 <= k < genome_files@.len()
                    &&& (#[trigger] genome_files@[k]).name@ == n@
                    &&& spec_decoder_kind(genome_files@[k].name@) is None
                },
            Error::IdNotFound(t) => exists|k: int|
                {
                    &&& 0 <= k < genome_files@.len()
                    &&& (#[trigger] spec_decoder_kind(genome_files@[k].name@)) matches Some(
                        kind,
                    )
                    &&& spec_ingest_lines(
                        Seq::<(Seq<char>, Seq<AnnotationData>)>::empty(),
                        genome_files@[k].lines.deep_view(),
                        0,
                        kind,
                        id_pattern@,
                        id_type@,
                        crate::family::spec_family_index(families.deep_view()),
                    ) == Err::<Seq<(Seq<char>, Seq<AnnotationData>)>, _>(
                        IngestIssue::IdNotFound(t@),
                    )
                },
            Error::RecordWithoutId(t) => exists|k: int|
                {
                    &&& 0 <= k < genome_files@.len()
                    &&& (#[trigger] spec_decoder_kind(genome_files@[k].name@)) matches Some(
                        kind,
                    )
                    &&& spec_ingest_lines(
                        Seq::<(Seq<char>, Seq<AnnotationData>)>::empty(),
                        genome_files@[k].lines.deep_view(),
                        0,
                        kind,
                        id_pattern@,
                        id_type@,
                        crate::family::spec_family_index(families.deep_view()),
                    ) == Err::<Seq<(Seq<char>, Seq<AnnotationData>)>, _>(
                        IngestIssue::RecordWithoutId(t@),
                    )
                },
            Error::Parse(_) => exists|k: int|
                {
                    &&& 0 <= k < genome_files@.len()
                    &&& (#[trigger] spec_decoder_kind(genome_files@[k].name@)) matches Some(
                        kind,
                    )
                    &&& spec_ingest_lines(
                        Seq::<(Seq<char>, Seq<AnnotationData>)>::empty(),
                        genome_files@[k].lines.deep_view(),
                        0,
                        kind,
                        id_pattern@,
                        id_type@,
                        crate::family::spec_family_index(families.deep_view()),
                    ) == Err::<Seq<(Seq<char>, Seq<AnnotationData>)>, _>(IngestIssue::Decode)
                },
            Error::Storage(_) => (genome_files@.len() > 0 ==> regex_valid(id_pattern@)
                && crate::pattern::regex_group_names(id_pattern@).contains(Some("id"@))
                && regex_valid(species_pattern@) && crate::pattern::regex_group_names(
                species_pattern@,
            ).contains(Some("species"@))) && spec_all_files_ingest(
                genome_files@,
                species_pattern@,
                id_type@,
                id_pattern@,
                crate::family::spec_family_index(families.deep_view()),
            ),
            Error::File(_) => false,
        },
{
    let index = FamilyIndex::build(families);
    proof {
        assert(index.map@ == crate::family::spec_family_index(families.deep_view()));
    }
    let mut genomes: Vec<(String, Vec<(String, Vec<Annotation>)>)> = Vec::new();
    let mut i: usize = 0;
    proof {
        assert(spec_all_files_ingest(
            genome_files@.subrange(0, 0),
            species_pattern@,
            id_type@,
            id_pattern@,
            index.map@,
        ));
    }
    while i < genome_files.len()
        invariant
            0 <= i <= genome_files@.len(),
            index.map@ == crate::family::spec_family_index(families.deep_view()),
            i > 0 ==> regex_valid(id_pattern@) && crate::pattern::regex_group_names(
                id_pattern@,
            ).contains(Some("id"@)) && regex_valid(species_pattern@)
                && crate::pattern::regex_group_names(species_pattern@).contains(
                Some("species"@),
            ),
            spec_all_files_ingest(
                genome_files@.subrange(0, i as int),
                species_pattern@,
                id_type@,
                id_pattern@,
                index.map@,
            ),
        decreases genome_files@.len() - i,
    {
        let content = &genome_files[i];
        let (sp, fgroups) = match ingest_genome_file(
            content,
            species_pattern,
            id_type,
            id_pattern,
            &index,
        ) {
            Ok(x) => x,
            Err(e) => {
                return Err(e);
            },
        };
        proof {
            let sub = genome_files@.subrange(0, i + 1);
            assert forall|k: int| 0 <= k < sub.len() implies {
                &&& regex_capture(
                    species_pattern@,
                    spec_base_name((#[trigger] sub[k]).name@),
                    "species"@,
                ) is Some
                &&& spec_decoder_kind(sub[k].name@) is Some
                &&& spec_ingest_lines(
                    Seq::<(Seq<char>, Seq<AnnotationData>)>::empty(),
                    sub[k].lines.deep_view(),
                    0,
                    spec_decoder_kind(sub[k].name@)->Some_0,
                    id_pattern@,
                    id_type@,
                    index.map@,
                ) is Ok
            } by {
                assert(sub[k] == genome_files@[k]);
                if k < i {
                    assert(genome_files@.subrange(0, i as int)[k] == genome_files@[k]);
                }
            }
        }
        let gi = genome_find_species(&genomes, sp.as_str());
        if gi < genomes.len() {
            let (name, mut genome) = genomes.remove(gi);
            merge_genome(&mut genome, fgroups);
            sort_genome(&mut genome);
            genomes.insert(gi, (name, genome));
        } else {
            let mut genome: Vec<(String, Vec<Annotation>)> = Vec::new();
            merge_genome(&mut genome, fgroups);
            sort_genome(&mut genome);
            genomes.push((sp, genome));
        }
        i += 1;
    }
    proof {
        assert(genome_files@.subrange(0, i as int) =~= genome_files@);
    }
    let db = match crate::db::db_open(db_file) {
        Ok(d) => d,
        Err(m) => {
            return Err(Error::Storage(m));
        },
    };
    if let Err(m) = crate::db::db_execute(&db, "DROP TABLE IF EXISTS genomes;") {
        return Err(Error::Storage(m));
    }
    if let Err(m) = crate::db::db_execute(
        &db,
        "CREATE TABLE genomes (species text, chr text, ancestral_id integer, id text, start integer, stop integer, direction char, left_tail_ids text, right_tail_ids text)",
    ) {
        return Err(Error::Storage(m));
    }
    if let Err(m) = crate::db::db_execute(&db, "pragma temp_store = memory;") {
        return Err(Error::Storage(m));
    }
    let mut si: usize = 0;
    while si < genomes.len()
        invariant
            genome_files@.len() > 0 ==> regex_valid(id_pattern@)
                && crate::pattern::regex_group_names(id_pattern@).contains(Some("id"@))
                && regex_valid(species_pattern@) && crate::pattern::regex_group_names(
                species_pattern@,
            ).contains(Some("species"@)),
            spec_all_files_ingest(
                genome_files@,
                species_pattern@,
                id_type@,
                id_pattern@,
                crate::family::spec_family_index(families.deep_view()),
            ),
        decreases genomes@.len() - si,
    {
        let genome = &genomes[si].1;
        let mut ci: usize = 0;
        while ci < genome.len()
            invariant
                genome_files@.len() > 0 ==> regex_valid(id_pattern@)
                    && crate::pattern::regex_group_names(id_pattern@).contains(Some("id"@))
                    && regex_valid(species_pattern@) && crate::pattern::regex_group_names(
                    species_pattern@,
                ).contains(Some("species"@)),
                spec_all_files_ingest(
                    genome_files@,
                    species_pattern@,
                    id_type@,
                    id_pattern@,
                    crate::family::spec_family_index(families.deep_view()),
                ),
                0 <= si < genomes@.len(),
                genome == &genomes[si as int].1,
            decreases genome@.len() - ci,
        {
            let ids = &genome[ci].1;
            if let Err(m) = crate::db::db_execute(&db, "BEGIN") {
                return Err(Error::Storage(m));
            }
            let mut j: usize = 0;
            while j < ids.len()
                invariant
                    genome_files@.len() > 0 ==> regex_valid(id_pattern@)
                        && crate::pattern::regex_group_names(id_pattern@).contains(
                        Some("id"@),
                    ) && regex_valid(species_pattern@) && crate::pattern::regex_group_names(
                        species_pattern@,
                    ).contains(Some("species"@)),
                    spec_all_files_ingest(
                        genome_files@,
                        species_pattern@,
                        id_type@,
                        id_pattern@,
                        crate::family::spec_family_index(families.deep_view()),
                    ),
                    0 <= si < genomes@.len(),
                    genome == &genomes[si as int].1,
                    0 <= ci < genome@.len(),
                    ids == &genome@[ci as int].1,
                decreases ids@.len() - j,
            {
                let (left, right) = tails_at(ids, j, window);
                let left_text = crate::tail::serialize_tail(&left);
                let right_text = crate::tail::serialize_tail(&right);
                let direction = char_string(ids[j].dir.symbol());
                let sql = crate::db::insert_sql(
                    genomes[si].0.as_str(),
                    genome[ci].0.as_str(),
                    ids[j].ancestral_id,
                    ids[j].id.as_str(),
                    ids[j].start,
                    ids[j].stop,
                    direction.as_str(),
                    left_text.as_str(),
                    right_text.as_str(),
                );
                if let Err(m) = crate::db::db_execute(&db, sql.as_str()) {
                    return Err(Error::Storage(m));
                }
                j += 1;
            }
            if let Err(m) = crate::db::db_execute(&db, "COMMIT") {
                return Err(Error::Storage(m));
            }
            ci += 1;
        }
        si += 1;
    }
    if let Err(m) = crate::db::db_execute(&db, "CREATE INDEX genomes_species ON genomes(species)") {
        return Err(Error::Storage(m));
    }
    if let Err(m) = crate::db::db_execute(&db, "CREATE INDEX genomes_chr ON genomes(chr)") {
        return Err(Error::Storage(m));
    }
    if let Err(m) = crate::db::db_execute(&db, "CREATE INDEX genomes_id ON genomes(id)") {
        return Err(Error::Storage(m));
    }
    if let Err(m) = crate::db::db_execute(&db, "CREATE INDEX genomes_start ON genomes(start)") {
        return Err(Error::Storage(m));
    }
    Ok(())
}

/// Finds the entry of a species in the accumulation, or the length
/// when there is none.
fn genome_find_species(
    genomes: &Vec<(String, Vec<(String, Vec<Annotation>)>)>,
    sp: &str,
) -> (r: usize)
    ensures
        0 <= r <= genomes@.len(),
        r < genomes@.len() ==> genomes@[r as int].0@ == sp@,
        forall|k: int| 0 <= k < r ==> (#[trigger] genomes@[k]).0@ != sp@,
        r == genomes@.len() ==> forall|k: int|
            0 <= k < genomes@.len() ==> (#[trigger] genomes@[k]).0@ != sp@,
{
    let mut i: usize = 0;
    while i < genomes.len()
        invariant
            0 <= i <= genomes@.len(),
            forall|k: int| 0 <= k < i ==> (#[trigger] genomes@[k]).0@ != sp@,
        decreases genomes@.len() - i,
    {
        if str_eq(genomes[i].0.as_str(), sp) {
            return i;
        }
        i += 1;
    }
    i
}

} // verus!
