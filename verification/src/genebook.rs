//! The landscape query engine: gene records reconstructed from the
//! persisted table, looked up by id under one of three interchangeable
//! retrieval strategies.

use vstd::prelude::*;

pub use crate::tail::FamilyID;
pub use crate::tail::TailGene;

verus! {

use vstd::hash_map::StringHashMap;

use crate::Strand;
use crate::errors::DataError;

/// The mathematical content of a [`Gene`]: every field by its view.
pub struct GeneData {
    pub id: Seq<char>,
    pub species: Seq<char>,
    pub family: FamilyID,
    pub chr: Seq<char>,
    pub pos: usize,
    pub strand: Strand,
    pub left_landscape: Seq<TailGene>,
    pub right_landscape: Seq<TailGene>,
}

/// A gene as the query engine serves it: identity, place, family, and
/// the two landscape tails. The left tail reads farthest-to-nearest,
/// the right tail nearest-to-farthest.
#[derive(Debug)]
pub struct Gene {
    pub id: String,
    pub species: String,
    pub family: FamilyID,
    pub chr: String,
    pub pos: usize,
    pub strand: Strand,
    pub left_landscape: Vec<TailGene>,
    pub right_landscape: Vec<TailGene>,
}

impl View for Gene {
    type V = GeneData;

    open spec fn view(&self) -> GeneData {
        GeneData {
            id: self.id@,
            species: self.species@,
            family: self.family,
            chr: self.chr@,
            pos: self.pos,
            strand: self.strand,
            left_landscape: self.left_landscape@,
            right_landscape: self.right_landscape@,
        }
    }
}

/// The tail entry a gene contributes to its neighbours' landscapes.
pub open spec fn spec_own_tail(g: GeneData) -> TailGene {
    TailGene { family: g.family, strand: g.strand }
}

/// The canonical local gene order around a gene: its left tail, then
/// the gene itself, then its right tail.
pub open spec fn spec_landscape(g: GeneData) -> Seq<TailGene> {
    g.left_landscape + seq![spec_own_tail(g)] + g.right_landscape
}

impl Clone for Gene {
    /// An exact copy: the copy's view is the original's.
    fn clone(&self) -> (g: Gene)
        ensures
            g@ == self@,
    {
        let g = Gene {
            id: self.id.clone(),
            species: self.species.clone(),
            family: self.family,
            chr: self.chr.clone(),
            pos: self.pos,
            strand: self.strand,
            left_landscape: self.left_landscape.clone(),
            right_landscape: self.right_landscape.clone(),
        };
        proof {
            assert(g.left_landscape@ =~= self.left_landscape@);
            assert(g.right_landscape@ =~= self.right_landscape@);
        }
        g
    }
}

impl Gene {
    /// The full local gene order: left tail, the gene itself as a tail
    /// entry, right tail, in that fixed order.
    pub fn landscape(&self) -> (r: Vec<TailGene>)
        ensures
            r@ == spec_landscape(self@),
    {
        let mut r: Vec<TailGene> = Vec::new();
        let mut i: usize = 0;
        while i < self.left_landscape.len()
            invariant
                0 <= i <= self.left_landscape@.len(),
                r@ == self.left_landscape@.subrange(0, i as int),
            decreases self.left_landscape@.len() - i,
        {
            r.push(self.left_landscape[i]);
            proof {
                assert(r@ =~= self.left_landscape@.subrange(0, i + 1 as int));
            }
            i += 1;
        }
        proof {
            assert(r@ =~= self.left_landscape@);
        }
        r.push(TailGene { family: self.family, strand: self.strand });
        let mut j: usize = 0;
        while j < self.right_landscape.len()
            invariant
                0 <= j <= self.right_landscape@.len(),
                r@ == self.left_landscape@ + seq![spec_own_tail(self@)]
                    + self.right_landscape@.subrange(0, j as int),
            decreases self.right_landscape@.len() - j,
        {
            r.push(self.right_landscape[j]);
            proof {
                assert(r@ =~= self.left_landscape@ + seq![spec_own_tail(self@)]
                    + self.right_landscape@.subrange(0, j + 1 as int));
            }
            j += 1;
        }
        proof {
            assert(r@ =~= spec_landscape(self@));
        }
        r
    }
}

/// The strand a persisted `direction` column denotes: its first
/// character, an unrecognized or empty column counting as unknown.
pub open spec fn spec_row_strand(s: Seq<char>) -> Strand {
    if s.len() > 0 && Strand::spec_from_symbol(s[0]) is Some {
        Strand::spec_from_symbol(s[0])->Some_0
    } else {
        Strand::Unknown
    }
}

/// Reads the strand of a persisted `direction` column.
pub fn row_strand(s: &str) -> (r: Strand)
    ensures
        r == spec_row_strand(s@),
{
    let len = s.unicode_len();
    if len == 0 {
        return Strand::Unknown;
    }
    match Strand::from_symbol(s.get_char(0)) {
        Some(d) => d,
        None => Strand::Unknown,
    }
}

/// The gene a persisted row reconstructs to at query window `window`:
/// both tails parsed from their wire form and truncated to the
/// window; nothing when a tail does not parse back.
pub open spec fn spec_gene_of_row(row: crate::db::GeneRowData, window: usize) -> Option<
    GeneData,
> {
    match crate::tail::spec_parse_landscape(row.left_tail) {
        None => None,
        Some(left) => match crate::tail::spec_parse_landscape(row.right_tail) {
            None => None,
            Some(right) => Some(
                GeneData {
                    id: row.id,
                    species: row.species,
                    family: row.ancestral_id,
                    chr: row.chr,
                    pos: row.start,
                    strand: spec_row_strand(row.direction),
                    left_landscape: crate::tail::spec_truncate_left(left, window as int),
                    right_landscape: crate::tail::spec_truncate_right(right, window as int),
                },
            ),
        },
    }
}

/// Reconstructs the gene a persisted row holds, at query window
/// `window`.
pub fn gene_from_row(row: &crate::db::GeneRow, window: usize) -> (r: Result<Gene, DataError>)
    ensures
        r matches Ok(g) ==> spec_gene_of_row(row@, window) == Some(g@),
        r is Err ==> spec_gene_of_row(row@, window) is None && r matches Err(
            DataError::CorruptRow(_),
        ),
{
    let left_full = match crate::tail::parse_landscape(row.left_tail.as_str()) {
        Some(l) => l,
        None => {
            return Err(DataError::CorruptRow(row.id.clone()));
        },
    };
    let right_full = match crate::tail::parse_landscape(row.right_tail.as_str()) {
        Some(l) => l,
        None => {
            return Err(DataError::CorruptRow(row.id.clone()));
        },
    };
    let left = crate::tail::truncate_left_tail(&left_full, window);
    let right = crate::tail::truncate_right_tail(&right_full, window);
    let strand = row_strand(row.direction.as_str());
    Ok(
        Gene {
            id: row.id.clone(),
            species: row.species.clone(),
            family: row.ancestral_id,
            chr: row.chr.clone(),
            pos: row.start,
            strand,
            left_landscape: left,
            right_landscape: right,
        },
    )
}

/// The views of a row list.
pub open spec fn rows_view(rows: Seq<crate::db::GeneRow>) -> Seq<crate::db::GeneRowData> {
    rows.map_values(|r: crate::db::GeneRow| r@)
}

/// The views of a resident gene map.
pub open spec fn spec_map_data(m: Map<Seq<char>, Gene>) -> Map<Seq<char>, GeneData> {
    Map::new(|k: Seq<char>| m.contains_key(k), |k: Seq<char>| m[k]@)
}

/// The id-to-gene map a row list loads to at query window `window`,
/// later rows winning on a repeated id; nothing when some row is
/// corrupt.
pub open spec fn spec_rows_to_genes(rows: Seq<crate::db::GeneRowData>, window: usize) -> Option<
    Map<Seq<char>, GeneData>,
>
    decreases rows.len(),
{
    if rows.len() == 0 {
        Some(Map::<Seq<char>, GeneData>::empty())
    } else {
        match spec_rows_to_genes(rows.drop_last(), window) {
            None => None,
            Some(m) => match spec_gene_of_row(rows.last(), window) {
                None => None,
                Some(g) => Some(m.insert(rows.last().id, g)),
            },
        }
    }
}

/// Every gene of a loaded map sits under its own id and keeps both
/// tails within the window.
pub open spec fn spec_book_wf(genes: Map<Seq<char>, GeneData>, window: usize) -> bool {
    forall|k: Seq<char>| genes.contains_key(k) ==> {
        &&& (#[trigger] genes[k]).id == k
        &&& genes[k].left_landscape.len() <= window
        &&& genes[k].right_landscape.len() <= window
    }
}

/// A loaded map is well formed.
pub proof fn lemma_rows_to_genes_wf(rows: Seq<crate::db::GeneRowData>, window: usize)
    requires
        spec_rows_to_genes(rows, window) is Some,
    ensures
        spec_book_wf(spec_rows_to_genes(rows, window)->Some_0, window),
    decreases rows.len(),
{
    if rows.len() > 0 {
        lemma_rows_to_genes_wf(rows.drop_last(), window);
    }
}

/// Loads a row list into a resident gene map at query window
/// `window`.
fn genes_from_rows(rows: &Vec<crate::db::GeneRow>, window: usize) -> (r: Result<
    StringHashMap<Gene>,
    DataError,
>)
    ensures
        r matches Ok(m) ==> spec_rows_to_genes(rows_view(rows@), window) == Some(
            spec_map_data(m@),
        ),
        r is Err ==> spec_rows_to_genes(rows_view(rows@), window) is None && r matches Err(
            DataError::CorruptRow(_),
        ),
{
    let ghost all = rows_view(rows@);
    let mut genes: StringHashMap<Gene> = StringHashMap::new();
    let mut i: usize = 0;
    proof {
        assert(all.subrange(0, 0) =~= Seq::<crate::db::GeneRowData>::empty());
        assert(spec_map_data(genes@) =~= Map::<Seq<char>, GeneData>::empty());
    }
    while i < rows.len()
        invariant
            0 <= i <= rows@.len(),
            all == rows_view(rows@),
            all.len() == rows@.len(),
            spec_rows_to_genes(all.subrange(0, i as int), window) == Some(
                spec_map_data(genes@),
            ),
        decreases rows@.len() - i,
    {
        let row = &rows[i];
        proof {
            assert(rows_view(rows@)[i as int] == rows@[i as int]@);
        }
        let key = row.id.clone();
        let ghost row_data = rows@[i as int]@;
        let gene = match gene_from_row(row, window) {
            Ok(g) => g,
            Err(e) => {
                proof {
                    let sub = all.subrange(0, i + 1);
                    assert(sub.drop_last() =~= all.subrange(0, i as int));
                    assert(sub.last() == all[i as int]);
                    assert(spec_rows_to_genes(sub, window) is None);
                    lemma_rows_to_genes_none(all, i + 1, window);
                }
                return Err(e);
            },
        };
        let ghost before = spec_map_data(genes@);
        genes.insert(key, gene);
        proof {
            assert(spec_map_data(genes@) =~= before.insert(row_data.id, gene@));
            let sub = all.subrange(0, i + 1);
            assert(sub.drop_last() =~= all.subrange(0, i as int));
            assert(sub.last() == all[i as int]);
        }
        i += 1;
    }
    proof {
        assert(all.subrange(0, i as int) =~= all);
    }
    Ok(genes)
}

/// A row list with a corrupt row among its first `i` loads to
/// nothing.
proof fn lemma_rows_to_genes_none(rows: Seq<crate::db::GeneRowData>, i: int, window: usize)
    requires
        0 <= i <= rows.len(),
        spec_rows_to_genes(rows.subrange(0, i), window) is None,
    ensures
        spec_rows_to_genes(rows, window) is None,
    decreases rows.len() - i,
{
    if i < rows.len() {
        let sub = rows.subrange(0, i + 1);
        assert(sub.drop_last() =~= rows.subrange(0, i));
        lemma_rows_to_genes_none(rows, i + 1, window);
    } else {
        assert(rows.subrange(0, i) =~= rows);
    }
}

/// The gene the lazy strategy serves for a row found under the
/// queried id: the row's gene, carrying the queried id itself.
pub open spec fn spec_inline_gene(
    row: crate::db::GeneRowData,
    window: usize,
    qid: Seq<char>,
) -> Option<GeneData> {
    match spec_gene_of_row(row, window) {
        Some(d) => Some(GeneData { id: qid, ..d }),
        None => None,
    }
}

/// An exact copy of a species list.
fn clone_strings(v: &Vec<String>) -> (r: Vec<String>)
    ensures
        r.deep_view() == v.deep_view(),
{
    let mut r: Vec<String> = Vec::new();
    let mut i: usize = 0;
    while i < v.len()
        invariant
            0 <= i <= v@.len(),
            r.deep_view() == v.deep_view().subrange(0, i as int),
        decreases v@.len() - i,
    {
        let ghost before = r.deep_view();
        r.push(v[i].clone());
        proof {
            assert(r.deep_view() =~~= before.push(v@[i as int]@));
            assert(v.deep_view()[i as int] == v@[i as int]@);
            assert(r.deep_view() =~~= v.deep_view().subrange(0, i + 1 as int));
        }
        i += 1;
    }
    proof {
        assert(v.deep_view().subrange(0, i as int) =~= v.deep_view());
    }
    r
}

/// The landscape query engine: one lookup contract, three
/// interchangeable retrieval strategies chosen at construction.
pub enum GeneBook {
    /// Every row resident, loaded at construction.
    InMemory { genes: StringHashMap<Gene>, species: Vec<String> },
    /// Only the rows of a caller-supplied id set resident.
    Cached { genes: StringHashMap<Gene>, species: Vec<String> },
    /// No resident rows: every lookup is one point query against the
    /// shared connection.
    Inline { conn: crate::db::DbHandle, window: usize, id_column: String },
}

impl GeneBook {
    /// The full-preload strategy: loads every row of the `genomes`
    /// table, each gene's tails truncated to `window`.
    pub fn in_memory(filename: &str, window: usize, id_column: &str) -> (r: Result<
        GeneBook,
        DataError,
    >)
        ensures
            r matches Ok(book) ==> book matches GeneBook::InMemory { genes, species }
                && spec_book_wf(spec_map_data(genes@), window) && exists|
                rows: Seq<crate::db::GeneRowData>,
            | spec_rows_to_genes(rows, window) == Some(spec_map_data(genes@)),
            r matches Err(e) ==> match e {
                DataError::FailedToConnect { filename: f, .. } => f@ == filename@,
                DataError::StorageError(_) => true,
                DataError::CorruptRow(_) => true,
                _ => false,
            },
    {
        let db = match crate::db::db_open(filename) {
            Ok(d) => d,
            Err(m) => {
                return Err(DataError::FailedToConnect { filename: filename.to_owned(), message: m });
            },
        };
        let sql = crate::db::select_sql(id_column);
        let params: Vec<String> = Vec::new();
        let rows = match crate::db::db_query_gene_rows(&db, sql.as_str(), &params) {
            Ok(rs) => rs,
            Err(m) => {
                return Err(DataError::StorageError(m));
            },
        };
        let genes = match genes_from_rows(&rows, window) {
            Ok(m) => m,
            Err(e) => {
                return Err(e);
            },
        };
        proof {
            lemma_rows_to_genes_wf(rows_view(rows@), window);
        }
        let species = match crate::db::db_query_strings(&db, "SELECT DISTINCT species FROM genomes") {
            Ok(v) => v,
            Err(m) => {
                return Err(DataError::StorageError(m));
            },
        };
        Ok(GeneBook::InMemory { genes, species })
    }

    /// The filtered-preload strategy: like full preload, but the load
    /// is restricted at the storage layer to the given ids.
    pub fn cached(filename: &str, window: usize, id_column: &str, ids: &Vec<String>) -> (r:
        Result<GeneBook, DataError>)
        ensures
            r matches Ok(book) ==> book matches GeneBook::Cached { genes, species }
                && spec_book_wf(spec_map_data(genes@), window) && exists|
                rows: Seq<crate::db::GeneRowData>,
            | spec_rows_to_genes(rows, window) == Some(spec_map_data(genes@)),
            r matches Err(e) ==> match e {
                DataError::FailedToConnect { filename: f, .. } => f@ == filename@,
                DataError::StorageError(_) => true,
                DataError::CorruptRow(_) => true,
                _ => false,
            },
    {
        let db = match crate::db::db_open(filename) {
            Ok(d) => d,
            Err(m) => {
                return Err(DataError::FailedToConnect { filename: filename.to_owned(), message: m });
            },
        };
        let sql = crate::db::select_in_sql(id_column, ids.len());
        let rows = match crate::db::db_query_gene_rows(&db, sql.as_str(), ids) {
            Ok(rs) => rs,
            Err(m) => {
                return Err(DataError::StorageError(m));
            },
        };
        let genes = match genes_from_rows(&rows, window) {
            Ok(m) => m,
            Err(e) => {
                return Err(e);
            },
        };
        proof {
            lemma_rows_to_genes_wf(rows_view(rows@), window);
        }
        let species = match crate::db::db_query_strings(&db, "SELECT DISTINCT species FROM genomes") {
            Ok(v) => v,
            Err(m) => {
                return Err(DataError::StorageError(m));
            },
        };
        Ok(GeneBook::Cached { genes, species })
    }

    /// The lazy strategy: no preload; the connection is kept for one
    /// point query per lookup.
    pub fn inline(filename: &str, window: usize, id_column: &str) -> (r: Result<
        GeneBook,
        DataError,
    >)
        ensures
            r matches Ok(book) ==> book matches GeneBook::Inline { window: w, id_column: c, .. }
                && w == window && c@ == id_column@,
            r matches Err(e) ==> e matches DataError::FailedToConnect { filename: f, .. }
                && f@ == filename@,
    {
        let db = match crate::db::db_open(filename) {
            Ok(d) => d,
            Err(m) => {
                return Err(DataError::FailedToConnect { filename: filename.to_owned(), message: m });
            },
        };
        Ok(GeneBook::Inline { conn: db, window, id_column: id_column.to_owned() })
    }

    /// Looks a gene up by id. Under the preload strategies this
    /// returns exactly the resident record, and fails with the
    /// unknown-id error if and only if the id is not resident; under
    /// the lazy strategy it serves whatever row the table holds for
    /// the id, reconstructed under the same truncation rule, and an
    /// id the table has no row for gets the same typed unknown-id
    /// error as a non-resident id does elsewhere, never a raw engine
    /// error: a miss looks alike under every strategy.
    pub fn get(&self, g: &str) -> (r: Result<Gene, DataError>)
        ensures
            self matches GeneBook::InMemory { genes, .. } ==> {
                &&& (r matches Ok(gene) ==> genes@.contains_key(g@) && gene@ == genes@[g@]@)
                &&& (r is Err ==> !genes@.contains_key(g@) && (r matches Err(
                    DataError::UnknownId(t),
                ) && t@ == g@))
            },
            self matches GeneBook::Cached { genes, .. } ==> {
                &&& (r matches Ok(gene) ==> genes@.contains_key(g@) && gene@ == genes@[g@]@)
                &&& (r is Err ==> !genes@.contains_key(g@) && (r matches Err(
                    DataError::UnknownId(t),
                ) && t@ == g@))
            },
            self matches GeneBook::Inline { window, .. } ==> {
                &&& (r matches Ok(gene) ==> gene@.id == g@ && gene@.left_landscape.len()
                    <= *window && gene@.right_landscape.len() <= *window && exists|
                    row: crate::db::GeneRowData,
                |
                    spec_inline_gene(row, *window, g@) == Some(gene@))
                &&& (r matches Err(e) ==> match e {
                    DataError::UnknownId(t) => t@ == g@,
                    DataError::StorageError(_) => true,
                    DataError::CorruptRow(_) => true,
                    _ => false,
                })
            },
    {
        match self {
            GeneBook::InMemory { genes, .. } => match genes.get(g) {
                Some(v) => Ok(v.clone()),
                None => Err(DataError::UnknownId(g.to_owned())),
            },
            GeneBook::Cached { genes, .. } => match genes.get(g) {
                Some(v) => Ok(v.clone()),
                None => Err(DataError::UnknownId(g.to_owned())),
            },
            GeneBook::Inline { conn, window, id_column } => {
                let sql = crate::db::select_one_sql(id_column.as_str());
                let mut params: Vec<String> = Vec::new();
                params.push(g.to_owned());
                let rows = match crate::db::db_query_gene_rows(conn, sql.as_str(), &params) {
                    Ok(rs) => rs,
                    Err(m) => {
                        return Err(DataError::StorageError(m));
                    },
                };
                if rows.len() == 0 {
                    return Err(DataError::UnknownId(g.to_owned()));
                }
                let found = match gene_from_row(&rows[0], *window) {
                    Ok(gene) => gene,
                    Err(e) => {
                        return Err(e);
                    },
                };
                let ghost row0 = rows@[0]@;
                let served = Gene { id: g.to_owned(), ..found };
                proof {
                    assert(spec_inline_gene(row0, *window, g@) == Some(served@));
                }
                Ok(served)
            },
        }
    }

    /// Replaces the resident record under an id, for in-place edits
    /// by downstream callers. Under the preload strategies this
    /// succeeds if and only if the id is resident; the lazy strategy
    /// holds no resident records and refuses with the immutable
    /// error, unchanged.
    pub fn update(&mut self, g: &str, gene: Gene) -> (r: Result<(), DataError>)
        ensures
            *old(self) matches GeneBook::InMemory { genes, species } ==> {
                &&& (genes@.contains_key(g@) ==> r is Ok && (*final(self) matches
                    GeneBook::InMemory { genes: g2, species: s2 } && g2@ == genes@.insert(
                    g@,
                    gene,
                ) && s2 == species))
                &&& (!genes@.contains_key(g@) ==> (r matches Err(DataError::UnknownId(t)) && t@
                    == g@) && *final(self) == *old(self))
            },
            *old(self) matches GeneBook::Cached { genes, species } ==> {
                &&& (genes@.contains_key(g@) ==> r is Ok && (*final(self) matches
                    GeneBook::Cached { genes: g2, species: s2 } && g2@ == genes@.insert(
                    g@,
                    gene,
                ) && s2 == species))
                &&& (!genes@.contains_key(g@) ==> (r matches Err(DataError::UnknownId(t)) && t@
                    == g@) && *final(self) == *old(self))
            },
            *old(self) is Inline ==> (r matches Err(DataError::ImmutableBook)) && *final(self)
                == *old(self),
    {
        match self {
            GeneBook::InMemory { genes, .. } => {
                if genes.contains_key(g) {
                    genes.insert(g.to_owned(), gene);
                    Ok(())
                } else {
                    Err(DataError::UnknownId(g.to_owned()))
                }
            },
            GeneBook::Cached { genes, .. } => {
                if genes.contains_key(g) {
                    genes.insert(g.to_owned(), gene);
                    Ok(())
                } else {
                    Err(DataError::UnknownId(g.to_owned()))
                }
            },
            GeneBook::Inline { .. } => Err(DataError::ImmutableBook),
        }
    }

    /// The species present: the list loaded at construction under the
    /// preload strategies, a fresh distinct-values query under the
    /// lazy one.
    pub fn species(&self) -> (r: Result<Vec<String>, DataError>)
        ensures
            self matches GeneBook::InMemory { species, .. } ==> r matches Ok(v)
                && v.deep_view() == species.deep_view(),
            self matches GeneBook::Cached { species, .. } ==> r matches Ok(v) && v.deep_view()
                == species.deep_view(),
            *self is Inline ==> (r is Ok || r matches Err(DataError::StorageError(_))),
    {
        match self {
            GeneBook::InMemory { species, .. } => Ok(clone_strings(species)),
            GeneBook::Cached { species, .. } => Ok(clone_strings(species)),
            GeneBook::Inline { conn, .. } => {
                match crate::db::db_query_strings(conn, "SELECT DISTINCT species FROM genomes") {
                    Ok(v) => Ok(v),
                    Err(m) => Err(DataError::StorageError(m)),
                }
            },
        }
    }
}

} // verus!
