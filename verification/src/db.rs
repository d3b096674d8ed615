//! The persisted `genomes` table: one row per gene, with the two tail
//! strings. The storage engine is outside code behind a handful of
//! wrappers; the SQL texts themselves are built by verified code with
//! exact contracts. The connection sits behind a lock, so concurrent
//! callers serialize on it.

use vstd::prelude::*;

verus! {

use crate::text::{format_usize, spec_digits};

#[verifier::external_type_specification]
#[verifier::external_body]
pub struct ExConnection(rusqlite::Connection);

#[verifier::external_type_specification]
#[verifier::external_body]
#[verifier::reject_recursive_types(T)]
pub struct ExMutex<T: ?Sized>(std::sync::Mutex<T>);

/// A handle on one database, its connection behind a lock.
pub struct DbHandle {
    conn: std::sync::Mutex<rusqlite::Connection>,
}

/// The mathematical content of a [`GeneRow`].
pub struct GeneRowData {
    pub id: Seq<char>,
    pub left_tail: Seq<char>,
    pub right_tail: Seq<char>,
    pub ancestral_id: usize,
    pub species: Seq<char>,
    pub chr: Seq<char>,
    pub start: usize,
    pub direction: Seq<char>,
}

/// One row of the `genomes` table, as plain values.
pub struct GeneRow {
    pub id: String,
    pub left_tail: String,
    pub right_tail: String,
    pub ancestral_id: usize,
    pub species: String,
    pub chr: String,
    pub start: usize,
    pub direction: String,
}

impl View for GeneRow {
    type V = GeneRowData;

    open spec fn view(&self) -> GeneRowData {
        GeneRowData {
            id: self.id@,
            left_tail: self.left_tail@,
            right_tail: self.right_tail@,
            ancestral_id: self.ancestral_id,
            species: self.species@,
            chr: self.chr@,
            start: self.start,
            direction: self.direction@,
        }
    }
}

/// Relies on `rusqlite::Connection::open`: a handle on the database
/// file at the given path, or the engine's message; what comes back
/// depends on the state of the disk.
#[verifier::external_body]
pub fn db_open(path: &str) -> (r: Result<DbHandle, String>) {
    match rusqlite::Connection::open(path) {
        Ok(conn) => Ok(DbHandle { conn: std::sync::Mutex::new(conn) }),
        Err(e) => Err(e.to_string()),
    }
}

/// Relies on `rusqlite::Connection::execute`: runs one SQL statement
/// that returns no rows; success and the changed-row count depend on
/// the state of the database.
#[verifier::external_body]
pub fn db_execute(db: &DbHandle, sql: &str) -> (r: Result<usize, String>) {
    let conn = db.conn.lock().map_err(|e| e.to_string())?;
    conn.execute(sql, []).map_err(|e| e.to_string())
}

/// Relies on `rusqlite::Connection::prepare`, `Statement::query_map`
/// and `Row::get`: runs a query whose rows carry the eight columns of
/// the `genomes` table, with the given strings bound to its
/// placeholders in order; the rows depend on the state of the
/// database.
#[verifier::external_body]
pub fn db_query_gene_rows(db: &DbHandle, sql: &str, params: &Vec<String>) -> (r: Result<
    Vec<GeneRow>,
    String,
>) {
    let conn = db.conn.lock().map_err(|e| e.to_string())?;
    let mut stmt = conn.prepare(sql).map_err(|e| e.to_string())?;
    let rows = stmt.query_map(rusqlite::params_from_iter(params.iter()), |r| {
        Ok(GeneRow {
            id: r.get(0)?, left_tail: r.get(1)?, right_tail: r.get(2)?,
            ancestral_id: r.get(3)?, species: r.get(4)?, chr: r.get(5)?,
            start: r.get(6)?, direction: r.get(7)?,
        })
    }).map_err(|e| e.to_string())?;
    rows.collect::<Result<Vec<_>, _>>().map_err(|e| e.to_string())
}

/// Relies on `rusqlite::Connection::prepare`, `Statement::query_map`
/// and `Row::get`: runs a query whose rows carry one text column; the
/// rows depend on the state of the database.
#[verifier::external_body]
pub fn db_query_strings(db: &DbHandle, sql: &str) -> (r: Result<Vec<String>, String>) {
    let conn = db.conn.lock().map_err(|e| e.to_string())?;
    let mut stmt = conn.prepare(sql).map_err(|e| e.to_string())?;
    let rows = stmt.query_map([], |r| r.get::<_, String>(0)).map_err(|e| e.to_string())?;
    rows.collect::<Result<Vec<_>, _>>().map_err(|e| e.to_string())
}

/// The eight-column select over the `genomes` table, keyed on the
/// given id column.
pub open spec fn spec_select_sql(id_column: Seq<char>) -> Seq<char> {
    "SELECT "@ + id_column
        + ", left_tail_ids, right_tail_ids, ancestral_id, species, chr, start, direction FROM genomes"@
}

/// Builds the eight-column select over the `genomes` table.
pub fn select_sql(id_column: &str) -> (r: String)
    ensures
        r@ == spec_select_sql(id_column@),
{
    let mut sql = String::new();
    sql.append("SELECT ");
    sql.append(id_column);
    sql.append(
        ", left_tail_ids, right_tail_ids, ancestral_id, species, chr, start, direction FROM genomes",
    );
    proof {
        assert(sql@ =~= spec_select_sql(id_column@));
    }
    sql
}

/// The same select restricted to ids bound at `n` placeholders.
pub open spec fn spec_select_in_sql(id_column: Seq<char>, n: nat) -> Seq<char> {
    spec_select_sql(id_column) + " WHERE "@ + id_column + " IN ("@ + spec_placeholders(n)
        + ")"@
}

/// `n` comma-separated placeholders.
pub open spec fn spec_placeholders(n: nat) -> Seq<char>
    decreases n,
{
    if n == 0 {
        Seq::<char>::empty()
    } else if n == 1 {
        "?"@
    } else {
        spec_placeholders((n - 1) as nat) + ", ?"@
    }
}

/// Builds the select restricted to `n` bound ids.
pub fn select_in_sql(id_column: &str, n: usize) -> (r: String)
    ensures
        r@ == spec_select_in_sql(id_column@, n as nat),
{
    let mut sql = select_sql(id_column);
    sql.append(" WHERE ");
    sql.append(id_column);
    sql.append(" IN (");
    let mut i: usize = 0;
    let ghost base = spec_select_sql(id_column@) + " WHERE "@ + id_column@ + " IN ("@;
    proof {
        assert(sql@ =~= base + spec_placeholders(0));
    }
    while i < n
        invariant
            0 <= i <= n,
            sql@ == base + spec_placeholders(i as nat),
        decreases n - i,
    {
        if i == 0 {
            sql.append("?");
        } else {
            sql.append(", ?");
        }
        proof {
            assert(sql@ =~= base + spec_placeholders((i + 1) as nat));
        }
        i += 1;
    }
    sql.append(")");
    proof {
        assert(sql@ =~= spec_select_in_sql(id_column@, n as nat));
    }
    sql
}

/// The same select restricted to one id bound at a placeholder.
pub open spec fn spec_select_one_sql(id_column: Seq<char>) -> Seq<char> {
    spec_select_sql(id_column) + " WHERE "@ + id_column + "=?"@
}

/// Builds the select restricted to one bound id.
pub fn select_one_sql(id_column: &str) -> (r: String)
    ensures
        r@ == spec_select_one_sql(id_column@),
{
    let mut sql = select_sql(id_column);
    sql.append(" WHERE ");
    sql.append(id_column);
    sql.append("=?");
    proof {
        assert(sql@ =~= spec_select_one_sql(id_column@));
    }
    sql
}

/// A text value in single quotes, as the insert statement inlines it.
pub open spec fn spec_quoted(s: Seq<char>) -> Seq<char> {
    "'"@ + s + "'"@
}

/// The insert of one row into the `genomes` table, every value
/// inlined, the numeric ones in decimal.
pub open spec fn spec_insert_sql(
    species: Seq<char>,
    chr: Seq<char>,
    ancestral_id: usize,
    id: Seq<char>,
    start: usize,
    stop: usize,
    direction: Seq<char>,
    left_tail: Seq<char>,
    right_tail: Seq<char>,
) -> Seq<char> {
    "INSERT INTO genomes (species, chr, ancestral_id, id, start, stop, direction, left_tail_ids, right_tail_ids) VALUES ("@
        + spec_quoted(species) + ","@ + spec_quoted(chr) + ","@ + spec_quoted(
        spec_digits(ancestral_id as nat),
    ) + ","@ + spec_quoted(id) + ","@ + spec_quoted(spec_digits(start as nat)) + ","@
        + spec_quoted(spec_digits(stop as nat)) + ","@ + spec_quoted(direction) + ","@
        + spec_quoted(left_tail) + ","@ + spec_quoted(right_tail) + ")"@
}

fn append_quoted(sql: &mut String, v: &str)
    ensures
        final(sql)@ == old(sql)@ + spec_quoted(v@),
{
    sql.append("'");
    sql.append(v);
    sql.append("'");
    proof {
        assert(sql@ =~= old(sql)@ + spec_quoted(v@));
    }
}

/// Builds the insert of one row into the `genomes` table.
pub fn insert_sql(
    species: &str,
    chr: &str,
    ancestral_id: usize,
    id: &str,
    start: usize,
    stop: usize,
    direction: &str,
    left_tail: &str,
    right_tail: &str,
) -> (r: String)
    ensures
        r@ == spec_insert_sql(
            species@,
            chr@,
            ancestral_id,
            id@,
            start,
            stop,
            direction@,
            left_tail@,
            right_tail@,
        ),
{
    let mut sql = String::new();
    sql.append(
        "INSERT INTO genomes (species, chr, ancestral_id, id, start, stop, direction, left_tail_ids, right_tail_ids) VALUES (",
    );
    append_quoted(&mut sql, species);
    sql.append(",");
    append_quoted(&mut sql, chr);
    sql.append(",");
    let ancestral_text = crate::text::chars_string(&format_usize(ancestral_id));
    append_quoted(&mut sql, ancestral_text.as_str());
    sql.append(",");
    append_quoted(&mut sql, id);
    sql.append(",");
    let start_text = crate::text::chars_string(&format_usize(start));
    append_quoted(&mut sql, start_text.as_str());
    sql.append(",");
    let stop_text = crate::text::chars_string(&format_usize(stop));
    append_quoted(&mut sql, stop_text.as_str());
    sql.append(",");
    append_quoted(&mut sql, direction);
    sql.append(",");
    append_quoted(&mut sql, left_tail);
    sql.append(",");
    append_quoted(&mut sql, right_tail);
    sql.append(")");
    proof {
        assert(sql@ =~= spec_insert_sql(
            species@,
            chr@,
            ancestral_id,
            id@,
            start,
            stop,
            direction@,
            left_tail@,
            right_tail@,
        ));
    }
    sql
}

} // verus!
