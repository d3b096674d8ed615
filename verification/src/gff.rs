//! A decoder for the GFF3 format, as defined in http://gmod.org/wiki/GFF3:
//! nine tab-separated columns, the last a `;`-separated attribute list
//! of `key=value` pairs with `,`-separated values. Blank lines and `#`
//! comments are skipped. The score column is accepted and discarded.

use vstd::prelude::*;

verus! {

use crate::{Phase, Strand};
use crate::text::{
    all_digits,
    chars_string,
    digits_value,
    is_comment_or_blank,
    lemma_next_content_line,
    parse_usize_from,
    spec_numeric_column,
    spec_next_content_line,
    spec_split,
    split_chars,
    str_chars,
    str_eq,
};

/// Errors of the GFF3 decoder.
#[derive(Debug)]
pub enum GffError {
    /// A line with fewer than nine columns.
    RecordTooShort(String),
    /// An attribute entry that does not hold exactly one `=`.
    IncorrectAttribute(String),
    /// A coordinate, strand or phase column that does not parse.
    InvalidField(String),
}

/// A key to a GFF3 record attribute. The well-known keys are matched
/// without regard to ASCII case; any other key is kept verbatim.
#[derive(Debug, Clone)]
pub enum Key {
    ID,
    Name,
    Alias,
    Parent,
    Target,
    Gap,
    DerivesFrom,
    Note,
    Dbxref,
    OntologyTerm,
    K(String),
}

/// The mathematical content of a [`Key`].
pub enum KeyData {
    ID,
    Name,
    Alias,
    Parent,
    Target,
    Gap,
    DerivesFrom,
    Note,
    Dbxref,
    OntologyTerm,
    K(Seq<char>),
}

impl View for Key {
    type V = KeyData;

    open spec fn view(&self) -> KeyData {
        match self {
            Key::ID => KeyData::ID,
            Key::Name => KeyData::Name,
            Key::Alias => KeyData::Alias,
            Key::Parent => KeyData::Parent,
            Key::Target => KeyData::Target,
            Key::Gap => KeyData::Gap,
            Key::DerivesFrom => KeyData::DerivesFrom,
            Key::Note => KeyData::Note,
            Key::Dbxref => KeyData::Dbxref,
            Key::OntologyTerm => KeyData::OntologyTerm,
            Key::K(s) => KeyData::K(s@),
        }
    }
}

impl PartialEq for Key {
    /// Two keys are equal when they are the same well-known key, or
    /// verbatim keys with the same text.
    fn eq(&self, other: &Self) -> (r: bool)
        ensures
            r == (self@ == other@),
    {
        match (self, other) {
            (Key::ID, Key::ID) => true,
            (Key::Name, Key::Name) => true,
            (Key::Alias, Key::Alias) => true,
            (Key::Parent, Key::Parent) => true,
            (Key::Target, Key::Target) => true,
            (Key::Gap, Key::Gap) => true,
            (Key::DerivesFrom, Key::DerivesFrom) => true,
            (Key::Note, Key::Note) => true,
            (Key::Dbxref, Key::Dbxref) => true,
            (Key::OntologyTerm, Key::OntologyTerm) => true,
            (Key::K(k1), Key::K(k2)) => str_eq(k1.as_str(), k2.as_str()),
            _ => false,
        }
    }
}

impl vstd::std_specs::cmp::PartialEqSpecImpl for Key {
    open spec fn obeys_eq_spec() -> bool {
        true
    }

    open spec fn eq_spec(&self, other: &Key) -> bool {
        self@ == other@
    }
}

/// `a` is `b` up to ASCII case, where `b` is already lower case.
pub open spec fn char_eq_lower(a: char, b: char) -> bool {
    a == b || ('A' <= a && a <= 'Z' && a as int + 32 == b as int)
}

/// `s` matches the lower-case literal `lit` up to ASCII case.
pub open spec fn str_eq_lower(s: Seq<char>, lit: Seq<char>) -> bool {
    s.len() == lit.len() && forall|i: int|
        0 <= i < s.len() ==> char_eq_lower(#[trigger] s[i], lit[i])
}

fn char_eq_lower_exec(a: char, b: char) -> (r: bool)
    ensures
        r == char_eq_lower(a, b),
{
    a == b || ('A' <= a && a <= 'Z' && a as u32 + 32 == b as u32)
}

fn str_eq_lower_exec(v: &Vec<char>, lit: &str) -> (r: bool)
    ensures
        r == str_eq_lower(v@, lit@),
{
    let len = lit.unicode_len();
    if v.len() != len {
        return false;
    }
    let mut i: usize = 0;
    while i < len
        invariant
            0 <= i <= len,
            len == lit@.len(),
            len == v@.len(),
            forall|k: int| 0 <= k < i ==> char_eq_lower(#[trigger] v@[k], lit@[k]),
        decreases len - i,
    {
        if !char_eq_lower_exec(v[i], lit.get_char(i)) {
            return false;
        }
        i += 1;
    }
    true
}

/// The key a raw attribute name denotes.
pub open spec fn spec_key_of(s: Seq<char>) -> KeyData {
    if str_eq_lower(s, "id"@) {
        KeyData::ID
    } else if str_eq_lower(s, "name"@) {
        KeyData::Name
    } else if str_eq_lower(s, "alias"@) {
        KeyData::Alias
    } else if str_eq_lower(s, "parent"@) {
        KeyData::Parent
    } else if str_eq_lower(s, "target"@) {
        KeyData::Target
    } else if str_eq_lower(s, "gap"@) {
        KeyData::Gap
    } else if str_eq_lower(s, "derives_from"@) {
        KeyData::DerivesFrom
    } else if str_eq_lower(s, "note"@) {
        KeyData::Note
    } else if str_eq_lower(s, "dbxref"@) {
        KeyData::Dbxref
    } else if str_eq_lower(s, "ontology_term"@) {
        KeyData::OntologyTerm
    } else {
        KeyData::K(s)
    }
}

impl Key {
    /// The key a raw attribute name denotes; an unknown name is kept
    /// verbatim.
    pub fn of_text(v: &Vec<char>) -> (r: Key)
        ensures
            r@ == spec_key_of(v@),
    {
        if str_eq_lower_exec(v, "id") {
            Key::ID
        } else if str_eq_lower_exec(v, "name") {
            Key::Name
        } else if str_eq_lower_exec(v, "alias") {
            Key::Alias
        } else if str_eq_lower_exec(v, "parent") {
            Key::Parent
        } else if str_eq_lower_exec(v, "target") {
            Key::Target
        } else if str_eq_lower_exec(v, "gap") {
            Key::Gap
        } else if str_eq_lower_exec(v, "derives_from") {
            Key::DerivesFrom
        } else if str_eq_lower_exec(v, "note") {
            Key::Note
        } else if str_eq_lower_exec(v, "dbxref") {
            Key::Dbxref
        } else if str_eq_lower_exec(v, "ontology_term") {
            Key::OntologyTerm
        } else {
            Key::K(chars_string(v))
        }
    }
}

/// What one `key=value[,value]*` attribute entry decodes to.
pub open spec fn spec_attr_pair(pair: Seq<char>) -> Result<(KeyData, Seq<Seq<char>>), GffError> {
    let parts = spec_split(pair, '=');
    if parts.len() != 2 {
        Err(GffError::IncorrectAttribute(arbitrary()))
    } else {
        Ok((spec_key_of(parts[0]), spec_split(parts[1], ',')))
    }
}

/// What a `;`-separated attribute list decodes to, failing on the
/// first bad entry.
pub open spec fn spec_attrs(pairs: Seq<Seq<char>>) -> Result<
    Seq<(KeyData, Seq<Seq<char>>)>,
    GffError,
>
    decreases pairs.len(),
{
    if pairs.len() == 0 {
        Ok(Seq::<(KeyData, Seq<Seq<char>>)>::empty())
    } else {
        match spec_attr_pair(pairs[0]) {
            Err(e) => Err(e),
            Ok(p) => match spec_attrs(pairs.skip(1)) {
                Err(e) => Err(e),
                Ok(r) => Ok(seq![p] + r),
            },
        }
    }
}

/// The values under a key, the last entry of that key deciding, as a
/// map built from the pairs would have it.
pub open spec fn spec_attr_lookup(attrs: Seq<(KeyData, Seq<Seq<char>>)>, k: KeyData) -> Option<
    Seq<Seq<char>>,
>
    decreases attrs.len(),
{
    if attrs.len() == 0 {
        None
    } else if attrs.last().0 == k {
        Some(attrs.last().1)
    } else {
        spec_attr_lookup(attrs.drop_last(), k)
    }
}

/// The views of an attribute list.
pub open spec fn attrs_view(v: Seq<(Key, Vec<String>)>) -> Seq<(KeyData, Seq<Seq<char>>)> {
    v.map_values(|p: (Key, Vec<String>)| (p.0@, p.1.deep_view()))
}

/// The mathematical content of a [`Record`].
pub struct GffData {
    pub chr: Seq<char>,
    pub source: Option<Seq<char>>,
    pub class: Option<Seq<char>>,
    pub start: usize,
    pub end: usize,
    pub strand: Option<Strand>,
    pub phase: Option<Phase>,
    pub attributes: Seq<(KeyData, Seq<Seq<char>>)>,
}

/// One row of a GFF3 file, without its score column.
#[derive(Debug)]
pub struct Record {
    chr: String,
    source: Option<String>,
    class: Option<String>,
    start: usize,
    end: usize,
    strand: Option<Strand>,
    phase: Option<Phase>,
    attributes: Vec<(Key, Vec<String>)>,
}

impl View for Record {
    type V = GffData;

    closed spec fn view(&self) -> GffData {
        GffData {
            chr: self.chr@,
            source: match self.source {
                Some(ref s) => Some(s@),
                None => None,
            },
            class: match self.class {
                Some(ref s) => Some(s@),
                None => None,
            },
            start: self.start,
            end: self.end,
            strand: self.strand,
            phase: self.phase,
            attributes: attrs_view(self.attributes@),
        }
    }
}

/// The raw gene id of a record: the first value of its `ID`
/// attribute.
pub open spec fn spec_record_id(g: GffData) -> Option<Seq<char>> {
    match spec_attr_lookup(g.attributes, KeyData::ID) {
        Some(vals) => if vals.len() > 0 {
            Some(vals[0])
        } else {
            None
        },
        None => None,
    }
}

impl Record {
    pub fn chr(&self) -> (r: &str)
        ensures
            r@ == self@.chr,
    {
        self.chr.as_str()
    }

    pub fn source(&self) -> (r: Option<&String>)
        ensures
            match r {
                Some(s) => self@.source == Some(s@),
                None => self@.source is None,
            },
    {
        match &self.source {
            Some(s) => Some(s),
            None => None,
        }
    }

    pub fn class(&self) -> (r: Option<&String>)
        ensures
            match r {
                Some(s) => self@.class == Some(s@),
                None => self@.class is None,
            },
    {
        match &self.class {
            Some(s) => Some(s),
            None => None,
        }
    }

    pub fn start(&self) -> (r: usize)
        ensures
            r == self@.start,
    {
        self.start
    }

    pub fn end(&self) -> (r: usize)
        ensures
            r == self@.end,
    {
        self.end
    }

    pub fn strand(&self) -> (r: Option<Strand>)
        ensures
            r == self@.strand,
    {
        self.strand
    }

    pub fn phase(&self) -> (r: Option<Phase>)
        ensures
            r == self@.phase,
    {
        self.phase
    }

    pub fn attributes(&self) -> (r: &Vec<(Key, Vec<String>)>)
        ensures
            attrs_view(r@) == self@.attributes,
    {
        &self.attributes
    }

    /// The values under a key; when several entries share the key the
    /// last one decides.
    pub fn lookup<'a>(&'a self, key: &Key) -> (r: Option<&'a Vec<String>>)
        ensures
            match r {
                Some(vals) => spec_attr_lookup(self@.attributes, key@) == Some(
                    vals.deep_view(),
                ),
                None => spec_attr_lookup(self@.attributes, key@) is None,
            },
    {
        let ghost attrs = attrs_view(self.attributes@);
        let mut i: usize = self.attributes.len();
        proof {
            assert(attrs.subrange(0, i as int) =~= attrs);
        }
        while i > 0
            invariant
                0 <= i <= self.attributes@.len(),
                attrs == attrs_view(self.attributes@),
                attrs.len() == self.attributes@.len(),
                spec_attr_lookup(attrs, key@) == spec_attr_lookup(
                    attrs.subrange(0, i as int),
                    key@,
                ),
            decreases i,
        {
            i = i - 1;
            let ghost sub = attrs.subrange(0, i + 1);
            proof {
                assert(sub.last() == attrs[i as int]);
                assert(sub.drop_last() =~= attrs.subrange(0, i as int));
            }
            if self.attributes[i].0 == *key {
                return Some(&self.attributes[i].1);
            }
        }
        proof {
            assert(attrs.subrange(0, 0) =~= Seq::<(KeyData, Seq<Seq<char>>)>::empty());
        }
        None
    }

    /// The raw gene id: the first value of the `ID` attribute.
    pub fn id(&self) -> (r: Option<&str>)
        ensures
            match r {
                Some(s) => spec_record_id(self@) == Some(s@),
                None => spec_record_id(self@) is None,
            },
    {
        match self.lookup(&Key::ID) {
            Some(vals) => if vals.len() > 0 {
                proof {
                    assert(vals.deep_view()[0] == vals@[0]@);
                }
                Some(vals[0].as_str())
            } else {
                None
            },
            None => None,
        }
    }

    /// All values of the `Parent` attribute, if the record has one.
    pub fn parents(&self) -> (r: Option<&Vec<String>>)
        ensures
            match r {
                Some(vals) => spec_attr_lookup(self@.attributes, KeyData::Parent) == Some(
                    vals.deep_view(),
                ),
                None => spec_attr_lookup(self@.attributes, KeyData::Parent) is None,
            },
    {
        self.lookup(&Key::Parent)
    }

    /// The first value of the `Parent` attribute, if the record has
    /// one.
    pub fn parent(&self) -> (r: Option<&String>)
        ensures
            match r {
                Some(s) => {
                    &&& spec_attr_lookup(self@.attributes, KeyData::Parent) matches Some(vals)
                    &&& vals.len() > 0 && vals[0] == s@
                },
                None => {
                    ||| spec_attr_lookup(self@.attributes, KeyData::Parent) is None
                    ||| spec_attr_lookup(self@.attributes, KeyData::Parent) == Some(
                        Seq::<Seq<char>>::empty(),
                    )
                },
            },
    {
        match self.parents() {
            Some(vals) => if vals.len() > 0 {
                proof {
                    assert(vals.deep_view()[0] == vals@[0]@);
                    assert(vals.deep_view().len() == 0 ==> vals.deep_view()
                        =~= Seq::<Seq<char>>::empty());
                }
                Some(&vals[0])
            } else {
                proof {
                    assert(vals.deep_view() =~= Seq::<Seq<char>>::empty());
                }
                None
            },
            None => None,
        }
    }

    /// All values of the `Target` attribute, if the record has one.
    pub fn targets(&self) -> (r: Option<&Vec<String>>)
        ensures
            match r {
                Some(vals) => spec_attr_lookup(self@.attributes, KeyData::Target) == Some(
                    vals.deep_view(),
                ),
                None => spec_attr_lookup(self@.attributes, KeyData::Target) is None,
            },
    {
        self.lookup(&Key::Target)
    }

    /// The first value of the `Target` attribute, if the record has
    /// one.
    pub fn target(&self) -> (r: Option<&String>)
        ensures
            match r {
                Some(s) => {
                    &&& spec_attr_lookup(self@.attributes, KeyData::Target) matches Some(vals)
                    &&& vals.len() > 0 && vals[0] == s@
                },
                None => {
                    ||| spec_attr_lookup(self@.attributes, KeyData::Target) is None
                    ||| spec_attr_lookup(self@.attributes, KeyData::Target) == Some(
                        Seq::<Seq<char>>::empty(),
                    )
                },
            },
    {
        match self.targets() {
            Some(vals) => if vals.len() > 0 {
                proof {
                    assert(vals.deep_view()[0] == vals@[0]@);
                }
                Some(&vals[0])
            } else {
                proof {
                    assert(vals.deep_view() =~= Seq::<Seq<char>>::empty());
                }
                None
            },
            None => None,
        }
    }
}

/// The phase column of a line: `.` for none, else `0`, `1` or `2`.
pub open spec fn spec_phase_column(col: Seq<char>) -> Option<Option<Phase>> {
    if col == "."@ {
        Some(None)
    } else if col == "0"@ {
        Some(Some(Phase::Sync))
    } else if col == "1"@ {
        Some(Some(Phase::OneShifted))
    } else if col == "2"@ {
        Some(Some(Phase::TwoShifted))
    } else {
        None
    }
}

/// What one GFF3 line decodes to, column checks applied in the order
/// the columns are read; the score column is not inspected.
pub open spec fn spec_gff_line(s: Seq<char>) -> Result<GffData, GffError> {
    let cols = spec_split(s, '\t');
    if cols.len() < 9 {
        Err(GffError::RecordTooShort(arbitrary()))
    } else if !spec_numeric_column(cols[3]) {
        Err(GffError::InvalidField(arbitrary()))
    } else if !spec_numeric_column(cols[4]) {
        Err(GffError::InvalidField(arbitrary()))
    } else if cols[6] != "."@ && Strand::spec_from_code(cols[6]) is None {
        Err(GffError::InvalidField(arbitrary()))
    } else if spec_phase_column(cols[7]) is None {
        Err(GffError::InvalidField(arbitrary()))
    } else {
        match spec_attrs(spec_split(cols[8], ';')) {
            Err(e) => Err(e),
            Ok(attrs) => Ok(
                GffData {
                    chr: cols[0],
                    source: if cols[1] == "."@ {
                        None
                    } else {
                        Some(cols[1])
                    },
                    class: if cols[2] == "."@ {
                        None
                    } else {
                        Some(cols[2])
                    },
                    start: digits_value(cols[3]) as usize,
                    end: digits_value(cols[4]) as usize,
                    strand: if cols[6] == "."@ {
                        None
                    } else {
                        Some(Strand::spec_from_code(cols[6])->Some_0)
                    },
                    phase: spec_phase_column(cols[7])->Some_0,
                    attributes: attrs,
                },
            ),
        }
    }
}

/// A bad attribute list always fails as a bad attribute entry.
proof fn lemma_spec_attrs_err_kind(pairs: Seq<Seq<char>>)
    requires
        spec_attrs(pairs) is Err,
    ensures
        spec_attrs(pairs) matches Err(GffError::IncorrectAttribute(_)),
    decreases pairs.len(),
{
    if pairs.len() > 0 {
        if spec_attr_pair(pairs[0]) is Ok && spec_attrs(pairs.skip(1)) is Err {
            lemma_spec_attrs_err_kind(pairs.skip(1));
        }
    }
}

/// Decodes the attribute column.
fn parse_attributes(col: &Vec<char>) -> (r: Result<Vec<(Key, Vec<String>)>, GffError>)
    ensures
        r matches Ok(attrs) ==> spec_attrs(spec_split(col@, ';')) matches Ok(sa) && attrs_view(
            attrs@,
        ) == sa,
        r matches Err(e) ==> spec_attrs(spec_split(col@, ';')) matches Err(
            GffError::IncorrectAttribute(_),
        ) && e matches GffError::IncorrectAttribute(_),
{
    let pairs = split_chars(col, ';');
    let ghost all = pairs.deep_view();
    proof {
        assert(all == spec_split(col@, ';'));
    }
    let mut acc: Vec<(Key, Vec<String>)> = Vec::new();
    let mut i: usize = 0;
    proof {
        assert(all.skip(0) =~= all);
        let w = spec_attrs(all);
        if w is Ok {
            assert(attrs_view(acc@) + w->Ok_0 =~= w->Ok_0);
        }
    }
    while i < pairs.len()
        invariant
            0 <= i <= pairs@.len(),
            all == pairs.deep_view(),
            all.len() == pairs@.len(),
            all == spec_split(col@, ';'),
            match spec_attrs(all.skip(i as int)) {
                Ok(rest) => spec_attrs(all) matches Ok(sa) && sa == attrs_view(acc@) + rest,
                Err(e) => spec_attrs(all) is Err,
            },
        decreases pairs@.len() - i,
    {
        proof {
            assert(all.skip(i as int).len() > 0);
            assert(all.skip(i as int)[0] == all[i as int]);
            assert(all[i as int] == pairs@[i as int].deep_view());
            assert(pairs@[i as int].deep_view() =~= pairs@[i as int]@);
            assert(all.skip(i as int).skip(1) =~= all.skip(i + 1 as int));
        }
        let pair = &pairs[i];
        let parts = split_chars(pair, '=');
        proof {
            assert(parts.deep_view() == spec_split(pairs@[i as int]@, '='));
            assert(parts@.len() == parts.deep_view().len());
        }
        if parts.len() != 2 {
            proof {
                assert(spec_attr_pair(all.skip(i as int)[0]) is Err);
                assert(spec_attrs(all.skip(i as int)) is Err);
                lemma_spec_attrs_err_kind(all);
            }
            return Err(GffError::IncorrectAttribute(chars_string(pair)));
        }
        proof {
            assert(parts@[0]@ == parts.deep_view()[0]);
            assert(parts@[1]@ == parts.deep_view()[1]);
        }
        let key = Key::of_text(&parts[0]);
        let value_parts = split_chars(&parts[1], ',');
        let mut values: Vec<String> = Vec::new();
        let mut j: usize = 0;
        while j < value_parts.len()
            invariant
                0 <= j <= value_parts@.len(),
                values.deep_view() == value_parts.deep_view().subrange(0, j as int),
            decreases value_parts@.len() - j,
        {
            let ghost before = values.deep_view();
            values.push(chars_string(&value_parts[j]));
            proof {
                assert(values.deep_view() =~~= before.push(value_parts@[j as int]@));
                assert(value_parts@[j as int]@ == value_parts.deep_view()[j as int]);
                assert(values.deep_view() =~~= value_parts.deep_view().subrange(
                    0,
                    j + 1 as int,
                ));
            }
            j += 1;
        }
        proof {
            assert(values.deep_view() =~~= value_parts.deep_view());
            assert(value_parts.deep_view() == spec_split(parts.deep_view()[1], ','));
        }
        let ghost old_acc = acc@;
        let ghost p = spec_attr_pair(all[i as int])->Ok_0;
        acc.push((key, values));
        proof {
            assert(spec_attr_pair(all[i as int]) == Ok::<(KeyData, Seq<Seq<char>>), GffError>(
                (spec_key_of(parts.deep_view()[0]), spec_split(parts.deep_view()[1], ',')),
            ));
            assert(attrs_view(acc@) =~= attrs_view(old_acc).push(p));
            let rest_opt = spec_attrs(all.skip(i + 1 as int));
            if rest_opt is Ok {
                let r2 = rest_opt->Ok_0;
                assert(spec_attrs(all.skip(i as int)) == Ok::<
                    Seq<(KeyData, Seq<Seq<char>>)>,
                    GffError,
                >(seq![p] + r2));
                assert(attrs_view(acc@) + r2 =~= attrs_view(old_acc) + (seq![p] + r2));
            }
        }
        i += 1;
    }
    proof {
        assert(all.skip(i as int) =~= Seq::<Seq<char>>::empty());
        assert(spec_attrs(all.skip(i as int)) == Ok::<Seq<(KeyData, Seq<Seq<char>>)>, GffError>(
            Seq::<(KeyData, Seq<Seq<char>>)>::empty(),
        ));
        assert(attrs_view(acc@) + Seq::<(KeyData, Seq<Seq<char>>)>::empty() =~= attrs_view(
            acc@,
        ));
    }
    Ok(acc)
}

/// Decodes one GFF3 line. For a malformed attribute entry the error
/// payload is that entry; for every other error it is the whole line.
pub fn parse_gff_line(line: &str) -> (r: Result<Record, GffError>)
    ensures
        r matches Ok(rec) ==> spec_gff_line(line@) matches Ok(d) && rec@ == d,
        r is Err ==> spec_gff_line(line@) is Err,
        (r matches Err(GffError::RecordTooShort(t)) ==> spec_gff_line(line@) matches Err(
            GffError::RecordTooShort(_),
        ) && t@ == line@),
        (r matches Err(GffError::InvalidField(t)) ==> spec_gff_line(line@) matches Err(
            GffError::InvalidField(_),
        ) && t@ == line@),
        (r matches Err(GffError::IncorrectAttribute(_)) ==> spec_gff_line(line@) matches Err(
            GffError::IncorrectAttribute(_),
        )),
{
    let chars = str_chars(line);
    let cols = split_chars(&chars, '\t');
    let ghost scols = spec_split(line@, '\t');
    proof {
        assert(cols.deep_view() == scols);
        assert(cols@.len() == scols.len());
    }
    if cols.len() < 9 {
        return Err(GffError::RecordTooShort(line.to_owned()));
    }
    proof {
        assert(cols@[3]@ == scols[3]);
        assert(cols@[3]@.subrange(0, cols@[3]@.len() as int) =~= scols[3]);
    }
    let start = match parse_usize_from(&cols[3], 0) {
        Some(n) => n,
        None => {
            return Err(GffError::InvalidField(line.to_owned()));
        },
    };
    proof {
        assert(cols@[4]@ == scols[4]);
        assert(cols@[4]@.subrange(0, cols@[4]@.len() as int) =~= scols[4]);
    }
    let end = match parse_usize_from(&cols[4], 0) {
        Some(n) => n,
        None => {
            return Err(GffError::InvalidField(line.to_owned()));
        },
    };
    proof {
        assert(cols@[6]@ == scols[6]);
        reveal_strlit(".");
    }
    let strand_text = chars_string(&cols[6]);
    let strand = if str_eq(strand_text.as_str(), ".") {
        None
    } else {
        match Strand::from_code(strand_text.as_str()) {
            Ok(d) => Some(d),
            Err(_) => {
                return Err(GffError::InvalidField(line.to_owned()));
            },
        }
    };
    proof {
        assert(cols@[7]@ == scols[7]);
        reveal_strlit("0");
        reveal_strlit("1");
        reveal_strlit("2");
        assert("."@[0] == '.');
        assert("0"@[0] == '0');
        assert("1"@[0] == '1');
        assert("2"@[0] == '2');
    }
    let phase_text = chars_string(&cols[7]);
    let phase = if str_eq(phase_text.as_str(), ".") {
        None
    } else if str_eq(phase_text.as_str(), "0") {
        Some(Phase::Sync)
    } else if str_eq(phase_text.as_str(), "1") {
        Some(Phase::OneShifted)
    } else if str_eq(phase_text.as_str(), "2") {
        Some(Phase::TwoShifted)
    } else {
        return Err(GffError::InvalidField(line.to_owned()));
    };
    proof {
        assert(cols@[8]@ == scols[8]);
    }
    let attributes = match parse_attributes(&cols[8]) {
        Ok(a) => a,
        Err(e) => {
            return Err(e);
        },
    };
    proof {
        assert(cols@[0]@ == scols[0]);
        assert(cols@[1]@ == scols[1]);
        assert(cols@[2]@ == scols[2]);
    }
    let chr = chars_string(&cols[0]);
    let source_text = chars_string(&cols[1]);
    let source = if str_eq(source_text.as_str(), ".") {
        None
    } else {
        Some(source_text)
    };
    let class_text = chars_string(&cols[2]);
    let class = if str_eq(class_text.as_str(), ".") {
        None
    } else {
        Some(class_text)
    };
    Ok(Record { chr, source, class, start, end, strand, phase, attributes })
}

/// A restartable reader over the lines of a GFF3 file.
pub struct GffReader {
    pub lines: Vec<String>,
    pub pos: usize,
}

impl GffReader {
    pub open spec fn lines_view(&self) -> Seq<Seq<char>> {
        self.lines.deep_view()
    }

    pub open spec fn pos_view(&self) -> int {
        self.pos as int
    }

    pub open spec fn wf(&self) -> bool {
        0 <= self.pos <= self.lines.deep_view().len()
    }

    /// A reader over the given lines, positioned at the first.
    pub fn new(lines: Vec<String>) -> (r: GffReader)
        ensures
            r.wf(),
            r.lines_view() == lines.deep_view(),
            r.pos_view() == 0,
    {
        GffReader { lines, pos: 0 }
    }

    /// Decodes the next line that is neither blank nor a comment;
    /// nothing is left when only such lines remain.
    pub fn next_record(&mut self) -> (r: Option<Result<Record, GffError>>)
        requires
            old(self).wf(),
        ensures
            final(self).wf(),
            final(self).lines_view() == old(self).lines_view(),
            ({
                let k = spec_next_content_line(old(self).lines_view(), old(self).pos_view());
                match r {
                    None => k == old(self).lines_view().len() && final(self).pos_view() == k,
                    Some(res) => {
                        &&& k < old(self).lines_view().len()
                        &&& final(self).pos_view() == k + 1
                        &&& (res matches Ok(rec) ==> spec_gff_line(
                            old(self).lines_view()[k],
                        ) matches Ok(d) && rec@ == d)
                        &&& (res matches Err(e) ==> spec_gff_line(
                            old(self).lines_view()[k],
                        ) is Err && match e {
                            GffError::RecordTooShort(t) => spec_gff_line(
                                old(self).lines_view()[k],
                            ) matches Err(GffError::RecordTooShort(_)) && t@ == old(
                                self,
                            ).lines_view()[k],
                            GffError::InvalidField(t) => spec_gff_line(
                                old(self).lines_view()[k],
                            ) matches Err(GffError::InvalidField(_)) && t@ == old(
                                self,
                            ).lines_view()[k],
                            GffError::IncorrectAttribute(_) => spec_gff_line(
                                old(self).lines_view()[k],
                            ) matches Err(GffError::IncorrectAttribute(_)),
                        })
                    },
                }
            }),
    {
        let ghost lines0 = self.lines.deep_view();
        let ghost pos0 = self.pos as int;
        proof {
            lemma_next_content_line(lines0, pos0);
        }
        while self.pos < self.lines.len()
            invariant
                lines0 == old(self).lines_view(),
                pos0 == old(self).pos_view(),
                self.lines.deep_view() == lines0,
                pos0 <= self.pos as int <= lines0.len(),
                spec_next_content_line(lines0, pos0) == spec_next_content_line(
                    lines0,
                    self.pos as int,
                ),
            decreases lines0.len() - self.pos,
        {
            let ghost before = self.pos as int;
            let line = &self.lines[self.pos];
            proof {
                assert(line@ == lines0[before]);
            }
            if !is_comment_or_blank(line.as_str()) {
                let parsed = parse_gff_line(line.as_str());
                self.pos = self.pos + 1;
                return Some(parsed);
            }
            self.pos = self.pos + 1;
        }
        None
    }
}

} // verus!
