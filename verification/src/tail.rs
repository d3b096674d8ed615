//! The tail wire format: a landscape side is a list of `TailGene`
//! values, rendered as `"."`-joined tokens of an optional strand
//! character (`+` or `-`; omitted for an unknown strand, whose own
//! character would collide with the separator) followed by the family
//! id in decimal. Bare digits read back as an unknown strand, so the
//! format is reversible for every list. The empty list renders as the
//! empty string. Truncation to a query window keeps the nearest
//! entries: the last of a left tail, the first of a right tail.

use vstd::prelude::*;

verus! {

use crate::Strand;
use crate::text::{
    all_digits,
    is_digit,
    chars_string,
    digits_value,
    join_chars,
    lemma_digits_value_of_spec_digits,
    lemma_split_join,
    parse_usize_from,
    spec_digits,
    spec_join,
    spec_split,
    split_chars,
    str_chars,
};

/// The integer identity of a gene family.
pub type FamilyID = usize;

/// One neighbour in a landscape: its family and its strand.
#[derive(Debug, Clone, Copy)]
pub struct TailGene {
    pub family: FamilyID,
    pub strand: Strand,
}

impl PartialEq for TailGene {
    /// Two tail genes are equal when their families are: the strand
    /// is metadata, not part of the identity.
    fn eq(&self, other: &Self) -> (r: bool)
        ensures
            r == (self.family == other.family),
    {
        self.family == other.family
    }
}

impl vstd::std_specs::cmp::PartialEqSpecImpl for TailGene {
    open spec fn obeys_eq_spec() -> bool {
        true
    }

    open spec fn eq_spec(&self, other: &TailGene) -> bool {
        self.family == other.family
    }
}

impl Eq for TailGene {

}

/// What `==` means on tail genes: the family alone decides, the strand
/// never does.
pub proof fn lemma_tailgene_eq_ignores_strand(a: TailGene, b: TailGene)
    ensures
        vstd::std_specs::cmp::PartialEqSpec::eq_spec(&a, &b) <==> a.family == b.family,
{
}

/// The token of one tail gene: the strand character — omitted for an
/// unknown strand — then the family in decimal.
pub open spec fn spec_token(t: TailGene) -> Seq<char> {
    if t.strand is Unknown {
        spec_digits(t.family as nat)
    } else {
        seq![t.strand.spec_symbol()] + spec_digits(t.family as nat)
    }
}

/// The wire form of a whole tail list.
pub open spec fn spec_serialize_tail(l: Seq<TailGene>) -> Seq<char> {
    if l.len() == 0 {
        Seq::<char>::empty()
    } else {
        spec_join(l.map_values(|t: TailGene| spec_token(t)), '.')
    }
}

/// Reading one token back: a leading `+`, `-` or `.` names the strand,
/// any other first character leaves it unknown; the digits that remain
/// are the family.
pub open spec fn spec_parse_token(p: Seq<char>) -> Option<TailGene> {
    if p.len() == 0 {
        None
    } else {
        let ds = if Strand::spec_from_symbol(p[0]) is Some {
            p.skip(1)
        } else {
            p
        };
        let strand = match Strand::spec_from_symbol(p[0]) {
            Some(d) => d,
            None => Strand::Unknown,
        };
        if ds.len() > 0 && all_digits(ds) && digits_value(ds) <= usize::MAX {
            Some(TailGene { family: digits_value(ds) as usize, strand })
        } else {
            None
        }
    }
}

/// Reading a token list back, failing on the first bad token.
pub open spec fn spec_parse_parts(parts: Seq<Seq<char>>) -> Option<Seq<TailGene>>
    decreases parts.len(),
{
    if parts.len() == 0 {
        Some(Seq::<TailGene>::empty())
    } else {
        match spec_parse_token(parts[0]) {
            None => None,
            Some(t) => match spec_parse_parts(parts.skip(1)) {
                None => None,
                Some(r) => Some(seq![t] + r),
            },
        }
    }
}

/// Reading a whole wire string back; the empty string is the empty
/// list.
pub open spec fn spec_parse_landscape(s: Seq<char>) -> Option<Seq<TailGene>> {
    if s.len() == 0 {
        Some(Seq::<TailGene>::empty())
    } else {
        spec_parse_parts(spec_split(s, '.'))
    }
}

/// Renders a tail list in its wire form.
pub fn serialize_tail(tail: &Vec<TailGene>) -> (s: String)
    ensures
        s@ == spec_serialize_tail(tail@),
{
    if tail.len() == 0 {
        return String::new();
    }
    let ghost tokens = tail@.map_values(|t: TailGene| spec_token(t));
    let mut parts: Vec<Vec<char>> = Vec::new();
    let mut i: usize = 0;
    while i < tail.len()
        invariant
            0 <= i <= tail@.len(),
            parts.deep_view() == tail@.subrange(0, i as int).map_values(
                |t: TailGene| spec_token(t),
            ),
        decreases tail@.len() - i,
    {
        let ghost before = parts.deep_view();
        let g = tail[i];
        let mut token: Vec<char> = Vec::new();
        match g.strand {
            Strand::Unknown => {},
            _ => {
                token.push(g.strand.symbol());
            },
        }
        crate::text::push_digits(g.family, &mut token);
        proof {
            assert(token@ =~= spec_token(g));
        }
        parts.push(token);
        proof {
            assert(parts.deep_view() =~~= before.push(token@));
            assert(parts.deep_view() =~~= tail@.subrange(0, i + 1 as int).map_values(
                |t: TailGene| spec_token(t),
            ));
        }
        i += 1;
    }
    proof {
        assert(tail@.subrange(0, i as int) =~= tail@);
        assert(parts.deep_view() =~~= tokens);
    }
    let joined = join_chars(&parts, '.');
    chars_string(&joined)
}

/// Reads one token of the wire form.
fn parse_token(p: &Vec<char>) -> (r: Option<TailGene>)
    ensures
        r == spec_parse_token(p@),
{
    if p.len() == 0 {
        return None;
    }
    let (strand, from) = match Strand::from_symbol(p[0]) {
        Some(d) => (d, 1),
        None => (Strand::Unknown, 0),
    };
    proof {
        assert(p@.skip(from as int) =~= p@.subrange(from as int, p@.len() as int));
        if from == 0 {
            assert(p@.subrange(0, p@.len() as int) =~= p@);
        }
    }
    match parse_usize_from(p, from) {
        Some(fam) => Some(TailGene { family: fam, strand }),
        None => None,
    }
}

/// Reads a whole wire string back into a tail list. Returns nothing
/// when some token is empty, holds a non-digit, or does not fit.
pub fn parse_landscape(s: &str) -> (r: Option<Vec<TailGene>>)
    ensures
        (r is Some) == (spec_parse_landscape(s@) is Some),
        r matches Some(v) ==> spec_parse_landscape(s@) == Some(v@),
{
    let chars = str_chars(s);
    if chars.len() == 0 {
        let empty: Vec<TailGene> = Vec::new();
        proof {
            assert(empty@ =~= Seq::<TailGene>::empty());
        }
        return Some(empty);
    }
    let parts = split_chars(&chars, '.');
    let ghost all = parts.deep_view();
    let mut acc: Vec<TailGene> = Vec::new();
    let mut i: usize = 0;
    proof {
        assert(all.skip(0) =~= all);
        let w = spec_parse_parts(all);
        if w is Some {
            assert(acc@ + w->Some_0 =~= w->Some_0);
        }
    }
    while i < parts.len()
        invariant
            0 <= i <= parts@.len(),
            all == parts.deep_view(),
            all.len() == parts@.len(),
            s@.len() > 0,
            all == spec_split(s@, '.'),
            match spec_parse_parts(all.skip(i as int)) {
                Some(rest) => spec_parse_parts(all) == Some(acc@ + rest),
                None => spec_parse_parts(all) is None,
            },
        decreases parts@.len() - i,
    {
        proof {
            assert(all.skip(i as int).len() > 0);
            assert(all.skip(i as int)[0] == all[i as int]);
            assert(all[i as int] == parts@[i as int].deep_view());
            assert(parts@[i as int].deep_view() =~= parts@[i as int]@);
            assert(all.skip(i as int).skip(1) =~= all.skip(i + 1 as int));
        }
        match parse_token(&parts[i]) {
            Some(t) => {
                acc.push(t);
                proof {
                    let rest_opt = spec_parse_parts(all.skip(i + 1 as int));
                    if rest_opt is Some {
                        let r2 = rest_opt->Some_0;
                        assert(spec_parse_parts(all.skip(i as int)) == Some(seq![t] + r2));
                        assert(acc@ + r2 =~= (acc@.drop_last() + (seq![t] + r2)));
                    }
                }
            },
            None => {
                proof {
                    assert(spec_parse_parts(all.skip(i as int)) is None);
                    assert(spec_parse_landscape(s@) == spec_parse_parts(all));
                }
                return None;
            },
        }
        i += 1;
    }
    proof {
        assert(all.skip(i as int) =~= Seq::<Seq<char>>::empty());
        assert(spec_parse_parts(all.skip(i as int)) == Some(Seq::<TailGene>::empty()));
        assert(acc@ + Seq::<TailGene>::empty() =~= acc@);
        assert(spec_parse_landscape(s@) == spec_parse_parts(all));
    }
    Some(acc)
}

/// A token always round-trips: parsing what a tail gene renders to
/// gives the same family and the same strand back. A known strand is
/// read from its leading character; an unknown one from the absence
/// of any, since a digit names no strand.
pub proof fn lemma_token_round_trip(t: TailGene)
    ensures
        spec_parse_token(spec_token(t)) == Some(t),
{
    let p = spec_token(t);
    lemma_digits_value_of_spec_digits(t.family as nat);
    if t.strand is Unknown {
        assert(p =~= spec_digits(t.family as nat));
        assert(is_digit(p[0]));
        assert(Strand::spec_from_symbol(p[0]) is None);
    } else {
        assert(p[0] == t.strand.spec_symbol());
        assert(Strand::spec_from_symbol(p[0]) == Some(t.strand));
        assert(p.skip(1) =~= spec_digits(t.family as nat));
    }
}

/// A rendered token is never empty and never holds the separator.
proof fn lemma_token_shape(t: TailGene)
    ensures
        spec_token(t).len() >= 1,
        !spec_token(t).contains('.'),
{
    let p = spec_token(t);
    lemma_digits_value_of_spec_digits(t.family as nat);
    assert forall|i: int| 0 <= i < p.len() implies p[i] != '.' by {
        if t.strand is Unknown {
            assert(is_digit(p[i]));
        } else if i == 0 {
            assert(p[0] == t.strand.spec_symbol());
        } else {
            assert(p[i] == spec_digits(t.family as nat)[i - 1]);
        }
    }
    if p.contains('.') {
        let i = choose|i: int| 0 <= i < p.len() && p[i] == '.';
        assert(false);
    }
}

/// Parsing a rendered token list gives the original list back.
proof fn lemma_parse_parts_of_tokens(l: Seq<TailGene>)
    ensures
        spec_parse_parts(l.map_values(|t: TailGene| spec_token(t))) == Some(l),
    decreases l.len(),
{
    let tokens = l.map_values(|t: TailGene| spec_token(t));
    if l.len() == 0 {
        assert(tokens.len() == 0);
        assert(spec_parse_parts(tokens) == Some(Seq::<TailGene>::empty()));
        assert(Seq::<TailGene>::empty() =~= l);
    } else {
        lemma_token_round_trip(l[0]);
        lemma_parse_parts_of_tokens(l.skip(1));
        assert(tokens[0] == spec_token(l[0]));
        assert(tokens.skip(1) =~= l.skip(1).map_values(|t: TailGene| spec_token(t)));
        assert(seq![l[0]] + l.skip(1) =~= l);
    }
}

/// The wire format is reversible: any tail list parses back, from its
/// own rendering, to exactly itself, family and strand alike; the
/// empty list renders to the empty string.
pub proof fn lemma_tail_round_trip(l: Seq<TailGene>)
    ensures
        spec_parse_landscape(spec_serialize_tail(l)) == Some(l),
        l.len() == 0 ==> spec_serialize_tail(l) == Seq::<char>::empty(),
{
    if l.len() == 0 {
        assert(spec_parse_landscape(spec_serialize_tail(l)) == Some(Seq::<TailGene>::empty()));
        assert(Seq::<TailGene>::empty() =~= l);
    } else {
        let tokens = l.map_values(|t: TailGene| spec_token(t));
        assert forall|i: int| 0 <= i < tokens.len() implies !(#[trigger] tokens[i]).contains(
            '.',
        ) by {
            lemma_token_shape(l[i]);
        }
        lemma_split_join(tokens, '.');
        let joined = spec_join(tokens, '.');
        lemma_token_shape(l[0]);
        if joined.len() == 0 {
            assert(spec_split(joined, '.') == seq![Seq::<char>::empty()]);
            assert(tokens[0].len() == 0);
            assert(false);
        }
        lemma_parse_parts_of_tokens(l);
    }
}

/// Keeps the `w` nearest entries of a left tail: its last `w`
/// elements, order preserved (all of it when `w` is not smaller).
pub open spec fn spec_truncate_left(l: Seq<TailGene>, w: int) -> Seq<TailGene> {
    if l.len() <= w {
        l
    } else {
        l.subrange(l.len() - w, l.len() as int)
    }
}

/// Keeps the `w` nearest entries of a right tail: its first `w`
/// elements (all of it when `w` is not smaller).
pub open spec fn spec_truncate_right(l: Seq<TailGene>, w: int) -> Seq<TailGene> {
    if l.len() <= w {
        l
    } else {
        l.subrange(0, w)
    }
}

/// Truncates a left tail to a window of `w`, keeping the `w` entries
/// nearest to the gene — the end of the list — in their order.
pub fn truncate_left_tail(v: &Vec<TailGene>, w: usize) -> (r: Vec<TailGene>)
    ensures
        r@ == spec_truncate_left(v@, w as int),
        r@.len() == if v@.len() <= w { v@.len() } else { w as nat },
{
    let mut r: Vec<TailGene> = Vec::new();
    let start = if v.len() <= w {
        0
    } else {
        v.len() - w
    };
    let mut i: usize = start;
    while i < v.len()
        invariant
            start <= i <= v@.len(),
            start == if v@.len() <= w { 0 } else { v@.len() - w },
            r@ == v@.subrange(start as int, i as int),
        decreases v@.len() - i,
    {
        r.push(v[i]);
        proof {
            assert(r@ =~= v@.subrange(start as int, i + 1 as int));
        }
        i += 1;
    }
    proof {
        if v@.len() <= w {
            assert(v@.subrange(0, v@.len() as int) =~= v@);
        }
    }
    r
}

/// Truncates a right tail to a window of `w`, keeping the `w` entries
/// nearest to the gene — the front of the list.
pub fn truncate_right_tail(v: &Vec<TailGene>, w: usize) -> (r: Vec<TailGene>)
    ensures
        r@ == spec_truncate_right(v@, w as int),
        r@.len() == if v@.len() <= w { v@.len() } else { w as nat },
{
    let end = if v.len() <= w {
        v.len()
    } else {
        w
    };
    let mut r: Vec<TailGene> = Vec::new();
    let mut i: usize = 0;
    while i < end
        invariant
            0 <= i <= end <= v@.len(),
            r@ == v@.subrange(0, i as int),
        decreases end - i,
    {
        r.push(v[i]);
        proof {
            assert(r@ =~= v@.subrange(0, i + 1 as int));
        }
        i += 1;
    }
    proof {
        if v@.len() <= w {
            assert(v@.subrange(0, v@.len() as int) =~= v@);
        }
    }
    r
}

/// Truncation is asymmetric by side: at window `w`, a left tail keeps
/// its last `min(w, len)` entries, a right tail its first, both in
/// their stored order.
pub proof fn lemma_truncation_asymmetry(l: Seq<TailGene>, r: Seq<TailGene>, w: int)
    requires
        w >= 0,
    ensures
        spec_truncate_left(l, w).len() == vstd::math::min(l.len() as int, w),
        spec_truncate_right(r, w).len() == vstd::math::min(r.len() as int, w),
        forall|k: int| 0 <= k < spec_truncate_left(l, w).len()
            ==> spec_truncate_left(l, w)[k] == l[l.len() - spec_truncate_left(l, w).len() + k],
        forall|k: int| 0 <= k < spec_truncate_right(r, w).len()
            ==> spec_truncate_right(r, w)[k] == r[k],
{
}

} // verus!
