//! The family index: gene-family membership files turned into a
//! mapping from external gene id to family id. Every file contributes
//! exactly one family; ids are assigned sequentially in processing
//! order, starting at zero. A member id listed in several files ends
//! up with the last file's family: overwrite semantics, an accepted
//! data-quality tradeoff of the inputs, not an error.

use vstd::prelude::*;

verus! {

use vstd::hash_map::StringHashMap;

use crate::text::{chars_string, spec_tokens, whitespace_tokens, str_chars};

/// The mapping after the whitespace-separated tokens of one line are
/// registered under family `fam`, left to right.
pub open spec fn spec_add_tokens(
    m: Map<Seq<char>, usize>,
    toks: Seq<Seq<char>>,
    fam: usize,
) -> Map<Seq<char>, usize>
    decreases toks.len(),
{
    if toks.len() == 0 {
        m
    } else {
        spec_add_tokens(m, toks.drop_last(), fam).insert(toks.last(), fam)
    }
}

/// The mapping after every line of one family file is registered
/// under family `fam`.
pub open spec fn spec_add_lines(
    m: Map<Seq<char>, usize>,
    lines: Seq<Seq<char>>,
    fam: usize,
) -> Map<Seq<char>, usize>
    decreases lines.len(),
{
    if lines.len() == 0 {
        m
    } else {
        spec_add_tokens(spec_add_lines(m, lines.drop_last(), fam), spec_tokens(lines.last()), fam)
    }
}

/// The mapping after a list of family files is registered, file `k`
/// under family `base + k`.
pub open spec fn spec_add_files(
    m: Map<Seq<char>, usize>,
    files: Seq<Seq<Seq<char>>>,
    base: usize,
) -> Map<Seq<char>, usize>
    decreases files.len(),
{
    if files.len() == 0 {
        m
    } else {
        spec_add_lines(
            spec_add_files(m, files.drop_last(), base),
            files.last(),
            (base + files.len() - 1) as usize,
        )
    }
}

/// The mapping an index built over `files` holds.
pub open spec fn spec_family_index(files: Seq<Seq<Seq<char>>>) -> Map<Seq<char>, usize> {
    spec_add_files(Map::<Seq<char>, usize>::empty(), files, 0)
}

/// The family index under construction: the member mapping and the id
/// the next family file will receive.
pub struct FamilyIndex {
    pub map: StringHashMap<usize>,
    pub next_id: usize,
}

impl FamilyIndex {
    /// An index with no families yet.
    pub fn new() -> (r: FamilyIndex)
        ensures
            r.map@ == Map::<Seq<char>, usize>::empty(),
            r.next_id == 0,
    {
        FamilyIndex { map: StringHashMap::new(), next_id: 0 }
    }

    /// Registers one family file: every whitespace-separated token on
    /// every line becomes a member of the next family id.
    pub fn add_family_file(&mut self, lines: &Vec<String>)
        requires
            old(self).next_id < usize::MAX,
        ensures
            final(self).map@ == spec_add_lines(
                old(self).map@,
                lines.deep_view(),
                old(self).next_id,
            ),
            final(self).next_id == old(self).next_id + 1,
    {
        let fam = self.next_id;
        let ghost m0 = self.map@;
        let ghost lns = lines.deep_view();
        let mut i: usize = 0;
        proof {
            assert(lns.subrange(0, 0) =~= Seq::<Seq<char>>::empty());
        }
        while i < lines.len()
            invariant
                0 <= i <= lines@.len(),
                lns == lines.deep_view(),
                lns.len() == lines@.len(),
                fam == old(self).next_id,
                self.next_id == old(self).next_id,
                self.map@ == spec_add_lines(m0, lns.subrange(0, i as int), fam),
            decreases lines@.len() - i,
        {
            let ghost line_base = self.map@;
            let line_chars = str_chars(lines[i].as_str());
            let toks = whitespace_tokens(&line_chars);
            let ghost stoks = spec_tokens(lns[i as int]);
            proof {
                assert(lines@[i as int]@ == lns[i as int]);
                assert(toks.deep_view() == stoks);
                assert(stoks.subrange(0, 0) =~= Seq::<Seq<char>>::empty());
            }
            let mut j: usize = 0;
            while j < toks.len()
                invariant
                    0 <= j <= toks@.len(),
                    stoks == toks.deep_view(),
                    stoks.len() == toks@.len(),
                    fam == self.next_id,
                    self.map@ == spec_add_tokens(line_base, stoks.subrange(0, j as int), fam),
                decreases toks@.len() - j,
            {
                let member = chars_string(&toks[j]);
                proof {
                    assert(member@ == stoks[j as int]);
                    let sub = stoks.subrange(0, j + 1);
                    assert(sub.drop_last() =~= stoks.subrange(0, j as int));
                    assert(sub.last() == stoks[j as int]);
                }
                self.map.insert(member, fam);
                j += 1;
            }
            proof {
                assert(stoks.subrange(0, stoks.len() as int) =~= stoks);
                let sub = lns.subrange(0, i + 1);
                assert(sub.drop_last() =~= lns.subrange(0, i as int));
                assert(sub.last() == lns[i as int]);
            }
            i += 1;
        }
        proof {
            assert(lns.subrange(0, i as int) =~= lns);
        }
        self.next_id = self.next_id + 1;
    }

    /// Builds the whole index over the given family files, in their
    /// order.
    pub fn build(files: &Vec<Vec<String>>) -> (r: FamilyIndex)
        ensures
            r.map@ == spec_family_index(files.deep_view()),
            r.next_id == files@.len(),
    {
        let ghost fls = files.deep_view();
        let mut index = FamilyIndex::new();
        let mut i: usize = 0;
        proof {
            assert(fls.subrange(0, 0) =~= Seq::<Seq<Seq<char>>>::empty());
        }
        while i < files.len()
            invariant
                0 <= i <= files@.len(),
                fls == files.deep_view(),
                fls.len() == files@.len(),
                index.next_id == i,
                i <= usize::MAX,
                index.map@ == spec_add_files(
                    Map::<Seq<char>, usize>::empty(),
                    fls.subrange(0, i as int),
                    0,
                ),
            decreases files@.len() - i,
        {
            proof {
                assert(files@[i as int].deep_view() == fls[i as int]);
            }
            index.add_family_file(&files[i]);
            proof {
                let sub = fls.subrange(0, i + 1);
                assert(sub.drop_last() =~= fls.subrange(0, i as int));
                assert(sub.last() == fls[i as int]);
                assert(sub.len() == i + 1);
            }
            i += 1;
        }
        proof {
            assert(fls.subrange(0, i as int) =~= fls);
        }
        index
    }

    /// The family a member id belongs to, if it was registered.
    pub fn lookup(&self, id: &str) -> (r: Option<usize>)
        ensures
            match r {
                Some(f) => self.map@.contains_key(id@) && self.map@[id@] == f,
                None => !self.map@.contains_key(id@),
            },
    {
        match self.map.get(id) {
            Some(f) => Some(*f),
            None => None,
        }
    }

    /// How many families were registered.
    pub fn family_count(&self) -> (r: usize)
        ensures
            r == self.next_id,
    {
        self.next_id
    }
}

/// Building the family index is deterministic: over the same family
/// files in the same order it always yields the same member mapping —
/// running the builder twice changes nothing.
pub proof fn lemma_family_index_idempotent(
    m1: Map<Seq<char>, usize>,
    m2: Map<Seq<char>, usize>,
    files: Seq<Seq<Seq<char>>>,
)
    requires
        m1 == spec_family_index(files),
        m2 == spec_family_index(files),
    ensures
        m1 == m2,
{
}

} // verus!
