//! Compiled regular expressions with named capture groups, as the
//! ingester's configuration uses them. The regex engine is outside
//! code: what it accepts and what a capture returns are named, not
//! restated, and everything downstream is proved against those names.

use vstd::prelude::*;

verus! {

#[verifier::external_type_specification]
#[verifier::external_body]
pub struct ExRegex(regex::Regex);

/// Whether the regex engine accepts a pattern text.
pub uninterp spec fn regex_valid(pattern: Seq<char>) -> bool;

/// The capture-group names of a compiled pattern, in order; an
/// unnamed group is the entry without a name.
pub uninterp spec fn regex_group_names(pattern: Seq<char>) -> Seq<Option<Seq<char>>>;

/// What the named group captures when the pattern is run against a
/// text: the matched substring, or nothing when the pattern does not
/// match or the group took no part in the match.
pub uninterp spec fn regex_capture(
    pattern: Seq<char>,
    text: Seq<char>,
    group: Seq<char>,
) -> Option<Seq<char>>;

/// A compiled pattern, kept together with its text; every capture is
/// pinned to that text.
pub struct Pattern {
    re: regex::Regex,
    text: String,
}

impl View for Pattern {
    type V = Seq<char>;

    closed spec fn view(&self) -> Seq<char> {
        self.text@
    }
}

impl Pattern {
    /// Relies on `regex::Regex::new`: whether a pattern text compiles
    /// depends on that text alone; the error case hands back the
    /// engine's message.
    #[verifier::external_body]
    pub fn compile(pattern: &str) -> (r: Result<Pattern, String>)
        ensures
            r matches Ok(p) ==> regex_valid(pattern@) && p@ == pattern@,
            r is Err ==> !regex_valid(pattern@),
    {
        match regex::Regex::new(pattern) {
            Ok(re) => Ok(Pattern { re, text: pattern.to_owned() }),
            Err(e) => Err(format!("{}", e)),
        }
    }

    /// Relies on `regex::Regex::capture_names`: the group names of a
    /// compiled pattern depend on its text alone and come back in
    /// order, one entry per group, named or not.
    #[verifier::external_body]
    pub fn group_names(&self) -> (r: Vec<Option<String>>)
        ensures
            r.deep_view() == regex_group_names(self@),
    {
        self.re.capture_names().map(|n| n.map(|s| s.to_owned())).collect()
    }

    /// Whether the pattern declares a capture group of the given
    /// name.
    pub fn has_group(&self, name: &str) -> (r: bool)
        ensures
            r == regex_group_names(self@).contains(Some(name@)),
    {
        let names = self.group_names();
        let ghost gnames = names.deep_view();
        let mut i: usize = 0;
        while i < names.len()
            invariant
                0 <= i <= names@.len(),
                gnames == names.deep_view(),
                gnames.len() == names@.len(),
                gnames == regex_group_names(self@),
                forall|k: int| 0 <= k < i ==> gnames[k] != Some(name@),
            decreases names@.len() - i,
        {
            match &names[i] {
                Some(n) => {
                    proof {
                        assert(gnames[i as int] == match names@[i as int] {
                            Some(ref s) => Some(s@),
                            None => None::<Seq<char>>,
                        });
                    }
                    if crate::text::str_eq(n.as_str(), name) {
                        proof {
                            assert(gnames[i as int] == Some(name@));
                        }
                        return true;
                    }
                },
                None => {
                    proof {
                        assert(gnames[i as int] == match names@[i as int] {
                            Some(ref s) => Some(s@),
                            None => None::<Seq<char>>,
                        });
                    }
                },
            }
            i += 1;
        }
        proof {
            if gnames.contains(Some(name@)) {
                let k = choose|k: int| 0 <= k < gnames.len() && gnames[k] == Some(name@);
                assert(false);
            }
        }
        false
    }

    /// Relies on `regex::Regex::captures` and `regex::Captures::name`:
    /// what a named group captures depends on the pattern text, the
    /// haystack and the group name alone.
    #[verifier::external_body]
    pub fn capture(&self, text: &str, group: &str) -> (r: Option<String>)
        ensures
            match r {
                Some(s) => regex_capture(self@, text@, group@) == Some(s@),
                None => regex_capture(self@, text@, group@) is None,
            },
    {
        self.re.captures(text).and_then(|c| c.name(group)).map(|m| m.as_str().to_owned())
    }
}

} // verus!
