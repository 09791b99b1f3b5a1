//! The allow-list configuration and the classification engine: given the root
//! library's name and a fully-qualified external type name, decide whether the
//! reference is local, from an always-present base library, approved by a glob
//! pattern, or a violation.

use vstd::prelude::*;

use crate::glob::{glob_match, glob_matches};
use crate::strings::{leading_of, leading_segment, str_eq};

verus! {

/// A successful classification of a type reference.
#[derive(Debug, PartialEq, Eq)]
pub enum AllowedTypeMatch {
    /// The type belongs to the root library itself.
    RootMatch,
    /// The type belongs to one of the always-present base libraries, and that
    /// base library is allowed by the configuration.
    StandardLibrary(&'static str),
    /// Exactly one configured glob pattern matches the type name.
    WildcardMatch(String),
}

/// A classification that amounts to a finding.
#[derive(Debug, PartialEq, Eq)]
pub enum AllowedTypeError {
    /// The type belongs to a base library whose gating boolean is false.
    StandardLibraryNotAllowed(&'static str),
    /// No configured glob pattern matches the type name.
    NoMatchFound,
    /// Two or more configured glob patterns match the type name; all matching
    /// patterns are listed.
    DuplicateMatches(Vec<String>),
}

/// Which external types are allowed to appear in the public interface
/// surface: three booleans gating the base libraries, plus an ordered list of
/// glob patterns over fully-qualified type names.
#[derive(Debug)]
pub struct Config {
    /// Whether types from `alloc` are allowed. Defaults to true.
    pub allow_alloc: bool,
    /// Whether types from `core` are allowed. Defaults to true.
    pub allow_core: bool,
    /// Whether types from `std` are allowed. Defaults to true.
    pub allow_std: bool,
    /// Glob patterns for allowed external types, e.g. `crate_name::*`.
    pub allowed_external_types: Vec<String>,
}

/// The name of the `alloc` base library, as a character sequence.
pub open spec fn alloc_name() -> Seq<char> {
    seq!['a', 'l', 'l', 'o', 'c']
}

/// The name of the `core` base library, as a character sequence.
pub open spec fn core_name() -> Seq<char> {
    seq!['c', 'o', 'r', 'e']
}

/// The name of the `std` base library, as a character sequence.
pub open spec fn std_name() -> Seq<char> {
    seq!['s', 't', 'd']
}

/// Whether `b` names one of the three always-present base libraries.
pub open spec fn is_base_name(b: Seq<char>) -> bool {
    b == alloc_name() || b == core_name() || b == std_name()
}

/// The configuration boolean gating the base library named `base`.
pub open spec fn base_gate(cfg: Config, base: Seq<char>) -> bool {
    if base == alloc_name() {
        cfg.allow_alloc
    } else if base == core_name() {
        cfg.allow_core
    } else {
        cfg.allow_std
    }
}

/// All configured patterns that match `name`, in configuration order.
pub open spec fn matching_patterns(patterns: Seq<Seq<char>>, name: Seq<char>) -> Seq<Seq<char>> {
    patterns.filter(|p: Seq<char>| glob_match(p, name))
}

/// The mathematical model of a classification outcome.
pub ghost enum Classification {
    Root,
    BaseLibrary(Seq<char>),
    BaseLibraryNotAllowed(Seq<char>),
    Approved(Seq<char>),
    NoMatch,
    Duplicates(Seq<Seq<char>>),
}

/// Whether a classification outcome is a finding rather than a pass.
pub open spec fn classification_is_error(c: Classification) -> bool {
    match c {
        Classification::Root => false,
        Classification::BaseLibrary(_) => false,
        Classification::BaseLibraryNotAllowed(_) => true,
        Classification::Approved(_) => false,
        Classification::NoMatch => true,
        Classification::Duplicates(_) => true,
    }
}

/// Classifies the fully-qualified `fq_name` against the configuration, for
/// a root library called `root_crate_name`: the root library wins first, then
/// the base libraries and their gates, then the glob patterns.
pub open spec fn classify(cfg: Config, root_crate_name: Seq<char>, fq_name: Seq<char>) -> Classification {
    let leading = leading_of(fq_name);
    if leading == root_crate_name {
        Classification::Root
    } else if is_base_name(leading) {
        if base_gate(cfg, leading) {
            Classification::BaseLibrary(leading)
        } else {
            Classification::BaseLibraryNotAllowed(leading)
        }
    } else {
        let ms = matching_patterns(cfg.allowed_external_types.deep_view(), fq_name);
        if ms.len() == 0 {
            Classification::NoMatch
        } else if ms.len() == 1 {
            Classification::Approved(ms[0])
        } else {
            Classification::Duplicates(ms)
        }
    }
}

/// Whether the executable result `r` renders the classification outcome `c`.
pub open spec fn result_models(
    r: Result<AllowedTypeMatch, AllowedTypeError>,
    c: Classification,
) -> bool {
    match c {
        Classification::Root => r == Ok::<AllowedTypeMatch, AllowedTypeError>(
            AllowedTypeMatch::RootMatch,
        ),
        Classification::BaseLibrary(b) => match r {
            Ok(AllowedTypeMatch::StandardLibrary(s)) => s@ == b,
            _ => false,
        },
        Classification::BaseLibraryNotAllowed(b) => match r {
            Err(AllowedTypeError::StandardLibraryNotAllowed(s)) => s@ == b,
            _ => false,
        },
        Classification::Approved(p) => match r {
            Ok(AllowedTypeMatch::WildcardMatch(q)) => q@ == p,
            _ => false,
        },
        Classification::NoMatch => r == Err::<AllowedTypeMatch, AllowedTypeError>(
            AllowedTypeError::NoMatchFound,
        ),
        Classification::Duplicates(ps) => match r {
            Err(AllowedTypeError::DuplicateMatches(qs)) => qs.deep_view() == ps,
            _ => false,
        },
    }
}

impl Config {
    /// Classifies `fq_name` for the root library `root_crate_name`:
    /// `Ok` when the reference is acceptable, `Err` when it is a finding.
    pub fn allows_type(&self, root_crate_name: &str, fq_name: &str) -> (r: Result<
        AllowedTypeMatch,
        AllowedTypeError,
    >)
        ensures
            result_models(r, classify(*self, root_crate_name@, fq_name@)),
    {
        let type_crate_name = leading_segment(fq_name);

        if str_eq(type_crate_name, root_crate_name) {
            return Ok(AllowedTypeMatch::RootMatch);
        }

        proof {
            reveal_strlit("alloc");
            reveal_strlit("core");
            reveal_strlit("std");
            assert("alloc"@ =~= alloc_name());
            assert("core"@ =~= core_name());
            assert("std"@ =~= std_name());
        }
        if str_eq(type_crate_name, "alloc") {
            return if self.allow_alloc {
                Ok(AllowedTypeMatch::StandardLibrary("alloc"))
            } else {
                Err(AllowedTypeError::StandardLibraryNotAllowed("alloc"))
            };
        }
        if str_eq(type_crate_name, "core") {
            return if self.allow_core {
                Ok(AllowedTypeMatch::StandardLibrary("core"))
            } else {
                Err(AllowedTypeError::StandardLibraryNotAllowed("core"))
            };
        }
        if str_eq(type_crate_name, "std") {
            return if self.allow_std {
                Ok(AllowedTypeMatch::StandardLibrary("std"))
            } else {
                Err(AllowedTypeError::StandardLibraryNotAllowed("std"))
            };
        }

        let ghost pred = |p: Seq<char>| glob_match(p, fq_name@);
        let mut matched: Vec<String> = Vec::new();
        let mut i: usize = 0;
        proof {
            reveal(Seq::filter);
            assert(self.allowed_external_types.deep_view().take(0) =~~= Seq::<Seq<char>>::empty());
            assert(matched.deep_view() =~~= Seq::<Seq<char>>::empty().filter(pred));
        }
        while i < self.allowed_external_types.len()
            invariant
                i <= self.allowed_external_types.len(),
                self.allowed_external_types.deep_view().len()
                    == self.allowed_external_types.len(),
                pred == (|p: Seq<char>| glob_match(p, fq_name@)),
                matched.deep_view() == self.allowed_external_types.deep_view().take(
                    i as int,
                ).filter(pred),
            decreases self.allowed_external_types.len() - i,
        {
            let ghost dv = self.allowed_external_types.deep_view();
            if glob_matches(self.allowed_external_types[i].as_str(), fq_name) {
                let ghost old_m = matched.deep_view();
                matched.push(self.allowed_external_types[i].clone());
                proof {
                    assert(matched.deep_view() =~~= old_m.push(dv[i as int]));
                }
            }
            proof {
                reveal(Seq::filter);
                assert(dv.take(i + 1).drop_last() =~~= dv.take(i as int));
                assert(dv.take(i + 1).last() == dv[i as int]);
            }
            i += 1;
        }
        proof {
            assert(self.allowed_external_types.deep_view().take(
                self.allowed_external_types.len() as int,
            ) =~~= self.allowed_external_types.deep_view());
        }

        if matched.len() == 0 {
            Err(AllowedTypeError::NoMatchFound)
        } else if matched.len() == 1 {
            let ghost ms = matching_patterns(self.allowed_external_types.deep_view(), fq_name@);
            proof {
                assert(matched.deep_view() == ms);
                assert(matched.deep_view()[0] == matched@[0]@);
            }
            let p = matched.pop().unwrap();
            proof {
                assert(p@ == ms[0]);
            }
            Ok(AllowedTypeMatch::WildcardMatch(p))
        } else {
            Err(AllowedTypeError::DuplicateMatches(matched))
        }
    }
}

impl Default for Config {
    /// The default configuration: all three base libraries allowed, and no
    /// glob patterns.
    fn default() -> (r: Self)
        ensures
            r.allow_alloc,
            r.allow_core,
            r.allow_std,
            r.allowed_external_types@.len() == 0,
    {
        Config {
            allow_alloc: default_allow_std(),
            allow_core: default_allow_std(),
            allow_std: default_allow_std(),
            allowed_external_types: Vec::new(),
        }
    }
}

/// The default for each base-library gating boolean.
pub fn default_allow_std() -> (r: bool)
    ensures
        r,
{
    true
}

/// For any type name whose leading path segment equals the root library name,
/// classification is Root, regardless of the base-library gates and of the
/// allow-list patterns.
pub proof fn lemma_root_always_root(cfg: Config, root_crate_name: Seq<char>, fq_name: Seq<char>)
    requires
        leading_of(fq_name) == root_crate_name,
    ensures
        classify(cfg, root_crate_name, fq_name) == Classification::Root,
{
}

/// For any type name from a base library whose gating boolean is false,
/// classification is an error naming that base library — never a silent pass.
pub proof fn lemma_disallowed_base_is_error(cfg: Config, root_crate_name: Seq<char>, fq_name: Seq<char>)
    requires
        leading_of(fq_name) != root_crate_name,
        is_base_name(leading_of(fq_name)),
        !base_gate(cfg, leading_of(fq_name)),
    ensures
        classify(cfg, root_crate_name, fq_name) == Classification::BaseLibraryNotAllowed(
            leading_of(fq_name),
        ),
        classification_is_error(classify(cfg, root_crate_name, fq_name)),
{
}

/// The matching patterns are exactly the configured patterns that match.
pub proof fn lemma_matching_members(patterns: Seq<Seq<char>>, name: Seq<char>)
    ensures
        forall|q: Seq<char>| #[trigger]
            matching_patterns(patterns, name).contains(q) <==> (patterns.contains(q)
                && glob_match(q, name)),
    decreases patterns.len(),
{
    reveal(Seq::filter);
    let ms = matching_patterns(patterns, name);
    if patterns.len() == 0 {
        assert forall|q: Seq<char>| #[trigger]
            ms.contains(q) <==> (patterns.contains(q) && glob_match(q, name)) by {
            assert(ms.len() == 0);
        }
    } else {
        let t = patterns.drop_last();
        let last = patterns.last();
        lemma_matching_members(t, name);
        let mt = matching_patterns(t, name);
        assert forall|q: Seq<char>| #[trigger]
            ms.contains(q) <==> (patterns.contains(q) && glob_match(q, name)) by {
            if glob_match(last, name) {
                assert(ms == mt.push(last));
                if ms.contains(q) {
                    let k = choose|k: int| 0 <= k < ms.len() && ms[k] == q;
                    if k < mt.len() {
                        assert(mt[k] == q);
                        assert(mt.contains(q));
                        let m = choose|m: int| 0 <= m < t.len() && t[m] == q;
                        assert(patterns[m] == q);
                        assert(patterns.contains(q));
                    } else {
                        assert(q == last);
                        assert(patterns[patterns.len() - 1] == q);
                        assert(patterns.contains(q));
                    }
                }
                if patterns.contains(q) && glob_match(q, name) {
                    let k = choose|k: int| 0 <= k < patterns.len() && patterns[k] == q;
                    if k < patterns.len() - 1 {
                        assert(t[k] == q);
                        assert(t.contains(q));
                        assert(mt.contains(q));
                        let m = choose|m: int| 0 <= m < mt.len() && mt[m] == q;
                        assert(ms[m] == q);
                    } else {
                        assert(q == last);
                        assert(ms[mt.len() as int] == q);
                    }
                    assert(ms.contains(q));
                }
            } else {
                assert(ms == mt);
                if ms.contains(q) {
                    assert(t.contains(q) && glob_match(q, name));
                    let m = choose|m: int| 0 <= m < t.len() && t[m] == q;
                    assert(patterns[m] == q);
                    assert(patterns.contains(q));
                }
                if patterns.contains(q) && glob_match(q, name) {
                    let k = choose|k: int| 0 <= k < patterns.len() && patterns[k] == q;
                    if k < patterns.len() - 1 {
                        assert(t[k] == q);
                        assert(t.contains(q));
                    } else {
                        assert(q == last);
                    }
                    assert(ms.contains(q));
                }
            }
        }
    }
}

proof fn lemma_filter_to_multiset(s: Seq<Seq<char>>, pred: spec_fn(Seq<char>) -> bool)
    ensures
        s.filter(pred).to_multiset() =~= s.to_multiset().filter(pred),
    decreases s.len(),
{
    broadcast use vstd::seq_lib::group_to_multiset_ensures;
    broadcast use vstd::multiset::group_multiset_axioms;

    reveal(Seq::filter);
    if s.len() == 0 {
        assert(forall|v: Seq<char>| s.to_multiset().count(v) == 0);
    } else {
        let t = s.drop_last();
        let a = s.last();
        lemma_filter_to_multiset(t, pred);
        assert(t.push(a) =~~= s);
        assert(t.push(a).to_multiset() =~= t.to_multiset().insert(a));
        if pred(a) {
            assert(s.filter(pred) == t.filter(pred).push(a));
            assert(t.filter(pred).push(a).to_multiset() =~= t.filter(pred).to_multiset().insert(
                a,
            ));
            assert(t.filter(pred).to_multiset().insert(a) =~= t.to_multiset().insert(a).filter(
                pred,
            ));
        } else {
            assert(s.filter(pred) == t.filter(pred));
            assert(t.filter(pred).to_multiset() =~= t.to_multiset().insert(a).filter(pred));
        }
    }
}

/// Duplicate detection is order-independent: when two configurations hold the
/// same patterns as a multiset (any order, same duplicates) and the same
/// base-library gates, and two or more patterns match the type name, both
/// classifications are Duplicates — never a silently chosen single match —
/// and each one lists all the matching patterns, the same in both up to
/// order.
pub proof fn lemma_duplicates_order_independent(
    cfg1: Config,
    cfg2: Config,
    root_crate_name: Seq<char>,
    fq_name: Seq<char>,
)
    requires
        cfg1.allowed_external_types.deep_view().to_multiset()
            == cfg2.allowed_external_types.deep_view().to_multiset(),
        leading_of(fq_name) != root_crate_name,
        !is_base_name(leading_of(fq_name)),
        matching_patterns(cfg1.allowed_external_types.deep_view(), fq_name).len() >= 2,
    ensures
        classify(cfg1, root_crate_name, fq_name) matches Classification::Duplicates(ds1)
            && ds1 == matching_patterns(cfg1.allowed_external_types.deep_view(), fq_name),
        classify(cfg2, root_crate_name, fq_name) matches Classification::Duplicates(ds2)
            && ds2 == matching_patterns(cfg2.allowed_external_types.deep_view(), fq_name),
        matching_patterns(cfg1.allowed_external_types.deep_view(), fq_name).to_multiset()
            == matching_patterns(cfg2.allowed_external_types.deep_view(), fq_name).to_multiset(),
{
    broadcast use vstd::seq_lib::group_to_multiset_ensures;

    let pred = |p: Seq<char>| glob_match(p, fq_name);
    let ps1 = cfg1.allowed_external_types.deep_view();
    let ps2 = cfg2.allowed_external_types.deep_view();
    lemma_filter_to_multiset(ps1, pred);
    lemma_filter_to_multiset(ps2, pred);
    assert(ps1.filter(pred).to_multiset() =~= ps2.filter(pred).to_multiset());
    assert(ps1.filter(pred).len() == ps1.filter(pred).to_multiset().len());
    assert(ps2.filter(pred).len() == ps2.filter(pred).to_multiset().len());
}

} // verus!
