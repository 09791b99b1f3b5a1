//! The graph visitor: a depth-first walk of the item graph from the root
//! module, restricted to publicly reachable paths, classifying every external
//! type reference it meets and collecting findings. Traversal state lives in
//! an accumulator threaded by exclusive reference down the call stack: the
//! findings only grow, the unused-pattern set only shrinks, and a ghost set
//! records which names were checked against the allow-list, which is what ties
//! the unused-pattern warnings to the traversal.

use vstd::prelude::*;

use crate::config::{
    classify, matching_patterns, AllowedTypeError, AllowedTypeMatch, Classification, Config,
};
use crate::error::{
    full_sort_key_v, location_sort_key_v, sorted_insert, spec_sort_key, ErrorLocation,
    ErrorLocationV, ValidationError, ValidationErrorV, ValidationErrors,
};
use crate::glob::glob_match;
use crate::graph::{index_lookup, opt_span_field_view, Crate, Item, ItemSummary, Span, SpanV, Visibility};
use crate::path::{last_span_of, path_names, ComponentType, Path, PathComponentV};
use crate::strings::join_sep;

verus! {

/// A condition that aborts the whole run, as distinguished from a finding:
/// findings are expected and collected, faults mean the analysis cannot
/// continue without silently under-reporting.
#[derive(Debug, PartialEq, Eq)]
pub enum Fault {
    /// An unstable or unrepresentable construct was met; the diagnostic names
    /// it.
    UnsupportedConstruct(String),
    /// A graph node expected to exist is absent from the index.
    MissingItem(u32),
    /// The root identifier is absent from the index.
    MissingRoot,
    /// No module in the index is marked as the crate root.
    MissingRootModule,
    /// The root item carries no name.
    RootUnnamed,
    /// The defensive recursion limit was exhausted; only pathologically deep
    /// or cyclic graphs reach this.
    DepthLimit,
    /// An internal invariant of the graph was violated; the diagnostic says
    /// which.
    InternalInvariant(String),
}

/// Whether to test an item's visibility before examining it.
#[derive(Clone, Copy, Debug, PartialEq, Eq, Structural)]
pub enum VisibilityCheck {
    /// Check that the item is effectively public before visiting it.
    Default,
    /// Assume the item is public and examine it; used for items reached
    /// through a public re-export, which are public regardless of their
    /// declared visibility.
    AssumePublic,
}

/// The configured approval patterns that have not matched anything yet.
/// Seeded with every configured pattern (deduplicated by text); a pattern is
/// removed the first time it matches a checked reference.
#[derive(Debug)]
pub struct UnusedPatterns {
    pub patterns: Vec<String>,
}

impl View for UnusedPatterns {
    type V = Seq<Seq<char>>;

    open spec fn view(&self) -> Seq<Seq<char>> {
        self.patterns.deep_view()
    }
}

impl UnusedPatterns {
    /// No pattern occurs twice.
    pub open spec fn wf(&self) -> bool {
        forall|i: int, j: int| 0 <= i < j < self@.len() ==> self@[i] != self@[j]
    }

    /// Seeds the set with every configured pattern, dropping textual
    /// duplicates.
    pub fn from_config(patterns: &Vec<String>) -> (r: Self)
        ensures
            r.wf(),
            forall|x: Seq<char>| #[trigger]
                r@.contains(x) <==> patterns.deep_view().contains(x),
    {
        let mut r = UnusedPatterns { patterns: Vec::new() };
        let mut i: usize = 0;
        proof {
            assert(patterns.deep_view().take(0) =~~= Seq::<Seq<char>>::empty());
        }
        while i < patterns.len()
            invariant
                i <= patterns@.len(),
                patterns.deep_view().len() == patterns@.len(),
                r.wf(),
                forall|x: Seq<char>| #[trigger]
                    r@.contains(x) <==> patterns.deep_view().take(i as int).contains(x),
            decreases patterns@.len() - i,
        {
            let ghost dv = patterns.deep_view();
            let present = r.contains_pattern(patterns[i].as_str());
            proof {
                assert(dv[i as int] == patterns@[i as int]@);
            }
            if !present {
                let ghost old_view = r@;
                r.patterns.push(patterns[i].clone());
                proof {
                    assert(r@ =~~= old_view.push(dv[i as int]));
                    assert forall|x: Seq<char>| #[trigger]
                        r@.contains(x) <==> dv.take(i + 1).contains(x) by {
                        assert(dv.take(i + 1) =~~= dv.take(i as int).push(dv[i as int]));
                        if r@.contains(x) {
                            let k = choose|k: int| 0 <= k < r@.len() && (#[trigger] r@[k]) == x;
                            if k < old_view.len() {
                                assert(old_view[k] == x);
                                assert(old_view.contains(x));
                                assert(dv.take(i as int).contains(x));
                                let m = choose|m: int|
                                    0 <= m < dv.take(i as int).len() && (#[trigger] dv.take(
                                    i as int,
                                )[m]) == x;
                                assert(dv.take(i + 1)[m] == x);
                            } else {
                                assert(x == dv[i as int]);
                                assert(dv.take(i + 1)[i as int] == x);
                            }
                            assert(dv.take(i + 1).contains(x));
                        }
                        if dv.take(i + 1).contains(x) {
                            let k = choose|k: int| 0 <= k < dv.take(i + 1).len() && (#[trigger] dv.take(i + 1)[k]) == x;
                            if k < i {
                                assert(dv.take(i as int)[k] == x);
                                assert(dv.take(i as int).contains(x));
                                assert(old_view.contains(x));
                                let m = choose|m: int| 0 <= m < old_view.len() && (#[trigger] old_view[m]) == x;
                                assert(r@[m] == x);
                            } else {
                                assert(x == dv[i as int]);
                                assert(r@[old_view.len() as int] == x);
                            }
                            assert(r@.contains(x));
                        }
                    }
                }
            } else {
                proof {
                    assert forall|x: Seq<char>| #[trigger]
                        r@.contains(x) <==> dv.take(i + 1).contains(x) by {
                        assert(dv.take(i + 1) =~~= dv.take(i as int).push(dv[i as int]));
                        if dv.take(i + 1).contains(x) {
                            let k = choose|k: int| 0 <= k < dv.take(i + 1).len() && (#[trigger] dv.take(i + 1)[k]) == x;
                            if k < i {
                                assert(dv.take(i as int)[k] == x);
                                assert(dv.take(i as int).contains(x));
                            } else {
                                assert(x == dv[i as int]);
                            }
                        }
                        if dv.take(i as int).contains(x) {
                            assert(dv.take(i + 1)[choose|k: int| 0 <= k < i && dv.take(i as int)[k] == x] == x);
                        }
                    }
                }
            }
            i += 1;
        }
        proof {
            assert(patterns.deep_view().take(patterns@.len() as int) =~~= patterns.deep_view());
        }
        r
    }

    /// Whether `p` is still in the set.
    pub fn contains_pattern(&self, p: &str) -> (r: bool)
        ensures
            r == self@.contains(p@),
    {
        let mut i: usize = 0;
        while i < self.patterns.len()
            invariant
                i <= self@.len(),
                self@.len() == self.patterns@.len(),
                forall|j: int| 0 <= j < i ==> self@[j] != p@,
            decreases self@.len() - i,
        {
            proof {
                assert(self@[i as int] == self.patterns@[i as int]@);
            }
            if crate::strings::str_eq(self.patterns[i].as_str(), p) {
                proof {
                    assert(self@[i as int] == p@);
                }
                return true;
            }
            i += 1;
        }
        proof {
            if self@.contains(p@) {
                let k = choose|k: int| 0 <= k < self@.len() && (#[trigger] self@[k]) == p@;
            }
        }
        false
    }

    /// Removes `p` from the set; a no-op when it is absent.
    pub fn remove(&mut self, p: &str)
        requires
            old(self).wf(),
        ensures
            final(self).wf(),
            forall|x: Seq<char>| #[trigger]
                final(self)@.contains(x) <==> (old(self)@.contains(x) && x != p@),
    {
        let ghost orig = self@;
        let mut i: usize = 0;
        while i < self.patterns.len()
            invariant
                self.wf(),
                *self == *old(self),
                orig == self@,
                i <= self@.len(),
                self@.len() == self.patterns@.len(),
                forall|j: int| 0 <= j < i ==> self@[j] != p@,
            decreases self@.len() - i,
        {
            proof {
                assert(self@[i as int] == self.patterns@[i as int]@);
            }
            if crate::strings::str_eq(self.patterns[i].as_str(), p) {
                self.patterns.remove(i);
                proof {
                    assert(self@ =~~= orig.remove(i as int));
                    assert forall|j: int, k: int|
                        0 <= j < k < self@.len() implies self@[j] != self@[k] by {
                        let oj: int = if j < i { j } else { j + 1 };
                        let ok: int = if k < i { k } else { k + 1 };
                        assert(self@[j] == orig[oj]);
                        assert(self@[k] == orig[ok]);
                    }
                    assert forall|x: Seq<char>| #[trigger]
                        self@.contains(x) <==> (orig.contains(x) && x != p@) by {
                        if self@.contains(x) {
                            let k = choose|k: int| 0 <= k < self@.len() && (#[trigger] self@[k]) == x;
                            let ok: int = if k < i { k } else { k + 1 };
                            assert(orig[ok] == x);
                            assert(orig.contains(x));
                            assert(orig[i as int] == p@);
                            if x == p@ {
                                assert(ok != i);
                                assert(false);
                            }
                        }
                        if orig.contains(x) && x != p@ {
                            let k = choose|k: int| 0 <= k < orig.len() && (#[trigger] orig[k]) == x;
                            assert(k != i);
                            let nk: int = if k < i { k } else { k - 1 };
                            assert(self@[nk] == x);
                        }
                    }
                }
                return;
            }
            i += 1;
        }
        proof {
            if orig.contains(p@) {
                let k = choose|k: int| 0 <= k < orig.len() && (#[trigger] orig[k]) == p@;
            }
        }
    }
}

/// The traversal accumulator: the findings so far, the approval patterns not
/// yet used, and (in ghost state) the set of names checked against the
/// allow-list so far.
pub struct Acc {
    pub errors: ValidationErrors,
    pub unused: UnusedPatterns,
    pub checked: Ghost<Set<Seq<char>>>,
}

/// Whether the pattern `p` is configured and has matched none of the names in
/// `checked`.
pub open spec fn pattern_unmatched(
    cfg_patterns: Seq<Seq<char>>,
    checked: Set<Seq<char>>,
    p: Seq<char>,
) -> bool {
    cfg_patterns.contains(p) && forall|t: Seq<char>| #[trigger]
        checked.contains(t) ==> !glob_match(p, t)
}

/// The accumulator's invariant: the findings are well-formed, the pattern
/// set holds no duplicates, and it holds exactly the configured patterns that
/// no checked name has matched.
pub open spec fn acc_inv(cfg: Config, acc: Acc) -> bool {
    &&& acc.errors.wf()
    &&& acc.unused.wf()
    &&& forall|p: Seq<char>| #[trigger]
        acc.unused@.contains(p) <==> pattern_unmatched(
            cfg.allowed_external_types.deep_view(),
            acc.checked@,
            p,
        )
}

/// How one accumulator state may evolve into another over any stretch of
/// traversal: the checked set grows, findings are never dropped, and no
/// unused-approval finding is ever added during traversal (those only appear
/// in the final flush).
pub open spec fn acc_evolves(pre: Acc, post: Acc) -> bool {
    &&& pre.checked@.subset_of(post.checked@)
    &&& forall|x: ValidationErrorV| #[trigger]
        pre.errors@.contains(x) ==> post.errors@.contains(x)
    &&& forall|x: ValidationErrorV| #[trigger]
        post.errors@.contains(x) && x is UnusedApprovalPattern ==> pre.errors@.contains(x)
}

/// `acc_evolves` chains across successive stretches of traversal.
pub broadcast proof fn lemma_acc_evolves_trans(a: Acc, b: Acc, c: Acc)
    requires
        acc_evolves(a, b),
        acc_evolves(b, c),
    ensures
        #![trigger acc_evolves(a, b), acc_evolves(b, c)]
        acc_evolves(a, c),
{
    assert forall|x: Seq<char>| a.checked@.contains(x) implies c.checked@.contains(x) by {
        assert(b.checked@.contains(x));
    }
    assert forall|x: ValidationErrorV| #[trigger]
        a.errors@.contains(x) implies c.errors@.contains(x) by {
        assert(b.errors@.contains(x));
    }
    assert forall|x: ValidationErrorV| #[trigger]
        c.errors@.contains(x) && x is UnusedApprovalPattern implies a.errors@.contains(x) by {
        assert(b.errors@.contains(x));
    }
}

/// The unapproved-external-reference finding raised at `path`.
pub open spec fn finding_unapproved(
    fq_name: Seq<char>,
    what: ErrorLocationV,
    path: Seq<PathComponentV>,
) -> ValidationErrorV {
    ValidationErrorV::UnapprovedExternalTypeRef {
        fq_name,
        what,
        in_what_type: join_sep(path_names(path)),
        location: last_span_of(path),
        sort_key: full_sort_key_v(last_span_of(path), fq_name, what, join_sep(path_names(path))),
    }
}

/// The duplicate-approval finding raised at `path`.
pub open spec fn finding_duplicate(
    fq_name: Seq<char>,
    what: ErrorLocationV,
    path: Seq<PathComponentV>,
    duplicate: Seq<Seq<char>>,
) -> ValidationErrorV {
    ValidationErrorV::DuplicateApproved {
        fq_name,
        what,
        in_what_type: join_sep(path_names(path)),
        location: last_span_of(path),
        duplicate,
        sort_key: full_sort_key_v(last_span_of(path), fq_name, what, join_sep(path_names(path))),
    }
}

/// What checking one name against the allow-list does to the accumulator.
pub open spec fn check_allow_type_post(
    cfg: Config,
    root_crate_name: Seq<char>,
    fq_name: Seq<char>,
    what: ErrorLocationV,
    path: Seq<PathComponentV>,
    pre: Acc,
    post: Acc,
) -> bool {
    match classify(cfg, root_crate_name, fq_name) {
        Classification::Root => post.errors@ == pre.errors@ && post.checked@ == pre.checked@,
        Classification::BaseLibrary(_) => post.errors@ == pre.errors@ && post.checked@
            == pre.checked@,
        Classification::BaseLibraryNotAllowed(_) => post.errors@ == sorted_insert(
            pre.errors@,
            finding_unapproved(fq_name, what, path),
        ) && post.checked@ == pre.checked@,
        Classification::Approved(_) => post.errors@ == pre.errors@ && post.checked@
            == pre.checked@.insert(fq_name),
        Classification::NoMatch => post.errors@ == sorted_insert(
            pre.errors@,
            finding_unapproved(fq_name, what, path),
        ) && post.checked@ == pre.checked@.insert(fq_name),
        Classification::Duplicates(ds) => post.errors@ == sorted_insert(
            pre.errors@,
            finding_duplicate(fq_name, what, path, ds),
        ) && post.checked@ == pre.checked@.insert(fq_name),
    }
}

/// Visits all items in the item graph to discover external types in public
/// interfaces, collecting them as findings when the [`Config`] does not
/// allow them.
#[derive(Debug)]
pub struct Visitor {
    /// Parsed configuration, or the defaults if none was provided.
    pub config: Config,
    /// Identifier of the crate being visited, as the graph assigned it.
    pub root_crate_id: u32,
    /// Name of the crate being visited.
    pub root_crate_name: String,
    /// The item index of the graph.
    pub index: Vec<Item>,
    /// The path table of the graph.
    pub paths: Vec<ItemSummary>,
}

impl Visitor {
    fn root<'a>(package: &'a Crate) -> (r: Result<&'a Item, Fault>)
        ensures
            match r {
                Ok(item) => index_lookup(package.index@, package.root) == Some(*item),
                Err(f) => f == Fault::MissingRoot && index_lookup(package.index@, package.root)
                    is None,
            },
    {
        match crate::graph::find_item(&package.index, package.root) {
            Some(item) => Ok(item),
            None => Err(Fault::MissingRoot),
        }
    }

    /// Builds a visitor over `package`, resolving the root crate's identifier
    /// and name; fails when the root item is missing or unnamed.
    pub fn new(config: Config, package: Crate) -> (r: Result<Visitor, Fault>)
        ensures
            match r {
                Ok(v) => {
                    &&& index_lookup(package.index@, package.root) matches Some(root_item)
                        && v.root_crate_id == root_item.crate_id && (
                    root_item.name matches Some(n) && v.root_crate_name@ == n@)
                    &&& v.config == config
                    &&& v.index@ == package.index@
                    &&& v.paths@ == package.paths@
                },
                Err(f) => {
                    ||| f == Fault::MissingRoot && index_lookup(package.index@, package.root)
                        is None
                    ||| f == Fault::RootUnnamed && (index_lookup(package.index@, package.root)
                        matches Some(root_item) && root_item.name is None)
                },
            },
    {
        let root_crate_id: u32;
        let root_crate_name: String;
        {
            let root_item = Self::root(&package)?;
            root_crate_id = root_item.crate_id;
            match &root_item.name {
                Some(n) => {
                    root_crate_name = n.clone();
                },
                None => {
                    return Err(Fault::RootUnnamed);
                },
            }
        }
        Ok(
            Visitor {
                config,
                root_crate_id,
                root_crate_name,
                index: package.index,
                paths: package.paths,
            },
        )
    }

    /// The fully-qualified name of `id` from the path table, if it is there.
    fn fq_name_of(&self, id: u32) -> (r: Option<String>)
        ensures
            match r {
                Some(n) => crate::graph::paths_lookup(self.paths@, id) matches Some(summary)
                    && n@ == join_sep(summary.path.deep_view()),
                None => crate::graph::paths_lookup(self.paths@, id) is None,
            },
    {
        match crate::graph::find_summary(&self.paths, id) {
            Some(summary) => Some(crate::strings::join_path(&summary.path)),
            None => None,
        }
    }

    /// Whether `id` belongs to the root crate; items absent from the index
    /// are assumed external.
    fn in_root_crate(&self, id: u32) -> (r: bool)
        ensures
            r == match index_lookup(self.index@, id) {
                Some(item) => item.crate_id == self.root_crate_id,
                None => false,
            },
    {
        match crate::graph::find_item(&self.index, id) {
            Some(item) => item.crate_id == self.root_crate_id,
            None => false,
        }
    }

    /// Classifies one fully-qualified name against the allow-list and updates
    /// the accumulator: passes leave no trace, approvals consume their
    /// pattern, violations become findings.
    fn check_allow_type(
        &self,
        path: &Path,
        what: &ErrorLocation,
        fq_name: String,
        acc: &mut Acc,
    )
        requires
            acc_inv(self.config, *old(acc)),
        ensures
            acc_inv(self.config, *final(acc)),
            acc_evolves(*old(acc), *final(acc)),
            check_allow_type_post(
                self.config,
                self.root_crate_name@,
                fq_name@,
                what@,
                path@,
                *old(acc),
                *final(acc),
            ),
            acc_state(*final(acc)) == trace_check_allow_type(
                *self,
                path@,
                what@,
                fq_name@,
                acc_state(*old(acc)),
            ),
    {
        broadcast use lemma_acc_evolves_trans;

        let ghost cfg = self.config;
        let ghost patterns = self.config.allowed_external_types.deep_view();
        let ghost c = classify(cfg, self.root_crate_name@, fq_name@);
        let ghost pre = *acc;
        match self.config.allows_type(self.root_crate_name.as_str(), fq_name.as_str()) {
            Ok(AllowedTypeMatch::RootMatch) => {
                proof {
                    assert(c is Root);
                }
            },
            Ok(AllowedTypeMatch::StandardLibrary(_)) => {
                proof {
                    assert(c is BaseLibrary);
                }
            },
            Ok(AllowedTypeMatch::WildcardMatch(pattern)) => {
                proof {
                    assert(c is Approved && c->Approved_0 == pattern@);
                    crate::config::lemma_matching_members(patterns, fq_name@);
                }
                acc.unused.remove(pattern.as_str());
                proof {
                    acc.checked@ = pre.checked@.insert(fq_name@);
                    let ms = matching_patterns(patterns, fq_name@);
                    assert(ms.contains(pattern@));
                    assert forall|p: Seq<char>| #[trigger]
                        acc.unused@.contains(p) <==> pattern_unmatched(
                            patterns,
                            acc.checked@,
                            p,
                        ) by {
                        if acc.unused@.contains(p) {
                            assert(pre.unused@.contains(p) && p != pattern@);
                            assert(pattern_unmatched(patterns, pre.checked@, p));
                            if glob_match(p, fq_name@) {
                                assert(ms.contains(p));
                                assert(ms.len() == 1);
                                assert(p == ms[0] && pattern@ == ms[0]);
                                assert(false);
                            }
                            assert forall|t: Seq<char>| #[trigger]
                                acc.checked@.contains(t) implies !glob_match(p, t) by {
                                if t != fq_name@ {
                                    assert(pre.checked@.contains(t));
                                }
                            }
                        }
                        if pattern_unmatched(patterns, acc.checked@, p) {
                            assert(acc.checked@.contains(fq_name@));
                            assert(!glob_match(p, fq_name@));
                            assert(p != pattern@);
                            assert forall|t: Seq<char>| #[trigger]
                                pre.checked@.contains(t) implies !glob_match(p, t) by {
                                assert(acc.checked@.contains(t));
                            }
                            assert(pattern_unmatched(patterns, pre.checked@, p));
                            assert(pre.unused@.contains(p));
                        }
                    }
                }
            },
            Err(AllowedTypeError::StandardLibraryNotAllowed(_)) => {
                proof {
                    assert(c is BaseLibraryNotAllowed);
                }
                let e = ValidationError::unapproved_external_type_ref(
                    fq_name,
                    what,
                    path.render(),
                    path.last_span(),
                );
                proof {
                    crate::error::lemma_sorted_insert_props(acc.errors@, e@);
                }
                acc.errors.add(e);
            },
            Err(AllowedTypeError::NoMatchFound) => {
                proof {
                    assert(c is NoMatch);
                    crate::config::lemma_matching_members(patterns, fq_name@);
                }
                let ghost fqv = fq_name@;
                let e = ValidationError::unapproved_external_type_ref(
                    fq_name,
                    what,
                    path.render(),
                    path.last_span(),
                );
                proof {
                    crate::error::lemma_sorted_insert_props(acc.errors@, e@);
                }
                acc.errors.add(e);
                proof {
                    acc.checked@ = pre.checked@.insert(fqv);
                    let ms = matching_patterns(patterns, fqv);
                    assert forall|p: Seq<char>| #[trigger]
                        acc.unused@.contains(p) <==> pattern_unmatched(
                            patterns,
                            acc.checked@,
                            p,
                        ) by {
                        if acc.unused@.contains(p) {
                            assert(pattern_unmatched(patterns, pre.checked@, p));
                            if glob_match(p, fqv) {
                                assert(ms.contains(p));
                                assert(false);
                            }
                            assert forall|t: Seq<char>| #[trigger]
                                acc.checked@.contains(t) implies !glob_match(p, t) by {
                                if t != fqv {
                                    assert(pre.checked@.contains(t));
                                }
                            }
                        }
                        if pattern_unmatched(patterns, acc.checked@, p) {
                            assert forall|t: Seq<char>| #[trigger]
                                pre.checked@.contains(t) implies !glob_match(p, t) by {
                                assert(acc.checked@.contains(t));
                            }
                            assert(pre.unused@.contains(p));
                        }
                    }
                }
            },
            Err(AllowedTypeError::DuplicateMatches(duplicated)) => {
                proof {
                    assert(c is Duplicates && c->Duplicates_0 == duplicated.deep_view());
                    crate::config::lemma_matching_members(patterns, fq_name@);
                }
                let ghost fqv = fq_name@;
                let ghost ms = matching_patterns(patterns, fqv);
                let mut k: usize = 0;
                while k < duplicated.len()
                    invariant
                        k <= duplicated@.len(),
                        duplicated.deep_view().len() == duplicated@.len(),
                        duplicated.deep_view() == ms,
                        acc.unused.wf(),
                        acc.errors@ == pre.errors@,
                        acc.errors.wf(),
                        acc.checked@ == pre.checked@,
                        forall|p: Seq<char>| #[trigger]
                            acc.unused@.contains(p) <==> (pre.unused@.contains(p) && !ms.take(
                                k as int,
                            ).contains(p)),
                    decreases duplicated@.len() - k,
                {
                    proof {
                        assert(duplicated.deep_view()[k as int] == duplicated@[k as int]@);
                    }
                    let ghost before = acc.unused@;
                    acc.unused.remove(duplicated[k].as_str());
                    proof {
                        assert forall|p: Seq<char>| #[trigger]
                            acc.unused@.contains(p) <==> (pre.unused@.contains(p) && !ms.take(
                                k + 1,
                            ).contains(p)) by {
                            assert(ms.take(k + 1) =~~= ms.take(k as int).push(ms[k as int]));
                            if acc.unused@.contains(p) {
                                assert(before.contains(p) && p != ms[k as int]);
                                assert(!ms.take(k as int).contains(p));
                                if ms.take(k + 1).contains(p) {
                                    let m = choose|m: int| 0 <= m < ms.take(k + 1).len() && (#[trigger] ms.take(k + 1)[m]) == p;
                                    if m < k {
                                        assert(ms.take(k as int)[m] == p);
                                    }
                                    assert(false);
                                }
                            }
                            if pre.unused@.contains(p) && !ms.take(k + 1).contains(p) {
                                assert(!ms.take(k as int).contains(p)) by {
                                    if ms.take(k as int).contains(p) {
                                        let m = choose|m: int|
                                            0 <= m < k && ms.take(k as int)[m] == p;
                                        assert(ms.take(k + 1)[m] == p);
                                    }
                                }
                                assert(before.contains(p));
                                assert(p != ms[k as int]) by {
                                    if p == ms[k as int] {
                                        assert(ms.take(k + 1)[k as int] == p);
                                    }
                                }
                                assert(acc.unused@.contains(p));
                            }
                        }
                    }
                    k += 1;
                }
                let e = ValidationError::duplicate_approved(
                    fq_name,
                    what,
                    path.render(),
                    path.last_span(),
                    duplicated,
                );
                proof {
                    crate::error::lemma_sorted_insert_props(acc.errors@, e@);
                }
                acc.errors.add(e);
                proof {
                    acc.checked@ = pre.checked@.insert(fqv);
                    assert(ms.take(ms.len() as int) =~~= ms);
                    assert forall|p: Seq<char>| #[trigger]
                        acc.unused@.contains(p) <==> pattern_unmatched(
                            patterns,
                            acc.checked@,
                            p,
                        ) by {
                        if acc.unused@.contains(p) {
                            assert(pre.unused@.contains(p) && !ms.contains(p));
                            assert(pattern_unmatched(patterns, pre.checked@, p));
                            if glob_match(p, fqv) {
                                assert(ms.contains(p));
                                assert(false);
                            }
                            assert forall|t: Seq<char>| #[trigger]
                                acc.checked@.contains(t) implies !glob_match(p, t) by {
                                if t != fqv {
                                    assert(pre.checked@.contains(t));
                                }
                            }
                        }
                        if pattern_unmatched(patterns, acc.checked@, p) {
                            assert(acc.checked@.contains(fqv));
                            assert(!glob_match(p, fqv));
                            assert(!ms.contains(p));
                            assert forall|t: Seq<char>| #[trigger]
                                pre.checked@.contains(t) implies !glob_match(p, t) by {
                                assert(acc.checked@.contains(t));
                            }
                            assert(pre.unused@.contains(p));
                        }
                    }
                }
            },
        }
    }
}

/// The hidden-item finding raised at `path`.
pub open spec fn finding_hidden_item(
    what: ErrorLocationV,
    path: Seq<PathComponentV>,
) -> ValidationErrorV {
    ValidationErrorV::HiddenItem {
        what,
        in_what_type: join_sep(path_names(path)),
        location: last_span_of(path),
        sort_key: location_sort_key_v(last_span_of(path)),
    }
}

/// The unused-approval finding for the pattern `p`.
pub open spec fn finding_unused(p: Seq<char>) -> ValidationErrorV {
    ValidationErrorV::UnusedApprovalPattern { fq_name: p }
}

/// Effective visibility: an item's raw flag, plus the contextual promotions.
/// A default-visibility item is effectively public when it is an enum variant
/// under an enum, a struct field under an enum variant, an associated type
/// (reached only through impls of public traits), or any item directly under
/// a public trait.
pub open spec fn spec_is_public(path: Seq<PathComponentV>, item: Item) -> bool {
    match item.visibility {
        Visibility::Public => true,
        Visibility::Default => {
            let last = if path.len() > 0 {
                Some(path.last().kind)
            } else {
                None
            };
            ||| (item.inner is Variant && last == Some(ComponentType::Enum))
            ||| (item.inner is StructField && last == Some(ComponentType::EnumVariant))
            ||| (item.inner is AssocType && last is Some)
            ||| last == Some(ComponentType::Trait)
        },
        Visibility::Restricted => false,
    }
}

/// What classifying the reference `id` does to the accumulator: named items
/// go through the allow-list, unnameable external items raise a hidden-item
/// warning, unnameable root-crate items are private-and-elided and pass.
pub open spec fn check_external_post(
    v: Visitor,
    id: u32,
    what: ErrorLocationV,
    path: Seq<PathComponentV>,
    pre: Acc,
    post: Acc,
) -> bool {
    match crate::graph::paths_lookup(v.paths@, id) {
        Some(summary) => check_allow_type_post(
            v.config,
            v.root_crate_name@,
            join_sep(summary.path.deep_view()),
            what,
            path,
            pre,
            post,
        ),
        None => {
            let external = match index_lookup(v.index@, id) {
                Some(item) => item.crate_id != v.root_crate_id,
                None => true,
            };
            if external {
                post.errors@ == sorted_insert(pre.errors@, finding_hidden_item(what, path))
                    && post.checked@ == pre.checked@
            } else {
                post.errors@ == pre.errors@ && post.checked@ == pre.checked@
            }
        },
    }
}

/// The first segment of `source` that is not the name of any indexed item:
/// the best-effort guess at the doc-hidden module an import runs through.
pub open spec fn spec_first_hidden(segments: Seq<Seq<char>>, index: Seq<Item>) -> Option<
    Seq<char>,
>
    decreases segments.len(),
{
    if segments.len() == 0 {
        None
    } else if !crate::graph::index_has_name(index, segments[0]) {
        Some(segments[0])
    } else {
        spec_first_hidden(segments.drop_first(), index)
    }
}

/// Scans the textual import source path segment by segment and returns the
/// first segment whose name is absent from the whole index. This is a
/// heuristic, not an exact inference: a hidden module elsewhere could share
/// its name with an indexed item.
#[verifier::loop_isolation(false)]
pub fn infer_first_hidden_module_in_import_source(
    import_source: &str,
    index: &Vec<Item>,
) -> (r: Option<String>)
    ensures
        crate::error::opt_string_view(r) == spec_first_hidden(
            crate::strings::split_sep(import_source@),
            index@,
        ),
{
    let segments = crate::strings::split_path(import_source);
    let ghost segs = segments.deep_view();
    let mut i: usize = 0;
    proof {
        assert(segs.skip(0) =~~= segs);
    }
    while i < segments.len()
        invariant
            i <= segments@.len(),
            segs.len() == segments@.len(),
            segs == segments.deep_view(),
            spec_first_hidden(segs, index@) == spec_first_hidden(segs.skip(i as int), index@),
        decreases segments@.len() - i,
    {
        proof {
            assert(segs.skip(i as int)[0] == segs[i as int]);
            assert(segs.skip(i as int).drop_first() =~~= segs.skip(i + 1));
            assert(segs[i as int] == segments@[i as int]@);
        }
        if !crate::graph::any_item_named(index, segments[i].as_str()) {
            proof {
                assert(segs.skip(i as int).len() > 0);
                assert(spec_first_hidden(segs.skip(i as int), index@) == Some(segs[i as int]));
            }
            return Some(segments[i].clone());
        }
        i += 1;
    }
    None
}

impl Visitor {
    /// Classifies the reference `id`: through the allow-list when it can be
    /// named, as a hidden-item warning when it is external but unnameable.
    fn check_external(&self, path: &Path, what: &ErrorLocation, id: u32, acc: &mut Acc)
        requires
            acc_inv(self.config, *old(acc)),
        ensures
            acc_inv(self.config, *final(acc)),
            acc_evolves(*old(acc), *final(acc)),
            check_external_post(*self, id, what@, path@, *old(acc), *final(acc)),
            acc_state(*final(acc)) == trace_check_external(
                *self,
                path@,
                what@,
                id,
                acc_state(*old(acc)),
            ),
    {
        broadcast use lemma_acc_evolves_trans;

        let ghost pre = *acc;
        match self.fq_name_of(id) {
            Some(fq_name) => {
                self.check_allow_type(path, what, fq_name, acc);
            },
            None => {
                if !self.in_root_crate(id) {
                    let e = ValidationError::hidden_item(what, path.render(), path.last_span());
                    proof {
                        crate::error::lemma_sorted_insert_props(acc.errors@, e@);
                    }
                    acc.errors.add(e);
                }
            },
        }
    }

    /// Visits a reference to a named item: classifies the target and then
    /// walks its generic arguments.
    #[verifier::loop_isolation(false)]
    fn check_rustdoc_path(
        &self,
        path: &Path,
        what: &ErrorLocation,
        rustdoc_path: &crate::graph::PathRef,
        acc: &mut Acc,
    ) -> (r: Result<(), Fault>)
        requires
            acc_inv(self.config, *old(acc)),
        ensures
            acc_inv(self.config, *final(acc)),
            acc_evolves(*old(acc), *final(acc)),
            r matches Err(f) ==> f is UnsupportedConstruct,
            ({
                let t = trace_check_rustdoc_path(*self, path@, what@, *rustdoc_path, acc_state(*old(acc)));
                match r {
                    Ok(_) => t == Ok::<TraceState, TraceFault>(acc_state(*final(acc))),
                    Err(f) => t matches Err(tf) && fault_models(f, tf),
                }
            }),
        decreases *rustdoc_path,
    {
        broadcast use lemma_acc_evolves_trans;

        let ghost pre = *acc;
        self.check_external(path, what, rustdoc_path.id, acc);
        match &rustdoc_path.args {
            Some(generic_args) => {
                self.visit_generic_args(path, generic_args, acc)?;
            },
            None => {},
        }
        Ok(())
    }

    /// Walks a type expression, classifying every named reference inside it.
    #[verifier::loop_isolation(false)]
    fn visit_type(
        &self,
        path: &Path,
        what: &ErrorLocation,
        typ: &crate::graph::Type,
        acc: &mut Acc,
    ) -> (r: Result<(), Fault>)
        requires
            acc_inv(self.config, *old(acc)),
        ensures
            acc_inv(self.config, *final(acc)),
            acc_evolves(*old(acc), *final(acc)),
            r matches Err(f) ==> f is UnsupportedConstruct,
            ({
                let t = trace_visit_type(*self, path@, what@, *typ, acc_state(*old(acc)));
                match r {
                    Ok(_) => t == Ok::<TraceState, TraceFault>(acc_state(*final(acc))),
                    Err(f) => t matches Err(tf) && fault_models(f, tf),
                }
            }),
        decreases *typ,
    {
        broadcast use lemma_acc_evolves_trans;

        let ghost pre = *acc;
        match typ {
            crate::graph::Type::ResolvedPath(resolved_path) => {
                self.check_rustdoc_path(path, what, resolved_path, acc)?;
            },
            crate::graph::Type::Generic(_) => {},
            crate::graph::Type::Primitive(_) => {},
            crate::graph::Type::Pat => {
                return Err(
                    Fault::UnsupportedConstruct(
                        String::from_str("pattern types are unstable and unsupported"),
                    ),
                );
            },
            crate::graph::Type::FunctionPointer(fp) => {
                self.visit_fn_sig(path, &fp.sig, acc)?;
                self.visit_generic_param_defs(path, &fp.generic_params, acc)?;
            },
            crate::graph::Type::Tuple(types) => {
                let mut i: usize = 0;
                while i < types.len()
                    invariant
                        i <= types@.len(),
                        acc_inv(self.config, *acc),
                        acc_evolves(*old(acc), *acc),
                        trace_visit_type_list(*self, path@, ErrorLocationV::EnumTupleEntry, types@, 0, acc_state(*old(acc))) == trace_visit_type_list(*self, path@, ErrorLocationV::EnumTupleEntry, types@, i as int, acc_state(*acc)),
                    decreases types@.len() - i,
                {
                    self.visit_type(path, &ErrorLocation::EnumTupleEntry, &types[i], acc)?;
                    i += 1;
                }
            },
            crate::graph::Type::Slice(t) => {
                self.visit_type(path, what, t, acc)?;
            },
            crate::graph::Type::Array(t) => {
                self.visit_type(path, what, t, acc)?;
            },
            crate::graph::Type::DynTrait(dyn_trait) => {
                let mut i: usize = 0;
                while i < dyn_trait.traits.len()
                    invariant
                        i <= dyn_trait.traits@.len(),
                        acc_inv(self.config, *acc),
                        acc_evolves(*old(acc), *acc),
                        trace_visit_poly_traits(*self, path@, dyn_trait.traits@, 0, acc_state(*old(acc))) == trace_visit_poly_traits(*self, path@, dyn_trait.traits@, i as int, acc_state(*acc)),
                    decreases dyn_trait.traits@.len() - i,
                {
                    self.check_rustdoc_path(
                        path,
                        &ErrorLocation::DynTrait,
                        &dyn_trait.traits[i].trait_ref,
                        acc,
                    )?;
                    self.visit_generic_param_defs(
                        path,
                        &dyn_trait.traits[i].generic_params,
                        acc,
                    )?;
                    i += 1;
                }
            },
            crate::graph::Type::ImplTrait(impl_trait) => {
                let mut i: usize = 0;
                while i < impl_trait.len()
                    invariant
                        i <= impl_trait@.len(),
                        acc_inv(self.config, *acc),
                        acc_evolves(*old(acc), *acc),
                        trace_visit_bound_list(*self, path@, what@, impl_trait@, 0, acc_state(*old(acc))) == trace_visit_bound_list(*self, path@, what@, impl_trait@, i as int, acc_state(*acc)),
                    decreases impl_trait@.len() - i,
                {
                    match &impl_trait[i] {
                        crate::graph::GenericBound::TraitBound { trait_ref, generic_params } => {
                            self.check_rustdoc_path(path, what, trait_ref, acc)?;
                            self.visit_generic_param_defs(path, generic_params, acc)?;
                        },
                        crate::graph::GenericBound::Outlives => {},
                        crate::graph::GenericBound::PreciseCapture => {},
                    }
                    i += 1;
                }
            },
            crate::graph::Type::Infer => {
                return Err(
                    Fault::UnsupportedConstruct(
                        String::from_str(
                            "an inferred type expression indicates an internal invariant violation",
                        ),
                    ),
                );
            },
            crate::graph::Type::RawPointer(t) => {
                self.visit_type(path, what, t, acc)?;
            },
            crate::graph::Type::BorrowedRef(t) => {
                self.visit_type(path, what, t, acc)?;
            },
            crate::graph::Type::QualifiedPath(q) => {
                self.visit_type(path, &ErrorLocation::QualifiedSelfType, &q.self_type, acc)?;
                match &q.trait_ref {
                    Some(trait_ref) => {
                        self.check_rustdoc_path(
                            path,
                            &ErrorLocation::QualifiedSelfTypeAsTrait,
                            trait_ref,
                            acc,
                        )?;
                    },
                    None => {},
                }
            },
        }
        Ok(())
    }

    /// Walks generic arguments: angle-bracketed type arguments and
    /// associated-item constraints, or parenthesized closure-style inputs
    /// and output.
    #[verifier::loop_isolation(false)]
    fn visit_generic_args(
        &self,
        path: &Path,
        args: &crate::graph::GenericArgs,
        acc: &mut Acc,
    ) -> (r: Result<(), Fault>)
        requires
            acc_inv(self.config, *old(acc)),
        ensures
            acc_inv(self.config, *final(acc)),
            acc_evolves(*old(acc), *final(acc)),
            r matches Err(f) ==> f is UnsupportedConstruct,
            ({
                let t = trace_visit_generic_args(*self, path@, *args, acc_state(*old(acc)));
                match r {
                    Ok(_) => t == Ok::<TraceState, TraceFault>(acc_state(*final(acc))),
                    Err(f) => t matches Err(tf) && fault_models(f, tf),
                }
            }),
        decreases *args,
    {
        broadcast use lemma_acc_evolves_trans;

        let ghost pre = *acc;
        match args {
            crate::graph::GenericArgs::AngleBracketed { args: arg_list, constraints } => {
                let mut i: usize = 0;
                while i < arg_list.len()
                    invariant
                        i <= arg_list@.len(),
                        acc_inv(self.config, *acc),
                        acc_evolves(*old(acc), *acc),
                        trace_visit_garg_list(*self, path@, arg_list@, 0, acc_state(*old(acc))) == trace_visit_garg_list(*self, path@, arg_list@, i as int, acc_state(*acc)),
                    decreases arg_list@.len() - i,
                {
                    match &arg_list[i] {
                        crate::graph::GenericArg::Type(t) => {
                            self.visit_type(path, &ErrorLocation::GenericArg, t, acc)?;
                        },
                        crate::graph::GenericArg::Lifetime => {},
                        crate::graph::GenericArg::Const => {},
                        crate::graph::GenericArg::Infer => {},
                    }
                    i += 1;
                }
                let ghost s_mid = acc_state(*acc);
                let mut j: usize = 0;
                while j < constraints.len()
                    invariant
                        j <= constraints@.len(),
                        acc_inv(self.config, *acc),
                        acc_evolves(*old(acc), *acc),
                        trace_visit_garg_list(*self, path@, arg_list@, 0, acc_state(*old(acc))) == Ok::<TraceState, TraceFault>(s_mid),
                        trace_visit_constraint_list(*self, path@, constraints@, 0, s_mid) == trace_visit_constraint_list(*self, path@, constraints@, j as int, acc_state(*acc)),
                    decreases constraints@.len() - j,
                {
                    match &constraints[j].binding {
                        crate::graph::AssocItemConstraintKind::Equality(term) => {
                            match term {
                                crate::graph::Term::Type(t) => {
                                    self.visit_type(
                                        path,
                                        &ErrorLocation::GenericDefaultBinding,
                                        t,
                                        acc,
                                    )?;
                                },
                                crate::graph::Term::Constant => {},
                            }
                        },
                        crate::graph::AssocItemConstraintKind::Constraint(bounds) => {
                            self.visit_generic_bounds(path, bounds, acc)?;
                        },
                    }
                    j += 1;
                }
            },
            crate::graph::GenericArgs::Parenthesized { inputs, output } => {
                let mut i: usize = 0;
                while i < inputs.len()
                    invariant
                        i <= inputs@.len(),
                        acc_inv(self.config, *acc),
                        acc_evolves(*old(acc), *acc),
                        trace_visit_type_list(*self, path@, ErrorLocationV::ClosureInput, inputs@, 0, acc_state(*old(acc))) == trace_visit_type_list(*self, path@, ErrorLocationV::ClosureInput, inputs@, i as int, acc_state(*acc)),
                    decreases inputs@.len() - i,
                {
                    self.visit_type(path, &ErrorLocation::ClosureInput, &inputs[i], acc)?;
                    i += 1;
                }
                match output {
                    Some(t) => {
                        self.visit_type(path, &ErrorLocation::ClosureOutput, t, acc)?;
                    },
                    None => {},
                }
            },
        }
        Ok(())
    }

    /// Walks a list of generic bounds, classifying each trait bound.
    #[verifier::loop_isolation(false)]
    fn visit_generic_bounds(
        &self,
        path: &Path,
        bounds: &Vec<crate::graph::GenericBound>,
        acc: &mut Acc,
    ) -> (r: Result<(), Fault>)
        requires
            acc_inv(self.config, *old(acc)),
        ensures
            acc_inv(self.config, *final(acc)),
            acc_evolves(*old(acc), *final(acc)),
            r matches Err(f) ==> f is UnsupportedConstruct,
            ({
                let t = trace_visit_bound_list(*self, path@, ErrorLocationV::TraitBound, bounds@, 0, acc_state(*old(acc)));
                match r {
                    Ok(_) => t == Ok::<TraceState, TraceFault>(acc_state(*final(acc))),
                    Err(f) => t matches Err(tf) && fault_models(f, tf),
                }
            }),
        decreases *bounds,
    {
        broadcast use lemma_acc_evolves_trans;

        let ghost pre = *acc;
        let mut i: usize = 0;
        while i < bounds.len()
            invariant
                i <= bounds@.len(),
                acc_inv(self.config, *acc),
                acc_evolves(*old(acc), *acc),
                            trace_visit_bound_list(*self, path@, ErrorLocationV::TraitBound, bounds@, 0, acc_state(*old(acc))) == trace_visit_bound_list(*self, path@, ErrorLocationV::TraitBound, bounds@, i as int, acc_state(*acc)),
            decreases bounds@.len() - i,
        {
            match &bounds[i] {
                crate::graph::GenericBound::TraitBound { trait_ref, generic_params } => {
                    self.check_rustdoc_path(path, &ErrorLocation::TraitBound, trait_ref, acc)?;
                    self.visit_generic_param_defs(path, generic_params, acc)?;
                },
                crate::graph::GenericBound::Outlives => {},
                crate::graph::GenericBound::PreciseCapture => {},
            }
            i += 1;
        }
        Ok(())
    }

    /// Walks generic parameter definitions: bounds and defaults of type
    /// parameters, and the types of const generics.
    #[verifier::loop_isolation(false)]
    fn visit_generic_param_defs(
        &self,
        path: &Path,
        params: &Vec<crate::graph::GenericParamDef>,
        acc: &mut Acc,
    ) -> (r: Result<(), Fault>)
        requires
            acc_inv(self.config, *old(acc)),
        ensures
            acc_inv(self.config, *final(acc)),
            acc_evolves(*old(acc), *final(acc)),
            r matches Err(f) ==> f is UnsupportedConstruct,
            ({
                let t = trace_visit_param_defs(*self, path@, params@, 0, acc_state(*old(acc)));
                match r {
                    Ok(_) => t == Ok::<TraceState, TraceFault>(acc_state(*final(acc))),
                    Err(f) => t matches Err(tf) && fault_models(f, tf),
                }
            }),
        decreases *params,
    {
        broadcast use lemma_acc_evolves_trans;

        let ghost pre = *acc;
        let mut i: usize = 0;
        while i < params.len()
            invariant
                i <= params@.len(),
                acc_inv(self.config, *acc),
                acc_evolves(*old(acc), *acc),
                            trace_visit_param_defs(*self, path@, params@, 0, acc_state(*old(acc))) == trace_visit_param_defs(*self, path@, params@, i as int, acc_state(*acc)),
            decreases params@.len() - i,
        {
            match &params[i].kind {
                crate::graph::GenericParamDefKind::Type { bounds, default } => {
                    self.visit_generic_bounds(path, bounds, acc)?;
                    match default {
                        Some(t) => {
                            self.visit_type(
                                path,
                                &ErrorLocation::GenericDefaultBinding,
                                t,
                                acc,
                            )?;
                        },
                        None => {},
                    }
                },
                crate::graph::GenericParamDefKind::Const { ty } => {
                    self.visit_type(path, &ErrorLocation::ConstGeneric, ty, acc)?;
                },
                crate::graph::GenericParamDefKind::Lifetime => {},
            }
            i += 1;
        }
        Ok(())
    }

    /// Walks an item's generics: its parameter definitions and its where
    /// clauses.
    #[verifier::loop_isolation(false)]
    fn visit_generics(
        &self,
        path: &Path,
        generics: &crate::graph::Generics,
        acc: &mut Acc,
    ) -> (r: Result<(), Fault>)
        requires
            acc_inv(self.config, *old(acc)),
        ensures
            acc_inv(self.config, *final(acc)),
            acc_evolves(*old(acc), *final(acc)),
            r matches Err(f) ==> f is UnsupportedConstruct,
            ({
                let t = trace_visit_generics(*self, path@, *generics, acc_state(*old(acc)));
                match r {
                    Ok(_) => t == Ok::<TraceState, TraceFault>(acc_state(*final(acc))),
                    Err(f) => t matches Err(tf) && fault_models(f, tf),
                }
            }),
        decreases *generics,
    {
        broadcast use lemma_acc_evolves_trans;

        let ghost pre = *acc;
        self.visit_generic_param_defs(path, &generics.params, acc)?;
        let ghost s_mid = acc_state(*acc);
        let mut i: usize = 0;
        while i < generics.where_predicates.len()
            invariant
                i <= generics.where_predicates@.len(),
                acc_inv(self.config, *acc),
                acc_evolves(*old(acc), *acc),
                trace_visit_param_defs(*self, path@, generics.params@, 0, acc_state(*old(acc))) == Ok::<TraceState, TraceFault>(s_mid),
                trace_visit_where_list(*self, path@, generics.where_predicates@, 0, s_mid) == trace_visit_where_list(*self, path@, generics.where_predicates@, i as int, acc_state(*acc)),
            decreases generics.where_predicates@.len() - i,
        {
            match &generics.where_predicates[i] {
                crate::graph::WherePredicate::BoundPredicate { bounds, generic_params } => {
                    self.visit_generic_bounds(path, bounds, acc)?;
                    self.visit_generic_param_defs(path, generic_params, acc)?;
                },
                crate::graph::WherePredicate::LifetimePredicate => {},
                crate::graph::WherePredicate::EqPredicate { lhs } => {
                    self.visit_type(path, &ErrorLocation::WhereBound, lhs, acc)?;
                },
            }
            i += 1;
        }
        Ok(())
    }

    /// Walks a function signature: every argument but a leading `self`
    /// receiver, then the return type.
    #[verifier::loop_isolation(false)]
    fn visit_fn_sig(
        &self,
        path: &Path,
        decl: &crate::graph::FunctionSignature,
        acc: &mut Acc,
    ) -> (r: Result<(), Fault>)
        requires
            acc_inv(self.config, *old(acc)),
        ensures
            acc_inv(self.config, *final(acc)),
            acc_evolves(*old(acc), *final(acc)),
            r matches Err(f) ==> f is UnsupportedConstruct,
            ({
                let t = trace_visit_fn_sig(*self, path@, *decl, acc_state(*old(acc)));
                match r {
                    Ok(_) => t == Ok::<TraceState, TraceFault>(acc_state(*final(acc))),
                    Err(f) => t matches Err(tf) && fault_models(f, tf),
                }
            }),
        decreases *decl,
    {
        broadcast use lemma_acc_evolves_trans;

        let ghost pre = *acc;
        let mut i: usize = 0;
        while i < decl.inputs.len()
            invariant
                i <= decl.inputs@.len(),
                acc_inv(self.config, *acc),
                acc_evolves(*old(acc), *acc),
                            trace_visit_input_list(*self, path@, decl.inputs@, 0, acc_state(*old(acc))) == trace_visit_input_list(*self, path@, decl.inputs@, i as int, acc_state(*acc)),
            decreases decl.inputs@.len() - i,
        {
            let skip_receiver = i == 0 && crate::strings::str_eq(
                decl.inputs[0].0.as_str(),
                "self",
            );
            if !skip_receiver {
                let arg_name = decl.inputs[i].0.clone();
                self.visit_type(
                    path,
                    &ErrorLocation::ArgumentNamed(arg_name),
                    &decl.inputs[i].1,
                    acc,
                )?;
            }
            i += 1;
        }
        match &decl.output {
            Some(output) => {
                self.visit_type(path, &ErrorLocation::ReturnValue, output, acc)?;
            },
            None => {},
        }
        Ok(())
    }
}

impl Visitor {
    /// Effective visibility of `item` at `path`, per the promotion rules of
    /// [`spec_is_public`].
    fn is_public(path: &Path, item: &Item) -> (r: bool)
        ensures
            r == spec_is_public(path@, *item),
    {
        match item.visibility {
            Visibility::Public => true,
            Visibility::Default => match (&item.inner, path.last_type()) {
                (crate::graph::ItemEnum::Variant(_), Some(ComponentType::Enum)) => true,
                (crate::graph::ItemEnum::StructField(_), Some(ComponentType::EnumVariant)) => true,
                (crate::graph::ItemEnum::AssocType { .. }, Some(_)) => true,
                (_, Some(ComponentType::Trait)) => true,
                _ => false,
            },
            Visibility::Restricted => false,
        }
    }

    /// Dispatches on one item's kind, extending the traversal path and
    /// recursing into its publicly reachable contents. Default-visibility
    /// items that the promotion rules do not cover are pruned: traversal
    /// neither descends into them nor inspects their contents.
    #[verifier::loop_isolation(false)]
    fn visit_item(
        &self,
        path: &Path,
        item: &Item,
        visibility_check: VisibilityCheck,
        fuel: usize,
        acc: &mut Acc,
    ) -> (r: Result<(), Fault>)
        requires
            acc_inv(self.config, *old(acc)),
        ensures
            acc_inv(self.config, *final(acc)),
            acc_evolves(*old(acc), *final(acc)),
            (visibility_check == VisibilityCheck::Default && !spec_is_public(path@, *item)) ==> (
            *final(acc) == *old(acc) && r is Ok),
            r matches Err(f) ==> !(f is MissingRootModule),
            ({
                let t = trace_visit_item(*self, path@, *item, visibility_check, fuel as nat, acc_state(*old(acc)));
                match r {
                    Ok(_) => t == Ok::<TraceState, TraceFault>(acc_state(*final(acc))),
                    Err(f) => t matches Err(tf) && fault_models(f, tf),
                }
            }),
        decreases fuel,
    {
        broadcast use lemma_acc_evolves_trans;

        if matches!(visibility_check, VisibilityCheck::Default) && !Self::is_public(path, item) {
            return Ok(());
        }
        if fuel == 0 {
            return Err(Fault::DepthLimit);
        }
        let item_name: &str = match &item.name {
            Some(n) => n.as_str(),
            None => "",
        };
        let item_span: Option<&Span> = match &item.span {
            Some(s) => Some(s),
            None => None,
        };
        match &item.inner {
            crate::graph::ItemEnum::AssocConst { ty } => {
                let path2 = path.extended(ComponentType::AssocConst, item_name, item_span);
                self.visit_type(&path2, &ErrorLocation::StructField, ty, acc)?;
            },
            crate::graph::ItemEnum::AssocType { generics, bounds, assigned_ty } => {
                let path2 = path.extended(ComponentType::AssocType, item_name, item_span);
                match assigned_ty {
                    Some(typ) => {
                        self.visit_type(&path2, &ErrorLocation::AssocType, typ, acc)?;
                    },
                    None => {},
                }
                self.visit_generic_bounds(&path2, bounds, acc)?;
                self.visit_generics(&path2, generics, acc)?;
            },
            crate::graph::ItemEnum::Constant { ty } => {
                let path2 = path.extended(ComponentType::Constant, item_name, item_span);
                self.visit_type(&path2, &ErrorLocation::Constant, ty, acc)?;
            },
            crate::graph::ItemEnum::Enum(enm) => {
                let path2 = path.extended(ComponentType::Enum, item_name, item_span);
                self.visit_generics(&path2, &enm.generics, acc)?;
                self.visit_impls(&path2, &enm.impls, fuel - 1, acc)?;
                let ghost s_mid = acc_state(*acc);
                let mut i: usize = 0;
                while i < enm.variants.len()
                    invariant
                        i <= enm.variants@.len(),
                        acc_inv(self.config, *acc),
                        acc_evolves(*old(acc), *acc),
                        trace_visit_members(*self, path2@, enm.variants@, 0, fuel as nat, s_mid) == trace_visit_members(*self, path2@, enm.variants@, i as int, fuel as nat, acc_state(*acc)),
                    decreases enm.variants@.len() - i,
                {
                    match crate::graph::find_item(&self.index, enm.variants[i]) {
                        Some(variant_item) => {
                            self.visit_item(
                                &path2,
                                variant_item,
                                VisibilityCheck::Default,
                                fuel - 1,
                                acc,
                            )?;
                        },
                        None => {
                            return Err(Fault::MissingItem(enm.variants[i]));
                        },
                    }
                    i += 1;
                }
            },
            crate::graph::ItemEnum::ForeignType => {
                return Err(
                    Fault::UnsupportedConstruct(
                        String::from_str("foreign opaque type items are unstable and unsupported"),
                    ),
                );
            },
            crate::graph::ItemEnum::Function(function) => {
                let path2 = path.extended(ComponentType::Function, item_name, item_span);
                self.visit_fn_sig(&path2, &function.sig, acc)?;
                self.visit_generics(&path2, &function.generics, acc)?;
            },
            crate::graph::ItemEnum::ReExport(use_) => {
                let path2 = path.extended(ComponentType::ReExport, use_.name.as_str(), item_span);
                match &use_.id {
                    Some(target_id) => {
                        match crate::graph::find_item(&self.index, *target_id) {
                            Some(target_item) => {
                                // The target is indexed: when it belongs to
                                // the root library, examine it as public (it
                                // is public by virtue of the re-export).
                                if self.in_root_crate(*target_id) {
                                    self.visit_item(
                                        &path2,
                                        target_item,
                                        VisibilityCheck::AssumePublic,
                                        fuel - 1,
                                        acc,
                                    )?;
                                }
                            },
                            None => {
                                // Not in the index: an external type. When
                                // the path table can name it, classify it;
                                // otherwise it comes from a hidden module.
                                match self.fq_name_of(*target_id) {
                                    Some(fq_name) => {
                                        self.check_allow_type(
                                            &path2,
                                            &ErrorLocation::ReExport,
                                            fq_name,
                                            acc,
                                        );
                                    },
                                    None => {
                                        let first_hidden =
                                            infer_first_hidden_module_in_import_source(
                                            use_.source.as_str(),
                                            &self.index,
                                        );
                                        let e = ValidationError::hidden_module(
                                            use_.name.clone(),
                                            &ErrorLocation::ReExport,
                                            path2.render(),
                                            path2.last_span(),
                                            first_hidden,
                                        );
                                        proof {
                                            crate::error::lemma_sorted_insert_props(
                                                acc.errors@,
                                                e@,
                                            );
                                        }
                                        acc.errors.add(e);
                                    },
                                }
                            },
                        }
                    },
                    None => {},
                }
            },
            crate::graph::ItemEnum::Module(module) => {
                if !module.is_crate {
                    let path2 = path.extended(ComponentType::Module, item_name, item_span);
                    self.visit_module_items(&path2, &module.items, fuel - 1, acc)?;
                } else {
                    self.visit_module_items(path, &module.items, fuel - 1, acc)?;
                }
            },
            crate::graph::ItemEnum::Static { ty } => {
                let path2 = path.extended(ComponentType::Static, item_name, item_span);
                self.visit_type(&path2, &ErrorLocation::Static, ty, acc)?;
            },
            crate::graph::ItemEnum::Struct(strct) => {
                let path2 = path.extended(ComponentType::Struct, item_name, item_span);
                self.visit_struct(&path2, strct, fuel - 1, acc)?;
            },
            crate::graph::ItemEnum::StructField(typ) => {
                let path2 = path.extended(ComponentType::StructField, item_name, item_span);
                self.visit_type(&path2, &ErrorLocation::StructField, typ, acc)?;
            },
            crate::graph::ItemEnum::Trait(trt) => {
                let path2 = path.extended(ComponentType::Trait, item_name, item_span);
                self.visit_trait(&path2, trt, fuel - 1, acc)?;
            },
            crate::graph::ItemEnum::TypeAlias(alias) => {
                let path2 = path.extended(ComponentType::TypeAlias, item_name, item_span);
                self.visit_type(&path2, &ErrorLocation::TypeAlias, &alias.ty, acc)?;
                self.visit_generics(&path2, &alias.generics, acc)?;
            },
            crate::graph::ItemEnum::TraitAlias => {
                return Err(
                    Fault::UnsupportedConstruct(
                        String::from_str("trait aliases are unstable and unsupported"),
                    ),
                );
            },
            crate::graph::ItemEnum::Union(unn) => {
                let path2 = path.extended(ComponentType::Union, item_name, item_span);
                self.visit_union(&path2, unn, fuel - 1, acc)?;
            },
            crate::graph::ItemEnum::Variant(variant) => {
                let path2 = path.extended(ComponentType::EnumVariant, item_name, item_span);
                self.visit_variant(&path2, variant, fuel - 1, acc)?;
            },
            crate::graph::ItemEnum::Impl(_) => {},
            crate::graph::ItemEnum::Other => {},
        }
        Ok(())
    }

    /// Visits the items listed by a module. Items owned by other crates are
    /// skipped: re-exports show up in the graph twice, once as the re-export
    /// item (with the right span) and once as a shadow copy of the target,
    /// and following the shadow copy would duplicate the traversal.
    #[verifier::loop_isolation(false)]
    fn visit_module_items(
        &self,
        path: &Path,
        items: &Vec<u32>,
        fuel: usize,
        acc: &mut Acc,
    ) -> (r: Result<(), Fault>)
        requires
            acc_inv(self.config, *old(acc)),
        ensures
            acc_inv(self.config, *final(acc)),
            acc_evolves(*old(acc), *final(acc)),
            r matches Err(f) ==> !(f is MissingRootModule),
            ({
                let t = trace_visit_module_items(*self, path@, items@, fuel as nat, acc_state(*old(acc)));
                match r {
                    Ok(_) => t == Ok::<TraceState, TraceFault>(acc_state(*final(acc))),
                    Err(f) => t matches Err(tf) && fault_models(f, tf),
                }
            }),
        decreases fuel,
    {
        broadcast use lemma_acc_evolves_trans;

        if fuel == 0 {
            return Err(Fault::DepthLimit);
        }
        let mut i: usize = 0;
        while i < items.len()
            invariant
                i <= items@.len(),
                acc_inv(self.config, *acc),
                acc_evolves(*old(acc), *acc),
                trace_visit_module_list(*self, path@, items@, 0, fuel as nat, acc_state(*old(acc))) == trace_visit_module_list(*self, path@, items@, i as int, fuel as nat, acc_state(*acc)),
            decreases items@.len() - i,
        {
            match crate::graph::find_item(&self.index, items[i]) {
                Some(module_item) => {
                    if module_item.crate_id == self.root_crate_id {
                        self.visit_item(path, module_item, VisibilityCheck::Default, fuel - 1, acc)?;
                    }
                },
                None => {
                    return Err(Fault::MissingItem(items[i]));
                },
            }
            i += 1;
        }
        Ok(())
    }

    /// Visits the implementation blocks attached to a type.
    #[verifier::loop_isolation(false)]
    fn visit_impls(&self, path: &Path, impl_ids: &Vec<u32>, fuel: usize, acc: &mut Acc) -> (r:
        Result<(), Fault>)
        requires
            acc_inv(self.config, *old(acc)),
        ensures
            acc_inv(self.config, *final(acc)),
            acc_evolves(*old(acc), *final(acc)),
            r matches Err(f) ==> !(f is MissingRootModule),
            ({
                let t = trace_visit_impls(*self, path@, impl_ids@, fuel as nat, acc_state(*old(acc)));
                match r {
                    Ok(_) => t == Ok::<TraceState, TraceFault>(acc_state(*final(acc))),
                    Err(f) => t matches Err(tf) && fault_models(f, tf),
                }
            }),
        decreases fuel,
    {
        broadcast use lemma_acc_evolves_trans;

        if fuel == 0 {
            return Err(Fault::DepthLimit);
        }
        let mut i: usize = 0;
        while i < impl_ids.len()
            invariant
                i <= impl_ids@.len(),
                acc_inv(self.config, *acc),
                acc_evolves(*old(acc), *acc),
                trace_visit_impls_list(*self, path@, impl_ids@, 0, fuel as nat, acc_state(*old(acc))) == trace_visit_impls_list(*self, path@, impl_ids@, i as int, fuel as nat, acc_state(*acc)),
            decreases impl_ids@.len() - i,
        {
            match crate::graph::find_item(&self.index, impl_ids[i]) {
                Some(impl_item) => {
                    let span: Option<&Span> = match &impl_item.span {
                        Some(s) => Some(s),
                        None => path.last_span(),
                    };
                    let impl_path = path.extended(ComponentType::Impl, "", span);
                    self.visit_impl(&impl_path, impl_item, fuel - 1, acc)?;
                },
                None => {
                    return Err(Fault::MissingItem(impl_ids[i]));
                },
            }
            i += 1;
        }
        Ok(())
    }

    /// Visits a struct: its generics, its fields (raising a warning when the
    /// graph says some were stripped as doc-hidden), and its impls.
    #[verifier::loop_isolation(false)]
    fn visit_struct(
        &self,
        path: &Path,
        strct: &crate::graph::Struct,
        fuel: usize,
        acc: &mut Acc,
    ) -> (r: Result<(), Fault>)
        requires
            acc_inv(self.config, *old(acc)),
        ensures
            acc_inv(self.config, *final(acc)),
            acc_evolves(*old(acc), *final(acc)),
            r matches Err(f) ==> !(f is MissingRootModule),
            ({
                let t = trace_visit_struct(*self, path@, *strct, fuel as nat, acc_state(*old(acc)));
                match r {
                    Ok(_) => t == Ok::<TraceState, TraceFault>(acc_state(*final(acc))),
                    Err(f) => t matches Err(tf) && fault_models(f, tf),
                }
            }),
        decreases fuel,
    {
        broadcast use lemma_acc_evolves_trans;

        if fuel == 0 {
            return Err(Fault::DepthLimit);
        }
        self.visit_generics(path, &strct.generics, acc)?;
        match &strct.kind {
            crate::graph::StructKind::Unit => {},
            crate::graph::StructKind::Tuple(members) => {
                let ghost s_mid = acc_state(*acc);
                let mut i: usize = 0;
                while i < members.len()
                    invariant
                        i <= members@.len(),
                        acc_inv(self.config, *acc),
                        acc_evolves(*old(acc), *acc),
                        trace_visit_opt_members(*self, path@, members@, 0, fuel as nat, s_mid) == trace_visit_opt_members(*self, path@, members@, i as int, fuel as nat, acc_state(*acc)),
                    decreases members@.len() - i,
                {
                    match &members[i] {
                        Some(id) => {
                            match crate::graph::find_item(&self.index, *id) {
                                Some(field) => {
                                    self.visit_item(
                                        path,
                                        field,
                                        VisibilityCheck::Default,
                                        fuel - 1,
                                        acc,
                                    )?;
                                },
                                None => {
                                    return Err(Fault::MissingItem(*id));
                                },
                            }
                        },
                        None => {},
                    }
                    i += 1;
                }
            },
            crate::graph::StructKind::Plain { fields, has_stripped_fields } => {
                if *has_stripped_fields {
                    let e = ValidationError::fields_stripped(path);
                    proof {
                        crate::error::lemma_sorted_insert_props(acc.errors@, e@);
                    }
                    acc.errors.add(e);
                }
                let ghost s_mid = acc_state(*acc);
                let mut i: usize = 0;
                while i < fields.len()
                    invariant
                        i <= fields@.len(),
                        acc_inv(self.config, *acc),
                        acc_evolves(*old(acc), *acc),
                        trace_visit_members(*self, path@, fields@, 0, fuel as nat, s_mid) == trace_visit_members(*self, path@, fields@, i as int, fuel as nat, acc_state(*acc)),
                    decreases fields@.len() - i,
                {
                    match crate::graph::find_item(&self.index, fields[i]) {
                        Some(field) => {
                            self.visit_item(path, field, VisibilityCheck::Default, fuel - 1, acc)?;
                        },
                        None => {
                            return Err(Fault::MissingItem(fields[i]));
                        },
                    }
                    i += 1;
                }
            },
        }
        self.visit_impls(path, &strct.impls, fuel - 1, acc)?;
        Ok(())
    }

    /// Visits a union: its generics, fields and impls, mirroring structs.
    #[verifier::loop_isolation(false)]
    fn visit_union(
        &self,
        path: &Path,
        unn: &crate::graph::Union,
        fuel: usize,
        acc: &mut Acc,
    ) -> (r: Result<(), Fault>)
        requires
            acc_inv(self.config, *old(acc)),
        ensures
            acc_inv(self.config, *final(acc)),
            acc_evolves(*old(acc), *final(acc)),
            r matches Err(f) ==> !(f is MissingRootModule),
            ({
                let t = trace_visit_union(*self, path@, *unn, fuel as nat, acc_state(*old(acc)));
                match r {
                    Ok(_) => t == Ok::<TraceState, TraceFault>(acc_state(*final(acc))),
                    Err(f) => t matches Err(tf) && fault_models(f, tf),
                }
            }),
        decreases fuel,
    {
        broadcast use lemma_acc_evolves_trans;

        if fuel == 0 {
            return Err(Fault::DepthLimit);
        }
        self.visit_generics(path, &unn.generics, acc)?;
        let ghost s_mid = acc_state(*acc);
        let mut i: usize = 0;
        while i < unn.fields.len()
            invariant
                i <= unn.fields@.len(),
                acc_inv(self.config, *acc),
                acc_evolves(*old(acc), *acc),
                trace_visit_members(*self, path@, unn.fields@, 0, fuel as nat, s_mid) == trace_visit_members(*self, path@, unn.fields@, i as int, fuel as nat, acc_state(*acc)),
            decreases unn.fields@.len() - i,
        {
            match crate::graph::find_item(&self.index, unn.fields[i]) {
                Some(field) => {
                    self.visit_item(path, field, VisibilityCheck::Default, fuel - 1, acc)?;
                },
                None => {
                    return Err(Fault::MissingItem(unn.fields[i]));
                },
            }
            i += 1;
        }
        self.visit_impls(path, &unn.impls, fuel - 1, acc)?;
        Ok(())
    }

    /// Visits a trait definition: its generics, its bounds, and its items,
    /// which are public exactly when the trait is.
    #[verifier::loop_isolation(false)]
    fn visit_trait(
        &self,
        path: &Path,
        trt: &crate::graph::Trait,
        fuel: usize,
        acc: &mut Acc,
    ) -> (r: Result<(), Fault>)
        requires
            acc_inv(self.config, *old(acc)),
        ensures
            acc_inv(self.config, *final(acc)),
            acc_evolves(*old(acc), *final(acc)),
            r matches Err(f) ==> !(f is MissingRootModule),
            ({
                let t = trace_visit_trait(*self, path@, *trt, fuel as nat, acc_state(*old(acc)));
                match r {
                    Ok(_) => t == Ok::<TraceState, TraceFault>(acc_state(*final(acc))),
                    Err(f) => t matches Err(tf) && fault_models(f, tf),
                }
            }),
        decreases fuel,
    {
        broadcast use lemma_acc_evolves_trans;

        if fuel == 0 {
            return Err(Fault::DepthLimit);
        }
        self.visit_generics(path, &trt.generics, acc)?;
        self.visit_generic_bounds(path, &trt.bounds, acc)?;
        let ghost s_mid = acc_state(*acc);
        let mut i: usize = 0;
        while i < trt.items.len()
            invariant
                i <= trt.items@.len(),
                acc_inv(self.config, *acc),
                acc_evolves(*old(acc), *acc),
                trace_visit_members(*self, path@, trt.items@, 0, fuel as nat, s_mid) == trace_visit_members(*self, path@, trt.items@, i as int, fuel as nat, acc_state(*acc)),
            decreases trt.items@.len() - i,
        {
            match crate::graph::find_item(&self.index, trt.items[i]) {
                Some(trait_item) => {
                    self.visit_item(path, trait_item, VisibilityCheck::Default, fuel - 1, acc)?;
                },
                None => {
                    return Err(Fault::MissingItem(trt.items[i]));
                },
            }
            i += 1;
        }
        Ok(())
    }

    /// Visits an implementation block: blanket impls and impls of non-public
    /// traits are skipped entirely; otherwise the implemented-trait reference,
    /// the generics and the contained items are examined.
    #[verifier::loop_isolation(false)]
    fn visit_impl(&self, path: &Path, item: &Item, fuel: usize, acc: &mut Acc) -> (r: Result<
        (),
        Fault,
    >)
        requires
            acc_inv(self.config, *old(acc)),
        ensures
            acc_inv(self.config, *final(acc)),
            acc_evolves(*old(acc), *final(acc)),
            r matches Err(f) ==> !(f is MissingRootModule),
            ({
                let t = trace_visit_impl(*self, path@, *item, fuel as nat, acc_state(*old(acc)));
                match r {
                    Ok(_) => t == Ok::<TraceState, TraceFault>(acc_state(*final(acc))),
                    Err(f) => t matches Err(tf) && fault_models(f, tf),
                }
            }),
        decreases fuel,
    {
        broadcast use lemma_acc_evolves_trans;

        if fuel == 0 {
            return Err(Fault::DepthLimit);
        }
        match &item.inner {
            crate::graph::ItemEnum::Impl(imp) => {
                if imp.is_blanket {
                    return Ok(());
                }
                match &imp.trait_ref {
                    Some(trait_) => {
                        match crate::graph::find_item(&self.index, trait_.id) {
                            Some(trait_item) => {
                                if !Self::is_public(path, trait_item) {
                                    return Ok(());
                                }
                                // The trait reference may carry generic args,
                                // but they belong to the trait itself: if the
                                // trait is part of the root library it is
                                // visited on its own, and if it is external,
                                // what it references does not matter here.
                            },
                            None => {},
                        }
                        self.check_rustdoc_path(
                            path,
                            &ErrorLocation::ImplementedTrait,
                            trait_,
                            acc,
                        )?;
                    },
                    None => {},
                }
                self.visit_generics(path, &imp.generics, acc)?;
                let ghost s_mid = acc_state(*acc);
                let mut i: usize = 0;
                while i < imp.items.len()
                    invariant
                        i <= imp.items@.len(),
                        acc_inv(self.config, *acc),
                        acc_evolves(*old(acc), *acc),
                        trace_visit_members(*self, path@, imp.items@, 0, fuel as nat, s_mid) == trace_visit_members(*self, path@, imp.items@, i as int, fuel as nat, acc_state(*acc)),
                    decreases imp.items@.len() - i,
                {
                    match crate::graph::find_item(&self.index, imp.items[i]) {
                        Some(impl_member) => {
                            self.visit_item(
                                path,
                                impl_member,
                                VisibilityCheck::Default,
                                fuel - 1,
                                acc,
                            )?;
                        },
                        None => {
                            return Err(Fault::MissingItem(imp.items[i]));
                        },
                    }
                    i += 1;
                }
                Ok(())
            },
            _ => Err(
                Fault::InternalInvariant(
                    String::from_str("an implementation block was expected here"),
                ),
            ),
        }
    }

    /// Visits an enum variant: plain variants carry nothing, tuple and
    /// struct variants carry fields to examine.
    #[verifier::loop_isolation(false)]
    fn visit_variant(
        &self,
        path: &Path,
        variant: &crate::graph::Variant,
        fuel: usize,
        acc: &mut Acc,
    ) -> (r: Result<(), Fault>)
        requires
            acc_inv(self.config, *old(acc)),
        ensures
            acc_inv(self.config, *final(acc)),
            acc_evolves(*old(acc), *final(acc)),
            r matches Err(f) ==> !(f is MissingRootModule),
            ({
                let t = trace_visit_variant(*self, path@, *variant, fuel as nat, acc_state(*old(acc)));
                match r {
                    Ok(_) => t == Ok::<TraceState, TraceFault>(acc_state(*final(acc))),
                    Err(f) => t matches Err(tf) && fault_models(f, tf),
                }
            }),
        decreases fuel,
    {
        broadcast use lemma_acc_evolves_trans;

        if fuel == 0 {
            return Err(Fault::DepthLimit);
        }
        match &variant.kind {
            crate::graph::VariantKind::Plain => {},
            crate::graph::VariantKind::Tuple(entries) => {
                let mut i: usize = 0;
                while i < entries.len()
                    invariant
                        i <= entries@.len(),
                        acc_inv(self.config, *acc),
                        acc_evolves(*old(acc), *acc),
                        trace_visit_opt_members(*self, path@, entries@, 0, fuel as nat, acc_state(*old(acc))) == trace_visit_opt_members(*self, path@, entries@, i as int, fuel as nat, acc_state(*acc)),
                    decreases entries@.len() - i,
                {
                    match &entries[i] {
                        Some(entry_id) => {
                            // The identifier names the tuple entry itself,
                            // not the referenced type; the entry item is
                            // visited to probe the actual type out of it.
                            match crate::graph::find_item(&self.index, *entry_id) {
                                Some(tuple_entry_item) => {
                                    self.visit_item(
                                        path,
                                        tuple_entry_item,
                                        VisibilityCheck::Default,
                                        fuel - 1,
                                        acc,
                                    )?;
                                },
                                None => {
                                    return Err(Fault::MissingItem(*entry_id));
                                },
                            }
                        },
                        None => {},
                    }
                    i += 1;
                }
            },
            crate::graph::VariantKind::Struct { fields, has_stripped_fields } => {
                if *has_stripped_fields {
                    return Err(
                        Fault::InternalInvariant(
                            String::from_str(
                                "the generator documents private items, so variant fields are never stripped",
                            ),
                        ),
                    );
                }
                let mut i: usize = 0;
                while i < fields.len()
                    invariant
                        i <= fields@.len(),
                        acc_inv(self.config, *acc),
                        acc_evolves(*old(acc), *acc),
                        trace_visit_members(*self, path@, fields@, 0, fuel as nat, acc_state(*old(acc))) == trace_visit_members(*self, path@, fields@, i as int, fuel as nat, acc_state(*acc)),
                    decreases fields@.len() - i,
                {
                    match crate::graph::find_item(&self.index, fields[i]) {
                        Some(field) => {
                            self.visit_item(path, field, VisibilityCheck::Default, fuel - 1, acc)?;
                        },
                        None => {
                            return Err(Fault::MissingItem(fields[i]));
                        },
                    }
                    i += 1;
                }
            },
        }
        Ok(())
    }
}

/// Appends one unused-approval warning per leftover pattern: every leftover
/// pattern whose sort key is still free gains exactly one finding; findings
/// already collected are all kept; nothing else is added. A leftover pattern
/// whose key collides with an existing finding is silently dropped by the
/// identity-by-key deduplication.
#[verifier::loop_isolation(false)]
fn flush_unused(unused: &UnusedPatterns, errors: &mut ValidationErrors)
    requires
        old(errors).wf(),
        unused.wf(),
    ensures
        final(errors).wf(),
        forall|p: Seq<char>|
            unused@.contains(p) && !crate::error::has_key(old(errors)@, p)
                ==> final(errors)@.contains(#[trigger] finding_unused(p)),
        forall|p: Seq<char>| #[trigger]
            unused@.contains(p) ==> crate::error::has_key(final(errors)@, p),
        forall|x: ValidationErrorV| #[trigger]
            final(errors)@.contains(x) ==> old(errors)@.contains(x) || (x
                is UnusedApprovalPattern && unused@.contains(crate::error::spec_fq_name(x))
                && !crate::error::has_key(old(errors)@, crate::error::spec_fq_name(x))),
        forall|x: ValidationErrorV| #[trigger]
            old(errors)@.contains(x) ==> final(errors)@.contains(x),
{
    let ghost orig = errors@;
    let mut i: usize = 0;
    while i < unused.patterns.len()
        invariant
            errors.wf(),
            i <= unused@.len(),
            unused@.len() == unused.patterns@.len(),
            forall|p: Seq<char>|
                unused@.take(i as int).contains(p) && !crate::error::has_key(orig, p)
                    ==> errors@.contains(#[trigger] finding_unused(p)),
            forall|p: Seq<char>| #[trigger]
                unused@.take(i as int).contains(p) ==> crate::error::has_key(errors@, p),
            forall|x: ValidationErrorV| #[trigger]
                errors@.contains(x) ==> orig.contains(x) || (x is UnusedApprovalPattern
                    && unused@.take(i as int).contains(crate::error::spec_fq_name(x))
                    && !crate::error::has_key(orig, crate::error::spec_fq_name(x))),
            forall|x: ValidationErrorV| #[trigger] orig.contains(x) ==> errors@.contains(x),
            forall|k: Seq<char>| #[trigger]
                crate::error::has_key(errors@, k) ==> crate::error::has_key(orig, k)
                    || unused@.take(i as int).contains(k),
        decreases unused.patterns@.len() - i,
    {
        let ghost p = unused@[i as int];
        let ghost before = errors@;
        proof {
            assert(unused@[i as int] == unused.patterns@[i as int]@);
        }
        let e = ValidationError::unused_approval_pattern(unused.patterns[i].clone());
        proof {
            assert(e@ == finding_unused(p));
            assert(spec_sort_key(e@) == p);
            crate::error::lemma_sorted_insert_props(before, e@);
            crate::error::lemma_has_key_contains(before, p);
            crate::error::lemma_has_key_contains(orig, p);
        }
        errors.add(e);
        proof {
            let cur = errors@;
            assert(unused@.take(i + 1) =~~= unused@.take(i as int).push(p));
            // Key collision within the loop's own additions would need the
            // same pattern twice, which `unused.wf()` rules out.
            if crate::error::has_key_of(before, e@) {
                assert(before == cur);
                assert(crate::error::has_key(before, p)) by {
                    let j = choose|j: int|
                        0 <= j < before.len() && spec_sort_key(#[trigger] before[j])
                            == spec_sort_key(e@);
                }
                if !crate::error::has_key(orig, p) {
                    let x = choose|x: ValidationErrorV| #[trigger]
                        before.contains(x) && spec_sort_key(x) == p;
                    assert(x is UnusedApprovalPattern && unused@.take(i as int).contains(
                        crate::error::spec_fq_name(x),
                    ));
                    assert(crate::error::spec_fq_name(x) == p);
                    let m = choose|m: int|
                        0 <= m < i && (#[trigger] unused@.take(i as int)[m]) == p;
                    assert(unused@[m] == p && unused@[i as int] == p);
                    assert(false);
                }
            } else {
                assert(cur.contains(e@));
            }
            assert forall|q: Seq<char>|
                unused@.take(i + 1).contains(q) && !crate::error::has_key(orig, q) implies (
            cur.contains(#[trigger] finding_unused(q))) by {
                let m = choose|m: int|
                    0 <= m < i + 1 && (#[trigger] unused@.take(i + 1)[m]) == q;
                if m < i {
                    assert(unused@.take(i as int)[m] == q);
                    assert(unused@.take(i as int).contains(q));
                    assert(before.contains(finding_unused(q)));
                } else {
                    assert(q == p);
                }
            }
            assert forall|q: Seq<char>| #[trigger]
                unused@.take(i + 1).contains(q) implies crate::error::has_key(cur, q) by {
                let m = choose|m: int|
                    0 <= m < i + 1 && (#[trigger] unused@.take(i + 1)[m]) == q;
                if m < i {
                    assert(unused@.take(i as int)[m] == q);
                    assert(unused@.take(i as int).contains(q));
                    assert(crate::error::has_key(before, q));
                    crate::error::lemma_has_key_contains(before, q);
                    let x = choose|x: ValidationErrorV| #[trigger]
                        before.contains(x) && spec_sort_key(x) == q;
                    assert(cur.contains(x));
                    crate::error::lemma_has_key_contains(cur, q);
                } else {
                    assert(q == p);
                    if crate::error::has_key_of(before, e@) {
                        crate::error::lemma_has_key_contains(cur, q);
                    } else {
                        assert(cur.contains(e@));
                        crate::error::lemma_has_key_contains(cur, q);
                    }
                }
            }
            assert forall|x: ValidationErrorV| #[trigger]
                cur.contains(x) implies orig.contains(x) || (x is UnusedApprovalPattern
                && unused@.take(i + 1).contains(crate::error::spec_fq_name(x))) by {
                if before.contains(x) {
                    if !orig.contains(x) {
                        assert(unused@.take(i as int).contains(crate::error::spec_fq_name(x)));
                        let m = choose|m: int|
                            0 <= m < i && (#[trigger] unused@.take(i as int)[m])
                                == crate::error::spec_fq_name(x);
                        assert(unused@.take(i + 1)[m] == crate::error::spec_fq_name(x));
                    }
                } else {
                    assert(x == e@);
                    assert(unused@.take(i + 1)[i as int] == p);
                }
            }
            assert forall|k: Seq<char>| #[trigger]
                crate::error::has_key(cur, k) implies crate::error::has_key(orig, k)
                || unused@.take(i + 1).contains(k) by {
                crate::error::lemma_has_key_contains(cur, k);
                let x = choose|x: ValidationErrorV| #[trigger]
                    cur.contains(x) && spec_sort_key(x) == k;
                if before.contains(x) {
                    crate::error::lemma_has_key_contains(before, k);
                    assert(crate::error::has_key(before, k));
                    if !crate::error::has_key(orig, k) {
                        assert(unused@.take(i as int).contains(k));
                        let m = choose|m: int|
                            0 <= m < i && (#[trigger] unused@.take(i as int)[m]) == k;
                        assert(unused@.take(i + 1)[m] == k);
                    }
                } else {
                    assert(x == e@);
                    assert(k == p);
                    assert(unused@.take(i + 1)[i as int] == k);
                }
            }
        }
        i += 1;
    }
    proof {
        assert(unused@.take(unused@.len() as int) =~~= unused@);
    }
}

/// What a completed run guarantees about unused-approval warnings, relative
/// to the set of names that were checked against the allow-list: every
/// unused-approval finding names a configured pattern that matched none of
/// the checked names, and every configured pattern that matched none of them
/// is represented under its key — as an unused-approval finding, unless an
/// unrelated finding already took that key (the identity-by-key collapse).
pub open spec fn visit_all_post(
    cfg: Config,
    errors: Seq<ValidationErrorV>,
    checked: Set<Seq<char>>,
) -> bool {
    let patterns = cfg.allowed_external_types.deep_view();
    &&& forall|p: Seq<char>|
        errors.contains(#[trigger] finding_unused(p)) ==> pattern_unmatched(patterns, checked, p)
    &&& forall|p: Seq<char>| #[trigger]
        pattern_unmatched(patterns, checked, p) ==> (errors.contains(finding_unused(p)) || (
        exists|x: ValidationErrorV| #[trigger]
            errors.contains(x) && spec_sort_key(x) == p && !(x is UnusedApprovalPattern)))
}

/// Whether an item is the crate-root module.
pub open spec fn is_crate_module(item: Item) -> bool {
    match item.inner {
        crate::graph::ItemEnum::Module(m) => m.is_crate,
        _ => false,
    }
}

/// The position of the first crate-root module at or after `i`.
pub open spec fn first_crate_module(index: Seq<Item>, i: int) -> Option<int>
    decreases index.len() - i,
{
    if i < 0 || i >= index.len() {
        None
    } else if is_crate_module(index[i]) {
        Some(i)
    } else {
        first_crate_module(index, i + 1)
    }
}

/// The defensive recursion budget for a graph of `n` items.
pub open spec fn trace_fuel(n: nat) -> nat {
    if n <= ((usize::MAX - 4) / 4) as nat {
        4 * n + 4
    } else {
        usize::MAX as nat
    }
}

/// The ids a module item lists.
pub open spec fn module_item_ids(item: Item) -> Seq<u32> {
    match item.inner {
        crate::graph::ItemEnum::Module(m) => m.items@,
        _ => Seq::empty(),
    }
}

/// The root traversal path: one component naming the library.
pub open spec fn root_trace_path(v: Visitor) -> Seq<PathComponentV> {
    seq![path_component(ComponentType::Crate, v.root_crate_name@, None)]
}

/// Reference semantics of the whole traversal, given the position of the
/// crate-root module: walk its listing from an empty state with the
/// defensive fuel budget.
pub open spec fn trace_traversal(v: Visitor, ri: int) -> Result<TraceState, TraceFault> {
    trace_visit_module_items(
        v,
        root_trace_path(v),
        module_item_ids(v.index@[ri]),
        trace_fuel(v.index@.len()),
        TraceState { errors: Seq::empty(), checked: Set::empty() },
    )
}

/// What flushing the unused patterns into the traversal's findings yields:
/// a strictly key-ordered set holding exactly the traversal's findings plus
/// one unused-approval warning per configured pattern that matched no
/// checked name — unless a traversal finding already took that key (the
/// identity-by-key collapse).
pub open spec fn flush_post(cfg: Config, ts: TraceState, out: Seq<ValidationErrorV>) -> bool {
    &&& crate::error::sorted_distinct(out)
    &&& forall|x: ValidationErrorV| #[trigger]
        out.contains(x) <==> (ts.errors.contains(x) || (x is UnusedApprovalPattern
            && pattern_unmatched(
            cfg.allowed_external_types.deep_view(),
            ts.checked,
            crate::error::spec_fq_name(x),
        ) && !crate::error::has_key(ts.errors, crate::error::spec_fq_name(x))))
}

/// The full contract of `visit_all`: without a crate-root module the run
/// fails saying so; otherwise a successful run hands back exactly the
/// flushed result of the reference traversal, and a failing run reports a
/// fault of the kind the reference traversal raises.
pub open spec fn visit_all_trace_ensures(v: Visitor, r: Result<ValidationErrors, Fault>) -> bool {
    match first_crate_module(v.index@, 0) {
        None => r == Err::<ValidationErrors, Fault>(Fault::MissingRootModule),
        Some(ri) => match r {
            Ok(errors) => trace_traversal(v, ri) matches Ok(ts) && flush_post(
                v.config,
                ts,
                errors@,
            ),
            Err(f) => trace_traversal(v, ri) matches Err(tf) && fault_models(f, tf),
        },
    }
}

/// What `visit_all` ensures of its result: a successful run hands back a
/// strictly key-ordered finding set satisfying [`visit_all_post`] for some
/// set of checked names.
pub open spec fn visit_all_ensures(cfg: Config, r: Result<ValidationErrors, Fault>) -> bool {
    match r {
        Ok(errors) => errors.wf() && (exists|checked: Set<Seq<char>>| #[trigger]
            visit_all_post(cfg, errors@, checked)),
        Err(_) => true,
    }
}

/// The traversal state the contracts speak of: the findings collected so far
/// and the set of names checked against the allow-list so far. (The
/// unused-pattern set is determined by `checked` through `acc_inv`.)
pub ghost struct TraceState {
    pub errors: Seq<ValidationErrorV>,
    pub checked: Set<Seq<char>>,
}

/// The traversal state an accumulator holds.
pub open spec fn acc_state(acc: Acc) -> TraceState {
    TraceState { errors: acc.errors@, checked: acc.checked@ }
}

/// The abstract kind of a fault raised during traversal.
pub ghost enum TraceFault {
    /// A pattern type, inferred type, trait alias or foreign type was met.
    Unsupported,
    /// The listed identifier is absent from the index.
    Missing(u32),
    /// The defensive recursion limit ran out.
    Depth,
    /// An internal invariant of the graph was violated.
    Invariant,
}

/// Whether the executable fault renders the abstract fault kind.
pub open spec fn fault_models(f: Fault, t: TraceFault) -> bool {
    match f {
        Fault::UnsupportedConstruct(_) => t is Unsupported,
        Fault::MissingItem(id) => t == TraceFault::Missing(id),
        Fault::DepthLimit => t is Depth,
        Fault::InternalInvariant(_) => t is Invariant,
        Fault::MissingRoot => false,
        Fault::MissingRootModule => false,
        Fault::RootUnnamed => false,
    }
}

/// One traversal path component.
pub open spec fn path_component(
    kind: ComponentType,
    name: Seq<char>,
    span: Option<SpanV>,
) -> PathComponentV {
    PathComponentV { kind, name, span }
}

/// The hidden-module finding raised at `path`.
pub open spec fn finding_hidden_module(
    fq_name: Seq<char>,
    what: ErrorLocationV,
    path: Seq<PathComponentV>,
    hidden_module: Option<Seq<char>>,
) -> ValidationErrorV {
    ValidationErrorV::HiddenModule {
        fq_name,
        what,
        in_what_type: join_sep(path_names(path)),
        location: last_span_of(path),
        hidden_module,
    }
}

/// The stripped-fields finding for the struct at `path`.
pub open spec fn finding_fields_stripped(path: Seq<PathComponentV>) -> ValidationErrorV {
    ValidationErrorV::FieldsStripped { fq_name: join_sep(path_names(path)) }
}

/// What classifying one fully-qualified name does to the traversal state:
/// passes leave no trace, approvals mark the name checked, violations become
/// findings (base-library denials never reach the glob stage, so they do not
/// mark the name checked).
pub open spec fn trace_check_allow_type(
    v: Visitor,
    path: Seq<PathComponentV>,
    what: ErrorLocationV,
    fq_name: Seq<char>,
    s: TraceState,
) -> TraceState {
    match classify(v.config, v.root_crate_name@, fq_name) {
        Classification::Root => s,
        Classification::BaseLibrary(_) => s,
        Classification::BaseLibraryNotAllowed(_) => TraceState {
            errors: sorted_insert(s.errors, finding_unapproved(fq_name, what, path)),
            checked: s.checked,
        },
        Classification::Approved(_) => TraceState {
            errors: s.errors,
            checked: s.checked.insert(fq_name),
        },
        Classification::NoMatch => TraceState {
            errors: sorted_insert(s.errors, finding_unapproved(fq_name, what, path)),
            checked: s.checked.insert(fq_name),
        },
        Classification::Duplicates(ds) => TraceState {
            errors: sorted_insert(s.errors, finding_duplicate(fq_name, what, path, ds)),
            checked: s.checked.insert(fq_name),
        },
    }
}

/// What classifying the reference `id` does to the traversal state: named
/// ids go through the allow-list, unnameable external ids raise a
/// hidden-item warning, unnameable root-crate ids pass.
pub open spec fn trace_check_external(
    v: Visitor,
    path: Seq<PathComponentV>,
    what: ErrorLocationV,
    id: u32,
    s: TraceState,
) -> TraceState {
    match crate::graph::paths_lookup(v.paths@, id) {
        Some(summary) => trace_check_allow_type(
            v,
            path,
            what,
            join_sep(summary.path.deep_view()),
            s,
        ),
        None => {
            let external = match index_lookup(v.index@, id) {
                Some(item) => item.crate_id != v.root_crate_id,
                None => true,
            };
            if external {
                TraceState {
                    errors: sorted_insert(s.errors, finding_hidden_item(what, path)),
                    checked: s.checked,
                }
            } else {
                s
            }
        },
    }
}

/// Reference semantics of visiting a named-item reference: classify the
/// target, then walk its generic arguments.
pub open spec fn trace_check_rustdoc_path(
    v: Visitor,
    path: Seq<PathComponentV>,
    what: ErrorLocationV,
    rp: crate::graph::PathRef,
    s: TraceState,
) -> Result<TraceState, TraceFault>
    decreases rp, 0int,
{
    let s1 = trace_check_external(v, path, what, rp.id, s);
    match rp.args {
        Some(args) => trace_visit_generic_args(v, path, *args, s1),
        None => Ok(s1),
    }
}

/// Reference semantics of walking one type expression.
pub open spec fn trace_visit_type(
    v: Visitor,
    path: Seq<PathComponentV>,
    what: ErrorLocationV,
    typ: crate::graph::Type,
    s: TraceState,
) -> Result<TraceState, TraceFault>
    decreases typ, 0int,
{
    match typ {
        crate::graph::Type::ResolvedPath(rp) => trace_check_rustdoc_path(v, path, what, rp, s),
        crate::graph::Type::Generic(_) => Ok(s),
        crate::graph::Type::Primitive(_) => Ok(s),
        crate::graph::Type::Pat => Err(TraceFault::Unsupported),
        crate::graph::Type::FunctionPointer(fp) => match trace_visit_fn_sig(v, path, fp.sig, s) {
            Ok(s1) => trace_visit_param_defs(v, path, fp.generic_params@, 0, s1),
            Err(f) => Err(f),
        },
        crate::graph::Type::Tuple(types) => trace_visit_type_list(
            v,
            path,
            ErrorLocationV::EnumTupleEntry,
            types@,
            0,
            s,
        ),
        crate::graph::Type::Slice(t) => trace_visit_type(v, path, what, *t, s),
        crate::graph::Type::Array(t) => trace_visit_type(v, path, what, *t, s),
        crate::graph::Type::DynTrait(dt) => trace_visit_poly_traits(v, path, dt.traits@, 0, s),
        crate::graph::Type::ImplTrait(bounds) => trace_visit_bound_list(
            v,
            path,
            what,
            bounds@,
            0,
            s,
        ),
        crate::graph::Type::Infer => Err(TraceFault::Unsupported),
        crate::graph::Type::RawPointer(t) => trace_visit_type(v, path, what, *t, s),
        crate::graph::Type::BorrowedRef(t) => trace_visit_type(v, path, what, *t, s),
        crate::graph::Type::QualifiedPath(q) => match trace_visit_type(
            v,
            path,
            ErrorLocationV::QualifiedSelfType,
            q.self_type,
            s,
        ) {
            Ok(s1) => match q.trait_ref {
                Some(tr) => trace_check_rustdoc_path(
                    v,
                    path,
                    ErrorLocationV::QualifiedSelfTypeAsTrait,
                    tr,
                    s1,
                ),
                None => Ok(s1),
            },
            Err(f) => Err(f),
        },
    }
}

/// Reference semantics of walking the types `ts[i..]`, each tagged `what`.
pub open spec fn trace_visit_type_list(
    v: Visitor,
    path: Seq<PathComponentV>,
    what: ErrorLocationV,
    ts: Seq<crate::graph::Type>,
    i: int,
    s: TraceState,
) -> Result<TraceState, TraceFault>
    decreases ts, ts.len() - i,
{
    if i < 0 || i >= ts.len() {
        Ok(s)
    } else {
        match trace_visit_type(v, path, what, ts[i], s) {
            Ok(s1) => trace_visit_type_list(v, path, what, ts, i + 1, s1),
            Err(f) => Err(f),
        }
    }
}

/// Reference semantics of walking the trait references of a trait object.
pub open spec fn trace_visit_poly_traits(
    v: Visitor,
    path: Seq<PathComponentV>,
    pts: Seq<crate::graph::PolyTrait>,
    i: int,
    s: TraceState,
) -> Result<TraceState, TraceFault>
    decreases pts, pts.len() - i,
{
    if i < 0 || i >= pts.len() {
        Ok(s)
    } else {
        match trace_check_rustdoc_path(v, path, ErrorLocationV::DynTrait, pts[i].trait_ref, s) {
            Ok(s1) => match trace_visit_param_defs(v, path, pts[i].generic_params@, 0, s1) {
                Ok(s2) => trace_visit_poly_traits(v, path, pts, i + 1, s2),
                Err(f) => Err(f),
            },
            Err(f) => Err(f),
        }
    }
}

/// Reference semantics of walking the generic bounds `bs[i..]`; each trait
/// bound is tagged `what`.
pub open spec fn trace_visit_bound_list(
    v: Visitor,
    path: Seq<PathComponentV>,
    what: ErrorLocationV,
    bs: Seq<crate::graph::GenericBound>,
    i: int,
    s: TraceState,
) -> Result<TraceState, TraceFault>
    decreases bs, bs.len() - i,
{
    if i < 0 || i >= bs.len() {
        Ok(s)
    } else {
        let step = match bs[i] {
            crate::graph::GenericBound::TraitBound { trait_ref, generic_params } => match (
            trace_check_rustdoc_path(v, path, what, trait_ref, s)) {
                Ok(s1) => trace_visit_param_defs(v, path, generic_params@, 0, s1),
                Err(f) => Err(f),
            },
            crate::graph::GenericBound::Outlives => Ok(s),
            crate::graph::GenericBound::PreciseCapture => Ok(s),
        };
        match step {
            Ok(s1) => trace_visit_bound_list(v, path, what, bs, i + 1, s1),
            Err(f) => Err(f),
        }
    }
}

/// Reference semantics of walking generic parameter definitions `ps[i..]`.
pub open spec fn trace_visit_param_defs(
    v: Visitor,
    path: Seq<PathComponentV>,
    ps: Seq<crate::graph::GenericParamDef>,
    i: int,
    s: TraceState,
) -> Result<TraceState, TraceFault>
    decreases ps, ps.len() - i,
{
    if i < 0 || i >= ps.len() {
        Ok(s)
    } else {
        let step = match ps[i].kind {
            crate::graph::GenericParamDefKind::Type { bounds, default } => match (
            trace_visit_bound_list(v, path, ErrorLocationV::TraitBound, bounds@, 0, s)) {
                Ok(s1) => match default {
                    Some(t) => trace_visit_type(
                        v,
                        path,
                        ErrorLocationV::GenericDefaultBinding,
                        t,
                        s1,
                    ),
                    None => Ok(s1),
                },
                Err(f) => Err(f),
            },
            crate::graph::GenericParamDefKind::Const { ty } => trace_visit_type(
                v,
                path,
                ErrorLocationV::ConstGeneric,
                ty,
                s,
            ),
            crate::graph::GenericParamDefKind::Lifetime => Ok(s),
        };
        match step {
            Ok(s1) => trace_visit_param_defs(v, path, ps, i + 1, s1),
            Err(f) => Err(f),
        }
    }
}

/// Reference semantics of walking generic arguments.
pub open spec fn trace_visit_generic_args(
    v: Visitor,
    path: Seq<PathComponentV>,
    args: crate::graph::GenericArgs,
    s: TraceState,
) -> Result<TraceState, TraceFault>
    decreases args, 0int,
{
    match args {
        crate::graph::GenericArgs::AngleBracketed { args: alist, constraints } => match (
        trace_visit_garg_list(v, path, alist@, 0, s)) {
            Ok(s1) => trace_visit_constraint_list(v, path, constraints@, 0, s1),
            Err(f) => Err(f),
        },
        crate::graph::GenericArgs::Parenthesized { inputs, output } => match (
        trace_visit_type_list(v, path, ErrorLocationV::ClosureInput, inputs@, 0, s)) {
            Ok(s1) => match output {
                Some(t) => trace_visit_type(v, path, ErrorLocationV::ClosureOutput, t, s1),
                None => Ok(s1),
            },
            Err(f) => Err(f),
        },
    }
}

/// Reference semantics of walking the generic argument entries `gs[i..]`:
/// only type arguments carry references.
pub open spec fn trace_visit_garg_list(
    v: Visitor,
    path: Seq<PathComponentV>,
    gs: Seq<crate::graph::GenericArg>,
    i: int,
    s: TraceState,
) -> Result<TraceState, TraceFault>
    decreases gs, gs.len() - i,
{
    if i < 0 || i >= gs.len() {
        Ok(s)
    } else {
        let step = match gs[i] {
            crate::graph::GenericArg::Type(t) => trace_visit_type(
                v,
                path,
                ErrorLocationV::GenericArg,
                t,
                s,
            ),
            crate::graph::GenericArg::Lifetime => Ok(s),
            crate::graph::GenericArg::Const => Ok(s),
            crate::graph::GenericArg::Infer => Ok(s),
        };
        match step {
            Ok(s1) => trace_visit_garg_list(v, path, gs, i + 1, s1),
            Err(f) => Err(f),
        }
    }
}

/// Reference semantics of walking associated-item constraints `cs[i..]`.
pub open spec fn trace_visit_constraint_list(
    v: Visitor,
    path: Seq<PathComponentV>,
    cs: Seq<crate::graph::AssocItemConstraint>,
    i: int,
    s: TraceState,
) -> Result<TraceState, TraceFault>
    decreases cs, cs.len() - i,
{
    if i < 0 || i >= cs.len() {
        Ok(s)
    } else {
        let step = match cs[i].binding {
            crate::graph::AssocItemConstraintKind::Equality(term) => match term {
                crate::graph::Term::Type(t) => trace_visit_type(
                    v,
                    path,
                    ErrorLocationV::GenericDefaultBinding,
                    t,
                    s,
                ),
                crate::graph::Term::Constant => Ok(s),
            },
            crate::graph::AssocItemConstraintKind::Constraint(bounds) => trace_visit_bound_list(
                v,
                path,
                ErrorLocationV::TraitBound,
                bounds@,
                0,
                s,
            ),
        };
        match step {
            Ok(s1) => trace_visit_constraint_list(v, path, cs, i + 1, s1),
            Err(f) => Err(f),
        }
    }
}

/// Reference semantics of walking an item's generics: parameter definitions,
/// then where clauses.
pub open spec fn trace_visit_generics(
    v: Visitor,
    path: Seq<PathComponentV>,
    g: crate::graph::Generics,
    s: TraceState,
) -> Result<TraceState, TraceFault>
    decreases g, 0int,
{
    match trace_visit_param_defs(v, path, g.params@, 0, s) {
        Ok(s1) => trace_visit_where_list(v, path, g.where_predicates@, 0, s1),
        Err(f) => Err(f),
    }
}

/// Reference semantics of walking where predicates `ws[i..]`: bound
/// predicates walk their bounds and binders (not the bounded type itself),
/// equality predicates walk their left side.
pub open spec fn trace_visit_where_list(
    v: Visitor,
    path: Seq<PathComponentV>,
    ws: Seq<crate::graph::WherePredicate>,
    i: int,
    s: TraceState,
) -> Result<TraceState, TraceFault>
    decreases ws, ws.len() - i,
{
    if i < 0 || i >= ws.len() {
        Ok(s)
    } else {
        let step = match ws[i] {
            crate::graph::WherePredicate::BoundPredicate { bounds, generic_params } => match (
            trace_visit_bound_list(v, path, ErrorLocationV::TraitBound, bounds@, 0, s)) {
                Ok(s1) => trace_visit_param_defs(v, path, generic_params@, 0, s1),
                Err(f) => Err(f),
            },
            crate::graph::WherePredicate::LifetimePredicate => Ok(s),
            crate::graph::WherePredicate::EqPredicate { lhs } => trace_visit_type(
                v,
                path,
                ErrorLocationV::WhereBound,
                lhs,
                s,
            ),
        };
        match step {
            Ok(s1) => trace_visit_where_list(v, path, ws, i + 1, s1),
            Err(f) => Err(f),
        }
    }
}

/// Reference semantics of walking a function signature: every argument but a
/// leading `self` receiver, tagged by its name, then the return type.
pub open spec fn trace_visit_fn_sig(
    v: Visitor,
    path: Seq<PathComponentV>,
    decl: crate::graph::FunctionSignature,
    s: TraceState,
) -> Result<TraceState, TraceFault>
    decreases decl, 0int,
{
    match trace_visit_input_list(v, path, decl.inputs@, 0, s) {
        Ok(s1) => match decl.output {
            Some(t) => trace_visit_type(v, path, ErrorLocationV::ReturnValue, t, s1),
            None => Ok(s1),
        },
        Err(f) => Err(f),
    }
}

/// Reference semantics of walking the signature inputs `inputs[i..]`; the
/// first input is skipped exactly when it is named `self`.
pub open spec fn trace_visit_input_list(
    v: Visitor,
    path: Seq<PathComponentV>,
    inputs: Seq<(String, crate::graph::Type)>,
    i: int,
    s: TraceState,
) -> Result<TraceState, TraceFault>
    decreases inputs, inputs.len() - i,
{
    if i < 0 || i >= inputs.len() {
        Ok(s)
    } else {
        let step = if i == 0 && inputs[0].0@ == "self"@ {
            Ok(s)
        } else {
            trace_visit_type(
                v,
                path,
                ErrorLocationV::ArgumentNamed(inputs[i].0@),
                inputs[i].1,
                s,
            )
        };
        match step {
            Ok(s1) => trace_visit_input_list(v, path, inputs, i + 1, s1),
            Err(f) => Err(f),
        }
    }
}

/// Reference semantics of dispatching on one item. Default-visibility items
/// the promotion rules do not cover are pruned without effect; unstable item
/// kinds abort; every other kind extends the path and walks its publicly
/// reachable contents.
pub open spec fn trace_visit_item(
    v: Visitor,
    path: Seq<PathComponentV>,
    item: Item,
    check: VisibilityCheck,
    fuel: nat,
    s: TraceState,
) -> Result<TraceState, TraceFault>
    decreases fuel, 2int, 0int,
{
    if check == VisibilityCheck::Default && !spec_is_public(path, item) {
        Ok(s)
    } else if fuel == 0 {
        Err(TraceFault::Depth)
    } else {
        let nm = match item.name {
            Some(n) => n@,
            None => ""@,
        };
        let sp = opt_span_field_view(item.span);
        match item.inner {
            crate::graph::ItemEnum::AssocConst { ty } => trace_visit_type(
                v,
                path.push(path_component(ComponentType::AssocConst, nm, sp)),
                ErrorLocationV::StructField,
                ty,
                s,
            ),
            crate::graph::ItemEnum::AssocType { generics, bounds, assigned_ty } => {
                let p2 = path.push(path_component(ComponentType::AssocType, nm, sp));
                let after_ty = match assigned_ty {
                    Some(t) => trace_visit_type(v, p2, ErrorLocationV::AssocType, t, s),
                    None => Ok(s),
                };
                match after_ty {
                    Ok(s1) => match trace_visit_bound_list(
                        v,
                        p2,
                        ErrorLocationV::TraitBound,
                        bounds@,
                        0,
                        s1,
                    ) {
                        Ok(s2) => trace_visit_generics(v, p2, generics, s2),
                        Err(f) => Err(f),
                    },
                    Err(f) => Err(f),
                }
            },
            crate::graph::ItemEnum::Constant { ty } => trace_visit_type(
                v,
                path.push(path_component(ComponentType::Constant, nm, sp)),
                ErrorLocationV::Constant,
                ty,
                s,
            ),
            crate::graph::ItemEnum::Enum(enm) => {
                let p2 = path.push(path_component(ComponentType::Enum, nm, sp));
                match trace_visit_generics(v, p2, enm.generics, s) {
                    Ok(s1) => match trace_visit_impls(v, p2, enm.impls@, (fuel - 1) as nat, s1) {
                        Ok(s2) => trace_visit_members(v, p2, enm.variants@, 0, fuel, s2),
                        Err(f) => Err(f),
                    },
                    Err(f) => Err(f),
                }
            },
            crate::graph::ItemEnum::ForeignType => Err(TraceFault::Unsupported),
            crate::graph::ItemEnum::Function(function) => {
                let p2 = path.push(path_component(ComponentType::Function, nm, sp));
                match trace_visit_fn_sig(v, p2, function.sig, s) {
                    Ok(s1) => trace_visit_generics(v, p2, function.generics, s1),
                    Err(f) => Err(f),
                }
            },
            crate::graph::ItemEnum::ReExport(use_) => {
                let p2 = path.push(path_component(ComponentType::ReExport, use_.name@, sp));
                match use_.id {
                    Some(target_id) => match index_lookup(v.index@, target_id) {
                        Some(target_item) => {
                            if target_item.crate_id == v.root_crate_id {
                                trace_visit_item(
                                    v,
                                    p2,
                                    target_item,
                                    VisibilityCheck::AssumePublic,
                                    (fuel - 1) as nat,
                                    s,
                                )
                            } else {
                                Ok(s)
                            }
                        },
                        None => match crate::graph::paths_lookup(v.paths@, target_id) {
                            Some(summary) => Ok(
                                trace_check_allow_type(
                                    v,
                                    p2,
                                    ErrorLocationV::ReExport,
                                    join_sep(summary.path.deep_view()),
                                    s,
                                ),
                            ),
                            None => Ok(
                                TraceState {
                                    errors: sorted_insert(
                                        s.errors,
                                        finding_hidden_module(
                                            use_.name@,
                                            ErrorLocationV::ReExport,
                                            p2,
                                            spec_first_hidden(
                                                crate::strings::split_sep(use_.source@),
                                                v.index@,
                                            ),
                                        ),
                                    ),
                                    checked: s.checked,
                                },
                            ),
                        },
                    },
                    None => Ok(s),
                }
            },
            crate::graph::ItemEnum::Module(module) => {
                if !module.is_crate {
                    trace_visit_module_items(
                        v,
                        path.push(path_component(ComponentType::Module, nm, sp)),
                        module.items@,
                        (fuel - 1) as nat,
                        s,
                    )
                } else {
                    trace_visit_module_items(v, path, module.items@, (fuel - 1) as nat, s)
                }
            },
            crate::graph::ItemEnum::Static { ty } => trace_visit_type(
                v,
                path.push(path_component(ComponentType::Static, nm, sp)),
                ErrorLocationV::Static,
                ty,
                s,
            ),
            crate::graph::ItemEnum::Struct(strct) => trace_visit_struct(
                v,
                path.push(path_component(ComponentType::Struct, nm, sp)),
                strct,
                (fuel - 1) as nat,
                s,
            ),
            crate::graph::ItemEnum::StructField(ty) => trace_visit_type(
                v,
                path.push(path_component(ComponentType::StructField, nm, sp)),
                ErrorLocationV::StructField,
                ty,
                s,
            ),
            crate::graph::ItemEnum::Trait(trt) => trace_visit_trait(
                v,
                path.push(path_component(ComponentType::Trait, nm, sp)),
                trt,
                (fuel - 1) as nat,
                s,
            ),
            crate::graph::ItemEnum::TypeAlias(alias) => {
                let p2 = path.push(path_component(ComponentType::TypeAlias, nm, sp));
                match trace_visit_type(v, p2, ErrorLocationV::TypeAlias, alias.ty, s) {
                    Ok(s1) => trace_visit_generics(v, p2, alias.generics, s1),
                    Err(f) => Err(f),
                }
            },
            crate::graph::ItemEnum::TraitAlias => Err(TraceFault::Unsupported),
            crate::graph::ItemEnum::Union(unn) => trace_visit_union(
                v,
                path.push(path_component(ComponentType::Union, nm, sp)),
                unn,
                (fuel - 1) as nat,
                s,
            ),
            crate::graph::ItemEnum::Variant(variant) => trace_visit_variant(
                v,
                path.push(path_component(ComponentType::EnumVariant, nm, sp)),
                variant,
                (fuel - 1) as nat,
                s,
            ),
            crate::graph::ItemEnum::Impl(_) => Ok(s),
            crate::graph::ItemEnum::Other => Ok(s),
        }
    }
}

/// Reference semantics of visiting the listed items `ids[i..]` one by one
/// under the default visibility check; a listed id absent from the index is
/// a fault.
pub open spec fn trace_visit_members(
    v: Visitor,
    path: Seq<PathComponentV>,
    ids: Seq<u32>,
    i: int,
    fuel: nat,
    s: TraceState,
) -> Result<TraceState, TraceFault>
    decreases fuel, 1int, ids.len() - i,
{
    if i < 0 || i >= ids.len() {
        Ok(s)
    } else if fuel == 0 {
        Err(TraceFault::Depth)
    } else {
        match index_lookup(v.index@, ids[i]) {
            Some(item) => match trace_visit_item(
                v,
                path,
                item,
                VisibilityCheck::Default,
                (fuel - 1) as nat,
                s,
            ) {
                Ok(s1) => trace_visit_members(v, path, ids, i + 1, fuel, s1),
                Err(f) => Err(f),
            },
            None => Err(TraceFault::Missing(ids[i])),
        }
    }
}

/// Reference semantics of visiting optional member ids (tuple fields and
/// tuple-variant entries): absent entries are doc-hidden placeholders and
/// are skipped.
pub open spec fn trace_visit_opt_members(
    v: Visitor,
    path: Seq<PathComponentV>,
    ids: Seq<Option<u32>>,
    i: int,
    fuel: nat,
    s: TraceState,
) -> Result<TraceState, TraceFault>
    decreases fuel, 1int, ids.len() - i,
{
    if i < 0 || i >= ids.len() {
        Ok(s)
    } else if fuel == 0 {
        Err(TraceFault::Depth)
    } else {
        match ids[i] {
            Some(id) => match index_lookup(v.index@, id) {
                Some(item) => match trace_visit_item(
                    v,
                    path,
                    item,
                    VisibilityCheck::Default,
                    (fuel - 1) as nat,
                    s,
                ) {
                    Ok(s1) => trace_visit_opt_members(v, path, ids, i + 1, fuel, s1),
                    Err(f) => Err(f),
                },
                None => Err(TraceFault::Missing(id)),
            },
            None => trace_visit_opt_members(v, path, ids, i + 1, fuel, s),
        }
    }
}

/// Reference semantics of a module's listing: items owned by other crates
/// (re-export shadow copies) are skipped.
pub open spec fn trace_visit_module_list(
    v: Visitor,
    path: Seq<PathComponentV>,
    ids: Seq<u32>,
    i: int,
    fuel: nat,
    s: TraceState,
) -> Result<TraceState, TraceFault>
    decreases fuel, 1int, ids.len() - i,
{
    if i < 0 || i >= ids.len() {
        Ok(s)
    } else if fuel == 0 {
        Err(TraceFault::Depth)
    } else {
        match index_lookup(v.index@, ids[i]) {
            Some(item) => {
                if item.crate_id == v.root_crate_id {
                    match trace_visit_item(
                        v,
                        path,
                        item,
                        VisibilityCheck::Default,
                        (fuel - 1) as nat,
                        s,
                    ) {
                        Ok(s1) => trace_visit_module_list(v, path, ids, i + 1, fuel, s1),
                        Err(f) => Err(f),
                    }
                } else {
                    trace_visit_module_list(v, path, ids, i + 1, fuel, s)
                }
            },
            None => Err(TraceFault::Missing(ids[i])),
        }
    }
}

/// Reference semantics of walking a module's items.
pub open spec fn trace_visit_module_items(
    v: Visitor,
    path: Seq<PathComponentV>,
    ids: Seq<u32>,
    fuel: nat,
    s: TraceState,
) -> Result<TraceState, TraceFault>
    decreases fuel, 2int, 0int,
{
    if fuel == 0 {
        Err(TraceFault::Depth)
    } else {
        trace_visit_module_list(v, path, ids, 0, fuel, s)
    }
}

/// Reference semantics of the implementation blocks `ids[i..]` attached to a
/// type: each extends the path with an unnamed impl component carrying the
/// impl's span, or the enclosing item's when the impl has none.
pub open spec fn trace_visit_impls_list(
    v: Visitor,
    path: Seq<PathComponentV>,
    ids: Seq<u32>,
    i: int,
    fuel: nat,
    s: TraceState,
) -> Result<TraceState, TraceFault>
    decreases fuel, 1int, ids.len() - i,
{
    if i < 0 || i >= ids.len() {
        Ok(s)
    } else if fuel == 0 {
        Err(TraceFault::Depth)
    } else {
        match index_lookup(v.index@, ids[i]) {
            Some(impl_item) => {
                let sp = match impl_item.span {
                    Some(x) => Some(x@),
                    None => last_span_of(path),
                };
                let p2 = path.push(path_component(ComponentType::Impl, ""@, sp));
                match trace_visit_impl(v, p2, impl_item, (fuel - 1) as nat, s) {
                    Ok(s1) => trace_visit_impls_list(v, path, ids, i + 1, fuel, s1),
                    Err(f) => Err(f),
                }
            },
            None => Err(TraceFault::Missing(ids[i])),
        }
    }
}

/// Reference semantics of walking a type's implementation blocks.
pub open spec fn trace_visit_impls(
    v: Visitor,
    path: Seq<PathComponentV>,
    ids: Seq<u32>,
    fuel: nat,
    s: TraceState,
) -> Result<TraceState, TraceFault>
    decreases fuel, 2int, 0int,
{
    if fuel == 0 {
        Err(TraceFault::Depth)
    } else {
        trace_visit_impls_list(v, path, ids, 0, fuel, s)
    }
}

/// Reference semantics of walking a struct: generics, fields (raising the
/// stripped-fields warning first when the graph says some were hidden), then
/// impls.
pub open spec fn trace_visit_struct(
    v: Visitor,
    path: Seq<PathComponentV>,
    strct: crate::graph::Struct,
    fuel: nat,
    s: TraceState,
) -> Result<TraceState, TraceFault>
    decreases fuel, 2int, 0int,
{
    if fuel == 0 {
        Err(TraceFault::Depth)
    } else {
        match trace_visit_generics(v, path, strct.generics, s) {
            Ok(s1) => {
                let after_kind = match strct.kind {
                    crate::graph::StructKind::Unit => Ok(s1),
                    crate::graph::StructKind::Tuple(members) => trace_visit_opt_members(
                        v,
                        path,
                        members@,
                        0,
                        fuel,
                        s1,
                    ),
                    crate::graph::StructKind::Plain { fields, has_stripped_fields } => {
                        let s2 = if has_stripped_fields {
                            TraceState {
                                errors: sorted_insert(s1.errors, finding_fields_stripped(path)),
                                checked: s1.checked,
                            }
                        } else {
                            s1
                        };
                        trace_visit_members(v, path, fields@, 0, fuel, s2)
                    },
                };
                match after_kind {
                    Ok(s3) => trace_visit_impls(v, path, strct.impls@, (fuel - 1) as nat, s3),
                    Err(f) => Err(f),
                }
            },
            Err(f) => Err(f),
        }
    }
}

/// Reference semantics of walking a union: generics, fields, impls.
pub open spec fn trace_visit_union(
    v: Visitor,
    path: Seq<PathComponentV>,
    unn: crate::graph::Union,
    fuel: nat,
    s: TraceState,
) -> Result<TraceState, TraceFault>
    decreases fuel, 2int, 0int,
{
    if fuel == 0 {
        Err(TraceFault::Depth)
    } else {
        match trace_visit_generics(v, path, unn.generics, s) {
            Ok(s1) => match trace_visit_members(v, path, unn.fields@, 0, fuel, s1) {
                Ok(s2) => trace_visit_impls(v, path, unn.impls@, (fuel - 1) as nat, s2),
                Err(f) => Err(f),
            },
            Err(f) => Err(f),
        }
    }
}

/// Reference semantics of walking a trait definition: generics, bounds, then
/// its items.
pub open spec fn trace_visit_trait(
    v: Visitor,
    path: Seq<PathComponentV>,
    trt: crate::graph::Trait,
    fuel: nat,
    s: TraceState,
) -> Result<TraceState, TraceFault>
    decreases fuel, 2int, 0int,
{
    if fuel == 0 {
        Err(TraceFault::Depth)
    } else {
        match trace_visit_generics(v, path, trt.generics, s) {
            Ok(s1) => match trace_visit_bound_list(
                v,
                path,
                ErrorLocationV::TraitBound,
                trt.bounds@,
                0,
                s1,
            ) {
                Ok(s2) => trace_visit_members(v, path, trt.items@, 0, fuel, s2),
                Err(f) => Err(f),
            },
            Err(f) => Err(f),
        }
    }
}

/// Reference semantics of an implementation block: blanket impls and impls
/// of non-public traits leave no trace; otherwise the implemented-trait
/// reference, the generics and the contained items are walked. A non-impl
/// item in impl position violates the graph's invariants.
pub open spec fn trace_visit_impl(
    v: Visitor,
    path: Seq<PathComponentV>,
    item: Item,
    fuel: nat,
    s: TraceState,
) -> Result<TraceState, TraceFault>
    decreases fuel, 2int, 0int,
{
    if fuel == 0 {
        Err(TraceFault::Depth)
    } else {
        match item.inner {
            crate::graph::ItemEnum::Impl(imp) => {
                if imp.is_blanket {
                    Ok(s)
                } else {
                    let private_trait = match imp.trait_ref {
                        Some(tr) => match index_lookup(v.index@, tr.id) {
                            Some(trait_item) => !spec_is_public(path, trait_item),
                            None => false,
                        },
                        None => false,
                    };
                    if private_trait {
                        Ok(s)
                    } else {
                        let after_trait = match imp.trait_ref {
                            Some(tr) => trace_check_rustdoc_path(
                                v,
                                path,
                                ErrorLocationV::ImplementedTrait,
                                tr,
                                s,
                            ),
                            None => Ok(s),
                        };
                        match after_trait {
                            Ok(s1) => match trace_visit_generics(v, path, imp.generics, s1) {
                                Ok(s2) => trace_visit_members(v, path, imp.items@, 0, fuel, s2),
                                Err(f) => Err(f),
                            },
                            Err(f) => Err(f),
                        }
                    }
                }
            },
            _ => Err(TraceFault::Invariant),
        }
    }
}

/// Reference semantics of walking an enum variant's fields.
pub open spec fn trace_visit_variant(
    v: Visitor,
    path: Seq<PathComponentV>,
    variant: crate::graph::Variant,
    fuel: nat,
    s: TraceState,
) -> Result<TraceState, TraceFault>
    decreases fuel, 2int, 0int,
{
    if fuel == 0 {
        Err(TraceFault::Depth)
    } else {
        match variant.kind {
            crate::graph::VariantKind::Plain => Ok(s),
            crate::graph::VariantKind::Tuple(entries) => trace_visit_opt_members(
                v,
                path,
                entries@,
                0,
                fuel,
                s,
            ),
            crate::graph::VariantKind::Struct { fields, has_stripped_fields } => {
                if has_stripped_fields {
                    Err(TraceFault::Invariant)
                } else {
                    trace_visit_members(v, path, fields@, 0, fuel, s)
                }
            },
        }
    }
}

/// In a strictly key-ordered finding set, the unused-approval warning for a
/// pattern occupies at most one position: with `visit_all_ensures`, a full
/// run reports a never-matched pattern exactly once.
pub proof fn lemma_unused_reported_once(
    errors: Seq<ValidationErrorV>,
    p: Seq<char>,
    i: int,
    j: int,
)
    requires
        crate::error::sorted_distinct(errors),
        0 <= i < errors.len(),
        0 <= j < errors.len(),
        errors[i] == finding_unused(p),
        errors[j] == finding_unused(p),
    ensures
        i == j,
{
    if i != j {
        assert(spec_sort_key(errors[i]) == p && spec_sort_key(errors[j]) == p);
        crate::strings::lemma_lex_irrefl(p);
    }
}

/// A pattern that matched at least one checked reference is never reported
/// as unused — even when the match was part of a duplicate-approval finding,
/// since duplicated patterns still count as used.
pub proof fn lemma_matched_pattern_not_unused(
    cfg: Config,
    errors: Seq<ValidationErrorV>,
    checked: Set<Seq<char>>,
    p: Seq<char>,
    t: Seq<char>,
)
    requires
        visit_all_post(cfg, errors, checked),
        checked.contains(t),
        glob_match(p, t),
    ensures
        !errors.contains(finding_unused(p)),
{
    if errors.contains(finding_unused(p)) {
        assert(pattern_unmatched(cfg.allowed_external_types.deep_view(), checked, p));
        assert(!glob_match(p, t));
    }
}

/// The visibility promotion behind enum variants: a default-visibility
/// variant under an enum component is effectively public and so is visited,
/// while a default-visibility enum under a module (or the crate root) is
/// itself pruned, so its variants are never reached at all.
pub proof fn lemma_variant_under_enum_visibility(
    path: Seq<PathComponentV>,
    variant_item: Item,
    enum_item: Item,
)
    requires
        variant_item.visibility is Default,
        variant_item.inner is Variant,
        enum_item.visibility is Default,
        enum_item.inner is Enum,
        path.len() > 0,
    ensures
        path.last().kind == ComponentType::Enum ==> spec_is_public(path, variant_item),
        path.last().kind == ComponentType::Module || path.last().kind == ComponentType::Crate
            ==> !spec_is_public(path, enum_item),
{
}

impl Visitor {
    /// The entry point: walks the whole item graph from the root module,
    /// then turns every approval pattern that never matched into a warning.
    /// The full contract is [`visit_all_trace_ensures`]: without a crate-root
    /// module the run fails saying so; otherwise a successful run returns
    /// exactly the reference traversal's findings plus the unused-pattern
    /// warnings ([`flush_post`]), strictly ordered by sort key, and a failing
    /// run reports a fault of the kind the reference traversal raises.
    /// [`visit_all_ensures`] restates the unused-pattern law on its own.
    #[verifier::loop_isolation(false)]
    #[verifier::rlimit(50)]
    #[verifier::spinoff_prover]
    pub fn visit_all(self) -> (r: Result<ValidationErrors, Fault>)
        ensures
            visit_all_ensures(self.config, r),
            visit_all_trace_ensures(self, r),
            r == Err::<ValidationErrors, Fault>(Fault::MissingRootModule) ==> (forall|i: int|
                0 <= i < self.index@.len() ==> !is_crate_module(#[trigger] self.index@[i])),
    {
        broadcast use lemma_acc_evolves_trans;

        let root_path = Path::new(self.root_crate_name.as_str());

        let mut root_mod_idx: usize = 0;
        let mut have_root_module = false;
        let mut scan: usize = 0;
        while scan < self.index.len() && !have_root_module
            invariant
                scan <= self.index@.len(),
                have_root_module ==> root_mod_idx < self.index@.len() && is_crate_module(
                    self.index@[root_mod_idx as int],
                ),
                !have_root_module ==> (forall|j: int|
                    0 <= j < scan ==> !is_crate_module(#[trigger] self.index@[j])),
                !have_root_module ==> first_crate_module(self.index@, 0) == first_crate_module(
                    self.index@,
                    scan as int,
                ),
                have_root_module ==> first_crate_module(self.index@, 0) == Some(
                    root_mod_idx as int,
                ),
            decreases self.index@.len() - scan + if have_root_module {
                0int
            } else {
                1int
            },
        {
            match &self.index[scan].inner {
                crate::graph::ItemEnum::Module(m) => {
                    if m.is_crate {
                        root_mod_idx = scan;
                        have_root_module = true;
                    }
                },
                _ => {},
            }
            if !have_root_module {
                scan += 1;
            }
        }
        if !have_root_module {
            return Err(Fault::MissingRootModule);
        }

        let mut acc = Acc {
            errors: ValidationErrors::new(),
            unused: UnusedPatterns::from_config(&self.config.allowed_external_types),
            checked: Ghost(Set::empty()),
        };
        let ghost initial = acc;
        proof {
            let patterns = self.config.allowed_external_types.deep_view();
            assert forall|p: Seq<char>| #[trigger]
                acc.unused@.contains(p) <==> pattern_unmatched(patterns, acc.checked@, p) by {
                assert(forall|t: Seq<char>| !(#[trigger] acc.checked@.contains(t)));
            }
        }

        let n = self.index.len();
        let fuel: usize = if n <= (usize::MAX - 4) / 4 {
            4 * n + 4
        } else {
            usize::MAX
        };

        let root_items: &Vec<u32> = match &self.index[root_mod_idx].inner {
            crate::graph::ItemEnum::Module(m) => &m.items,
            _ => {
                // The scan above already found a crate-root module at this
                // index, so this arm cannot be reached.
                proof {
                    assert(false);
                }
                return Err(Fault::MissingRootModule);
            },
        };
        proof {
            assert(fuel as nat == trace_fuel(self.index@.len() as nat));
            assert(root_path@ == root_trace_path(self));
            assert(root_items@ == module_item_ids(self.index@[root_mod_idx as int]));
            assert(acc_state(acc) == (TraceState {
                errors: Seq::<ValidationErrorV>::empty(),
                checked: Set::<Seq<char>>::empty(),
            }));
        }
        self.visit_module_items(&root_path, root_items, fuel, &mut acc)?;

        proof {
            assert(acc_evolves(initial, acc));
            assert forall|x: ValidationErrorV| #[trigger]
                acc.errors@.contains(x) implies !(x is UnusedApprovalPattern) by {
                if x is UnusedApprovalPattern {
                    assert(initial.errors@.contains(x));
                    assert(initial.errors@.len() == 0);
                }
            }
        }
        let ghost pre_flush = acc.errors@;
        let ghost checked = acc.checked@;
        let ghost unused_view = acc.unused@;
        flush_unused(&acc.unused, &mut acc.errors);
        proof {
            let patterns = self.config.allowed_external_types.deep_view();
            let out = acc.errors@;
            assert forall|p: Seq<char>|
                out.contains(#[trigger] finding_unused(p)) implies pattern_unmatched(
                patterns,
                checked,
                p,
            ) by {
                assert(crate::error::spec_fq_name(finding_unused(p)) == p);
                if pre_flush.contains(finding_unused(p)) {
                    assert(false);
                } else {
                    assert(unused_view.contains(p));
                }
            }
            assert forall|p: Seq<char>| #[trigger]
                pattern_unmatched(patterns, checked, p) implies (out.contains(finding_unused(p))
                || (exists|x: ValidationErrorV| #[trigger]
                out.contains(x) && spec_sort_key(x) == p && !(x is UnusedApprovalPattern))) by {
                assert(unused_view.contains(p));
                if !crate::error::has_key(pre_flush, p) {
                    assert(out.contains(finding_unused(p)));
                } else {
                    crate::error::lemma_has_key_contains(pre_flush, p);
                    let x = choose|x: ValidationErrorV| #[trigger]
                        pre_flush.contains(x) && spec_sort_key(x) == p;
                    assert(out.contains(x));
                    assert(!(x is UnusedApprovalPattern));
                }
            }
            assert(visit_all_post(self.config, acc.errors@, checked));
            assert(exists|c: Set<Seq<char>>| #[trigger] visit_all_post(self.config, acc.errors@, c));
            assert(visit_all_ensures(
                self.config,
                Ok::<ValidationErrors, Fault>(acc.errors),
            ));
            // The flushed result is exactly the reference traversal's
            // findings plus the fresh-keyed unused-pattern warnings.
            let ts = TraceState { errors: pre_flush, checked };
            let patterns = self.config.allowed_external_types.deep_view();
            assert forall|x: ValidationErrorV| #[trigger]
                acc.errors@.contains(x) <==> (ts.errors.contains(x) || (x
                is UnusedApprovalPattern && pattern_unmatched(
                patterns,
                ts.checked,
                crate::error::spec_fq_name(x),
            ) && !crate::error::has_key(ts.errors, crate::error::spec_fq_name(x)))) by {
                if acc.errors@.contains(x) {
                    if !pre_flush.contains(x) {
                        assert(x is UnusedApprovalPattern);
                        assert(unused_view.contains(crate::error::spec_fq_name(x)));
                    }
                }
                if !acc.errors@.contains(x) && x is UnusedApprovalPattern && pattern_unmatched(
                    patterns,
                    ts.checked,
                    crate::error::spec_fq_name(x),
                ) && !crate::error::has_key(ts.errors, crate::error::spec_fq_name(x)) {
                    let p = crate::error::spec_fq_name(x);
                    assert(unused_view.contains(p));
                    assert(acc.errors@.contains(finding_unused(p)));
                    assert(x == finding_unused(p));
                }
            }
            assert(flush_post(self.config, ts, acc.errors@));
        }
        Ok(acc.errors)
    }
}

} // verus!
