//! Two-tier resolution of extracted dependency references.
//!
//! A reference is an opaque relative path fragment. It is resolved first
//! against the directory of the source file that declared it, then against
//! the project root; a reference available in both places resolves to the
//! more specific, local one.

use vstd::prelude::*;
use vstd::seq_lib::*;
use crate::extract::extract_dependencies;
use crate::extract::extract_refs;
use crate::fstree::FsEntry;
use crate::fstree::path_exists;
use crate::fstree::lookup;
use crate::text::split_chars;
use crate::text::split_string;

verus! {

/// The outcome of resolving one dependency reference.
#[derive(Debug, Clone, Copy, PartialEq, Eq, Structural)]
pub enum ResolutionResult {
    ResolvedLocal,
    ResolvedGlobal,
    Missing,
}

/// Local existence wins over global; a reference found nowhere is missing.
pub open spec fn classify(local: bool, global: bool) -> ResolutionResult {
    if local {
        ResolutionResult::ResolvedLocal
    } else if global {
        ResolutionResult::ResolvedGlobal
    } else {
        ResolutionResult::Missing
    }
}

/// The non-empty pieces among `pieces`, in order.
pub open spec fn nonempty_of(pieces: Seq<Seq<char>>) -> Seq<Seq<char>> {
    pieces.filter(|c: Seq<char>| c.len() > 0)
}

/// A trailing piece of a path is kept only when it is non-empty.
proof fn lemma_nonempty_push(pieces: Seq<Seq<char>>, p: Seq<char>)
    ensures
        nonempty_of(pieces.push(p)) == if p.len() > 0 {
            nonempty_of(pieces).push(p)
        } else {
            nonempty_of(pieces)
        },
{
    broadcast use Seq::lemma_filter_push;

    if p.len() > 0 {
        assert(nonempty_of(pieces.push(p)) =~= nonempty_of(pieces).push(p));
    } else {
        assert(nonempty_of(pieces.push(p)) =~= nonempty_of(pieces));
    }
}

/// The path components of a reference: its non-empty pieces between `/`
/// separators. The reference is otherwise opaque; no path segment is
/// interpreted.
pub open spec fn ref_components(r: Seq<char>) -> Seq<Seq<char>> {
    nonempty_of(split_chars(r, '/'))
}

/// What resolving `r` returns: local existence first, then global, else
/// missing.
pub open spec fn resolve_spec(r: Seq<char>, current: Seq<FsEntry>, root: Seq<FsEntry>) -> ResolutionResult {
    classify(
        path_exists(current, ref_components(r)),
        path_exists(root, ref_components(r)),
    )
}

/// Resolve one reference against the directory of its source file
/// (`current`) and the project root (`root`).
///
/// A reference that exists locally is `ResolvedLocal` no matter what the
/// root holds; one that exists only under the root is `ResolvedGlobal`; one
/// that exists at neither candidate is `Missing`.
pub fn resolve_reference(reference: &str, current: &Vec<FsEntry>, root: &Vec<FsEntry>) -> (res:
    ResolutionResult)
    ensures
        res == resolve_spec(reference@, current@, root@),
        path_exists(current@, ref_components(reference@)) ==> res
            == ResolutionResult::ResolvedLocal,
        !path_exists(current@, ref_components(reference@)) && path_exists(
            root@,
            ref_components(reference@),
        ) ==> res == ResolutionResult::ResolvedGlobal,
        !path_exists(current@, ref_components(reference@)) && !path_exists(
            root@,
            ref_components(reference@),
        ) ==> res == ResolutionResult::Missing,
{
    let pieces = split_string(reference, '/');
    let ghost pdv = pieces.deep_view();
    let mut comps: Vec<String> = Vec::new();
    proof {
        assert(pdv.take(0) =~= Seq::<Seq<char>>::empty());
        assert(comps.deep_view() =~= nonempty_of(pdv.take(0)));
    }
    let n = pieces.len();
    for i in 0..n
        invariant
            n == pieces@.len(),
            pdv == pieces.deep_view(),
            pdv == split_chars(reference@, '/'),
            comps.deep_view() == nonempty_of(pdv.take(i as int)),
    {
        let piece = &pieces[i];
        proof {
            assert(pdv[i as int] == piece@);
            assert(pdv.take(i + 1) =~= pdv.take(i as int).push(piece@));
            lemma_nonempty_push(pdv.take(i as int), piece@);
        }
        if !piece.as_str().is_empty() {
            let ghost old_comps = comps.deep_view();
            comps.push(piece.clone());
            proof {
                assert(comps.deep_view() =~= old_comps.push(piece@));
            }
        }
    }
    proof {
        assert(pdv.take(n as int) =~= pdv);
        assert(comps.deep_view().skip(0) =~= ref_components(reference@));
    }
    if lookup(current, &comps, 0) {
        ResolutionResult::ResolvedLocal
    } else if lookup(root, &comps, 0) {
        ResolutionResult::ResolvedGlobal
    } else {
        ResolutionResult::Missing
    }
}

/// One resolved dependency of a source file.
#[derive(Debug, PartialEq)]
pub struct DependencyReport {
    pub reference: String,
    pub status: ResolutionResult,
}

/// The mathematical value of a [`DependencyReport`].
pub struct DepReportV {
    pub reference: Seq<char>,
    pub status: ResolutionResult,
}

impl DeepView for DependencyReport {
    type V = DepReportV;

    open spec fn deep_view(&self) -> DepReportV {
        DepReportV { reference: self.reference@, status: self.status }
    }
}

/// The report entry that resolving `r` yields.
pub open spec fn dep_report_spec(r: Seq<char>, current: Seq<FsEntry>, root: Seq<FsEntry>) -> DepReportV {
    DepReportV { reference: r, status: resolve_spec(r, current, root) }
}

/// The report entries for a list of references, in order.
pub open spec fn reports_of_refs(
    refs: Seq<Seq<char>>,
    current: Seq<FsEntry>,
    root: Seq<FsEntry>,
) -> Seq<DepReportV> {
    refs.map_values(|r: Seq<char>| dep_report_spec(r, current, root))
}

/// What resolving every reference of `content` yields: one entry per
/// `#include` line, in line order, each classified by the two-tier lookup.
pub open spec fn resolve_all_spec(
    content: Seq<char>,
    current: Seq<FsEntry>,
    root: Seq<FsEntry>,
) -> Seq<DepReportV> {
    reports_of_refs(extract_refs(content), current, root)
}

/// Extract every dependency reference of `content` and resolve each against
/// the source file's own directory (`current`) first, then the project root.
pub fn resolve_dependencies(content: &str, current: &Vec<FsEntry>, root: &Vec<FsEntry>) -> (reports:
    Vec<DependencyReport>)
    ensures
        reports.deep_view() == resolve_all_spec(content@, current@, root@),
{
    broadcast use Seq::lemma_push_map_commute;

    let refs = extract_dependencies(content);
    let ghost rseq = refs.deep_view();
    let mut reports: Vec<DependencyReport> = Vec::new();
    proof {
        assert(rseq.take(0) =~= Seq::<Seq<char>>::empty());
        assert(reports.deep_view() =~= reports_of_refs(rseq.take(0), current@, root@));
    }
    let n = refs.len();
    for i in 0..n
        invariant
            n == refs@.len(),
            rseq == refs.deep_view(),
            rseq == extract_refs(content@),
            reports.deep_view() == reports_of_refs(rseq.take(i as int), current@, root@),
    {
        let r = &refs[i];
        proof {
            assert(rseq[i as int] == r@);
            assert(rseq.take(i + 1) =~= rseq.take(i as int).push(r@));
        }
        let status = resolve_reference(r.as_str(), current, root);
        let ghost old_reports = reports.deep_view();
        reports.push(DependencyReport { reference: r.clone(), status });
        proof {
            assert(reports.deep_view() =~= old_reports.push(dep_report_spec(r@, current@, root@)));
        }
    }
    proof {
        assert(rseq.take(n as int) =~= rseq);
    }
    reports
}

} // verus!
