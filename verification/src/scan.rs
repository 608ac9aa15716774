//! The traversal engine: walk a directory-tree snapshot depth-first, skip
//! hidden directories, and hand every file whose base name is a target to
//! the dependency resolver.

use vstd::prelude::*;
use crate::fstree::FsEntry;
use crate::resolve::DepReportV;
use crate::resolve::DependencyReport;
use crate::resolve::resolve_all_spec;
use crate::resolve::resolve_dependencies;

verus! {

/// The error kinds a scan can surface. None is recovered internally; a
/// missing dependency is a normal classification, not an error.
#[derive(Debug, Clone, Copy, PartialEq, Eq, Structural)]
pub enum DetectiveError {
    /// The supplied project root does not exist.
    RootNotFound,
    /// Reading a directory or a file failed.
    IoError,
    /// The configuration input was malformed.
    ConfigParseError,
}

/// The report for one scanned source file: its path below the project root,
/// as components, and its resolved dependencies in line order.
#[derive(Debug, PartialEq)]
pub struct FileReport {
    pub path: Vec<String>,
    pub dependencies: Vec<DependencyReport>,
}

/// The mathematical value of a [`FileReport`].
pub struct FileReportV {
    pub path: Seq<Seq<char>>,
    pub dependencies: Seq<DepReportV>,
}

impl DeepView for FileReport {
    type V = FileReportV;

    open spec fn deep_view(&self) -> FileReportV {
        FileReportV { path: self.path.deep_view(), dependencies: self.dependencies.deep_view() }
    }
}

/// A base name following the hidden-directory convention: it starts with a
/// dot.
pub open spec fn hidden_name(n: Seq<char>) -> bool {
    n.len() > 0 && n[0] == '.'
}

/// The reports that one entry of a directory contributes: a non-hidden
/// directory contributes its subtree's reports, a file whose name is a
/// target contributes its own report, and everything else contributes
/// nothing. `current` holds the entries of the directory the entry sits in;
/// `path` is that directory's path below the root.
pub open spec fn scan_entry_spec(
    root: Seq<FsEntry>,
    current: Seq<FsEntry>,
    e: FsEntry,
    targets: Seq<Seq<char>>,
    path: Seq<Seq<char>>,
) -> Seq<FileReportV>
    decreases e, 0int, 0int,
{
    match e {
        FsEntry::Dir { name, entries } => {
            if hidden_name(name@) {
                Seq::<FileReportV>::empty()
            } else {
                scan_dir_spec(root, entries, targets, path.push(name@), entries@.len() as int)
            }
        },
        FsEntry::File { name, content } => {
            if targets.contains(name@) {
                seq![
                    (FileReportV {
                        path: path.push(name@),
                        dependencies: resolve_all_spec(content@, current, root),
                    }),
                ]
            } else {
                Seq::<FileReportV>::empty()
            }
        },
        FsEntry::Other { .. } => Seq::<FileReportV>::empty(),
    }
}

/// The reports that the first `i` entries of a directory contribute, in
/// entry order.
pub open spec fn scan_dir_spec(
    root: Seq<FsEntry>,
    entries: Vec<FsEntry>,
    targets: Seq<Seq<char>>,
    path: Seq<Seq<char>>,
    i: int,
) -> Seq<FileReportV>
    decreases entries, 1int, i,
    via scan_dir_spec_decreases
{
    if 0 < i <= entries@.len() {
        scan_dir_spec(root, entries, targets, path, i - 1) + scan_entry_spec(
            root,
            entries@,
            entries@[i - 1],
            targets,
            path,
        )
    } else {
        Seq::<FileReportV>::empty()
    }
}

#[via_fn]
proof fn scan_dir_spec_decreases(
    root: Seq<FsEntry>,
    entries: Vec<FsEntry>,
    targets: Seq<Seq<char>>,
    path: Seq<Seq<char>>,
    i: int,
) {
    if 0 < i <= entries@.len() {
        assert(decreases_to!(entries => entries@));
        assert(decreases_to!(entries@ => entries@[i - 1]));
        assert(decreases_to!(entries, 1int, i => entries@[i - 1], 0int, 0int));
    }
}

/// Everything a full scan of the snapshot reports, in depth-first entry
/// order. A root that is not a directory reports nothing.
pub open spec fn scan_spec(root: FsEntry, targets: Seq<Seq<char>>) -> Seq<FileReportV> {
    match root {
        FsEntry::Dir { entries, .. } => scan_dir_spec(
            entries@,
            entries,
            targets,
            Seq::<Seq<char>>::empty(),
            entries@.len() as int,
        ),
        _ => Seq::<FileReportV>::empty(),
    }
}

/// Whether `full` extends `prefix` by at least one component, with no
/// hidden directory component strictly between (the last component is a
/// file's own base name, not a directory).
pub open spec fn clean_extension(full: Seq<Seq<char>>, prefix: Seq<Seq<char>>) -> bool {
    prefix.is_prefix_of(full) && prefix.len() < full.len() && (forall|j: int|
        prefix.len() <= j < full.len() - 1 ==> !hidden_name(full[j]))
}

/// Whether every report path in `reports` is a clean extension of `prefix`.
pub open spec fn all_clean(reports: Seq<FileReportV>, prefix: Seq<Seq<char>>) -> bool {
    forall|k: int| 0 <= k < reports.len() ==> clean_extension((#[trigger] reports[k]).path, prefix)
}

/// Every report that one entry contributes lies below the directory the
/// entry sits in, behind no hidden directory.
pub proof fn lemma_entry_reports_clean(
    root: Seq<FsEntry>,
    current: Seq<FsEntry>,
    e: FsEntry,
    targets: Seq<Seq<char>>,
    path: Seq<Seq<char>>,
)
    ensures
        all_clean(scan_entry_spec(root, current, e, targets, path), path),
    decreases e, 0int, 0int,
{
    let reports = scan_entry_spec(root, current, e, targets, path);
    match e {
        FsEntry::Dir { name, entries } => {
            if !hidden_name(name@) {
                let sub = path.push(name@);
                lemma_dir_reports_clean(root, entries, targets, sub, entries@.len() as int);
                assert forall|k: int| 0 <= k < reports.len() implies clean_extension(
                    (#[trigger] reports[k]).path,
                    path,
                ) by {
                    let full = reports[k].path;
                    assert(clean_extension(full, sub));
                    assert(sub =~= full.subrange(0, sub.len() as int));
                    assert(path =~= full.subrange(0, path.len() as int));
                    assert(sub[path.len() as int] == name@);
                    assert(full.subrange(0, sub.len() as int)[path.len() as int] == full[path.len()
                        as int]);
                    assert(full[path.len() as int] == name@);
                }
            }
        },
        FsEntry::File { name, .. } => {
            if targets.contains(name@) {
                assert forall|k: int| 0 <= k < reports.len() implies clean_extension(
                    (#[trigger] reports[k]).path,
                    path,
                ) by {
                    assert(path =~= path.push(name@).subrange(0, path.len() as int));
                }
            }
        },
        FsEntry::Other { .. } => {},
    }
}

/// Every report that a directory's first `i` entries contribute lies below
/// that directory, behind no hidden directory.
pub proof fn lemma_dir_reports_clean(
    root: Seq<FsEntry>,
    entries: Vec<FsEntry>,
    targets: Seq<Seq<char>>,
    path: Seq<Seq<char>>,
    i: int,
)
    ensures
        all_clean(scan_dir_spec(root, entries, targets, path, i), path),
    decreases entries, 1int, i,
{
    if 0 < i <= entries@.len() {
        lemma_dir_reports_clean(root, entries, targets, path, i - 1);
        assert(decreases_to!(entries => entries@));
        assert(decreases_to!(entries@ => entries@[i - 1]));
        lemma_entry_reports_clean(root, entries@, entries@[i - 1], targets, path);
        let a = scan_dir_spec(root, entries, targets, path, i - 1);
        let b = scan_entry_spec(root, entries@, entries@[i - 1], targets, path);
        assert forall|k: int| 0 <= k < (a + b).len() implies clean_extension(
            (#[trigger] (a + b)[k]).path,
            path,
        ) by {
            if k < a.len() {
                assert((a + b)[k] == a[k]);
            } else {
                assert((a + b)[k] == b[k - a.len()]);
            }
        }
    }
}

/// A hidden directory (base name starting with `.`) and its entire subtree
/// are never visited or reported: in every reported path, every component
/// but the last names a non-hidden directory, and the last is the scanned
/// file's own base name.
pub proof fn lemma_hidden_never_reported(root: FsEntry, targets: Seq<Seq<char>>)
    ensures
        all_clean(scan_spec(root, targets), Seq::<Seq<char>>::empty()),
{
    match root {
        FsEntry::Dir { entries, .. } => {
            lemma_dir_reports_clean(
                entries@,
                entries,
                targets,
                Seq::<Seq<char>>::empty(),
                entries@.len() as int,
            );
        },
        _ => {},
    }
}

/// Scanning an unchanged snapshot twice yields identical classification
/// results: the scan's outcome is a function of the snapshot and the
/// targets alone.
pub proof fn lemma_scan_idempotent(
    root: FsEntry,
    targets: Seq<Seq<char>>,
    first: Seq<FileReportV>,
    second: Seq<FileReportV>,
)
    requires
        first == scan_spec(root, targets),
        second == scan_spec(root, targets),
    ensures
        first == second,
{
}

/// Executable counterpart of [`hidden_name`].
pub fn is_hidden(name: &String) -> (r: bool)
    ensures
        r == hidden_name(name@),
{
    let s = name.as_str();
    s.unicode_len() > 0 && s.get_char(0) == '.'
}

/// Whether `name` is one of `names`.
pub fn contains_name(names: &Vec<String>, name: &String) -> (r: bool)
    ensures
        r == names.deep_view().contains(name@),
{
    let n = names.len();
    for i in 0..n
        invariant
            n == names@.len(),
            forall|j: int| 0 <= j < i ==> names.deep_view()[j] != name@,
    {
        if names[i].eq(name) {
            assert(names.deep_view()[i as int] == name@);
            return true;
        }
    }
    false
}

/// A fresh copy of a list of names, equal piece for piece.
pub fn copy_names(names: &Vec<String>) -> (r: Vec<String>)
    ensures
        r.deep_view() == names.deep_view(),
{
    let mut r: Vec<String> = Vec::new();
    let n = names.len();
    proof {
        assert(r.deep_view() =~= names.deep_view().take(0));
    }
    for i in 0..n
        invariant
            n == names@.len(),
            r.deep_view() == names.deep_view().take(i as int),
    {
        let ghost old_r = r.deep_view();
        r.push(names[i].clone());
        proof {
            assert(r.deep_view() =~= old_r.push(names.deep_view()[i as int]));
            assert(r.deep_view() =~= names.deep_view().take(i + 1));
        }
    }
    proof {
        assert(names.deep_view().take(n as int) =~= names.deep_view());
    }
    r
}

/// Scan one directory entry, appending its reports to `out`. `current`
/// holds the entries of the directory that `e` sits in; `path` is that
/// directory's path below the root and is handed back unchanged.
pub fn scan_entry(
    root: &Vec<FsEntry>,
    current: &Vec<FsEntry>,
    e: &FsEntry,
    targets: &Vec<String>,
    path: &mut Vec<String>,
    out: &mut Vec<FileReport>,
)
    ensures
        final(path)@ == old(path)@,
        final(out).deep_view() == old(out).deep_view() + scan_entry_spec(
            root@,
            current@,
            *e,
            targets.deep_view(),
            old(path).deep_view(),
        ),
    decreases *e, 0int, 0int,
{
    match e {
        FsEntry::Dir { name, entries } => {
            if !is_hidden(name) {
                path.push(name.clone());
                proof {
                    assert(path.deep_view() =~= old(path).deep_view().push(name@));
                }
                scan_dir(root, entries, targets, path, out);
                let _popped = path.pop();
                proof {
                    assert(path@ =~= old(path)@);
                    assert(out.deep_view() =~= old(out).deep_view() + scan_entry_spec(
                        root@,
                        current@,
                        *e,
                        targets.deep_view(),
                        old(path).deep_view(),
                    ));
                }
            } else {
                proof {
                    assert(out.deep_view() =~= old(out).deep_view() + Seq::<
                        FileReportV,
                    >::empty());
                }
            }
        },
        FsEntry::File { name, content } => {
            if contains_name(targets, name) {
                let deps = resolve_dependencies(content.as_str(), current, root);
                let mut report_path = copy_names(path);
                report_path.push(name.clone());
                proof {
                    assert(report_path.deep_view() =~= old(path).deep_view().push(name@));
                }
                let ghost out0 = out.deep_view();
                out.push(FileReport { path: report_path, dependencies: deps });
                proof {
                    assert(out.deep_view() =~= out0 + scan_entry_spec(
                        root@,
                        current@,
                        *e,
                        targets.deep_view(),
                        old(path).deep_view(),
                    ));
                }
            } else {
                proof {
                    assert(out.deep_view() =~= old(out).deep_view() + Seq::<
                        FileReportV,
                    >::empty());
                }
            }
        },
        FsEntry::Other { .. } => {
            proof {
                assert(out.deep_view() =~= old(out).deep_view() + Seq::<FileReportV>::empty());
            }
        },
    }
}

/// Scan every entry of a directory in order, appending the reports to
/// `out`. `path` is the directory's path below the root and is handed back
/// unchanged.
pub fn scan_dir(
    root: &Vec<FsEntry>,
    entries: &Vec<FsEntry>,
    targets: &Vec<String>,
    path: &mut Vec<String>,
    out: &mut Vec<FileReport>,
)
    ensures
        final(path)@ == old(path)@,
        final(out).deep_view() == old(out).deep_view() + scan_dir_spec(
            root@,
            *entries,
            targets.deep_view(),
            old(path).deep_view(),
            entries@.len() as int,
        ),
    decreases *entries, 1int, 0int,
{
    let n = entries.len();
    proof {
        assert(out.deep_view() =~= old(out).deep_view() + scan_dir_spec(
            root@,
            *entries,
            targets.deep_view(),
            old(path).deep_view(),
            0,
        ));
    }
    for i in 0..n
        invariant
            n == entries@.len(),
            path@ == old(path)@,
            out.deep_view() == old(out).deep_view() + scan_dir_spec(
                root@,
                *entries,
                targets.deep_view(),
                old(path).deep_view(),
                i as int,
            ),
    {
        scan_entry(root, entries, &entries[i], targets, path, out);
        proof {
            assert(out.deep_view() =~= old(out).deep_view() + scan_dir_spec(
                root@,
                *entries,
                targets.deep_view(),
                old(path).deep_view(),
                i + 1,
            ));
        }
    }
}

/// Run a whole scan over a snapshot of the project root.
///
/// An absent root aborts with `RootNotFound` before anything is visited; a
/// root that is not a directory cannot be listed and aborts with `IoError`.
/// Otherwise the result holds one report per scanned source file, in
/// depth-first entry order, exactly as [`scan_spec`] says.
pub fn run_scan(root: Option<&FsEntry>, targets: &Vec<String>) -> (r: Result<
    Vec<FileReport>,
    DetectiveError,
>)
    requires
        targets@.len() > 0,
    ensures
        match root {
            None => r == Err::<Vec<FileReport>, DetectiveError>(DetectiveError::RootNotFound),
            Some(e) => match e {
                FsEntry::Dir { .. } => r is Ok && r->Ok_0.deep_view() == scan_spec(
                    *e,
                    targets.deep_view(),
                ),
                _ => r == Err::<Vec<FileReport>, DetectiveError>(DetectiveError::IoError),
            },
        },
{
    match root {
        None => Err(DetectiveError::RootNotFound),
        Some(e) => match e {
            FsEntry::Dir { name: _, entries } => {
                let mut out: Vec<FileReport> = Vec::new();
                let mut path: Vec<String> = Vec::new();
                proof {
                    assert(out.deep_view() =~= Seq::<FileReportV>::empty());
                    assert(path.deep_view() =~= Seq::<Seq<char>>::empty());
                }
                scan_dir(entries, entries, targets, &mut path, &mut out);
                proof {
                    assert(out.deep_view() =~= scan_spec(*e, targets.deep_view()));
                }
                Ok(out)
            },
            _ => Err(DetectiveError::IoError),
        },
    }
}

} // verus!
