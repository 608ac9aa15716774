//! Snapshot model of a directory tree, and existence lookup within it.
//!
//! A scan never touches the filesystem itself: the caller hands it an
//! `FsEntry` snapshot of the project root, and every existence question the
//! resolver asks is answered against that snapshot.

use vstd::prelude::*;

verus! {

/// One entry of a directory-tree snapshot.
///
/// `Other` stands for an entry that exists on disk but is neither a
/// directory nor a regular file (a device, a broken link); the traversal
/// ignores such entries, but they still count as existing for resolution.
#[derive(Debug, PartialEq)]
pub enum FsEntry {
    Dir { name: String, entries: Vec<FsEntry> },
    File { name: String, content: String },
    Other { name: String },
}

impl FsEntry {
    /// The base name of this entry, as a sequence of characters.
    pub open spec fn name_chars(&self) -> Seq<char> {
        match self {
            FsEntry::Dir { name, .. } => name@,
            FsEntry::File { name, .. } => name@,
            FsEntry::Other { name, .. } => name@,
        }
    }
}

/// Whether a (non-empty) relative path, given as its components, leads to an
/// existing entry when resolved against this particular entry.
pub open spec fn entry_matches(e: FsEntry, path: Seq<Seq<char>>) -> bool
    decreases path.len(), 0int,
{
    path.len() > 0 && e.name_chars() == path[0] && match e {
        FsEntry::Dir { entries, .. } => path.len() == 1 || path_exists(entries@, path.skip(1)),
        _ => path.len() == 1,
    }
}

/// Whether a relative path, given as its components, leads to an existing
/// entry inside a directory with the given entries. The empty path names the
/// directory itself, which exists.
pub open spec fn path_exists(entries: Seq<FsEntry>, path: Seq<Seq<char>>) -> bool
    decreases path.len(), 1int,
{
    path.len() == 0 || exists|i: int| 0 <= i < entries.len() && entry_matches(entries[i], path)
}

/// Existence test against the snapshot: does `path[from..]` lead to an entry
/// inside a directory with the given entries?
pub fn lookup(entries: &Vec<FsEntry>, path: &Vec<String>, from: usize) -> (found: bool)
    requires
        from <= path@.len(),
    ensures
        found == path_exists(entries@, path.deep_view().skip(from as int)),
    decreases path@.len() - from,
{
    let ghost p = path.deep_view().skip(from as int);
    let plen = path.len();
    if from == plen {
        return true;
    }
    let n = entries.len();
    for i in 0..n
        invariant
            n == entries@.len(),
            plen == path@.len(),
            from < plen,
            p == path.deep_view().skip(from as int),
            forall|j: int| 0 <= j < i ==> !entry_matches(entries@[j], p),
    {
        match &entries[i] {
            FsEntry::Dir { name, entries: sub } => {
                if name.eq(&path[from]) {
                    if from + 1 == plen {
                        assert(entry_matches(entries@[i as int], p));
                        return true;
                    }
                    let deeper = lookup(sub, path, from + 1);
                    proof {
                        assert(p.skip(1) =~= path.deep_view().skip(from + 1 as int));
                    }
                    if deeper {
                        assert(entry_matches(entries@[i as int], p));
                        return true;
                    }
                    assert(!entry_matches(entries@[i as int], p));
                } else {
                    assert(!entry_matches(entries@[i as int], p));
                }
            },
            FsEntry::File { name, .. } => {
                if name.eq(&path[from]) && from + 1 == plen {
                    assert(entry_matches(entries@[i as int], p));
                    return true;
                }
                assert(!entry_matches(entries@[i as int], p));
            },
            FsEntry::Other { name } => {
                if name.eq(&path[from]) && from + 1 == plen {
                    assert(entry_matches(entries@[i as int], p));
                    return true;
                }
                assert(!entry_matches(entries@[i as int], p));
            },
        }
    }
    false
}

} // verus!
