//! A point-in-time snapshot of the directory entries the dispatcher may
//! probe, and the two queries the resolution algorithm needs: look one path
//! up, and list the children of a directory.
//!
//! The snapshot is plain data handed in by the caller; looking a path up
//! that is not in the snapshot simply reports absence, and listing a path
//! with no recorded children yields an empty list.

use vstd::prelude::*;

use crate::models::EntryModel;
use crate::models::FileSystemEntry;

verus! {

/// The full path of a directory child: the parent path, a separator, and
/// the child's name.
pub open spec fn child_path(parent: Seq<char>, name: Seq<char>) -> Seq<char> {
    parent + "/"@ + name
}

/// The first entry of `entries` whose path is `path`, if any.
pub open spec fn spec_lookup(entries: Seq<EntryModel>, path: Seq<char>) -> Option<EntryModel>
    decreases entries.len(),
{
    if entries.len() == 0 {
        None
    } else if entries[0].path == path {
        Some(entries[0])
    } else {
        spec_lookup(entries.drop_first(), path)
    }
}

/// The entries of `entries` that are direct children of `parent`, in
/// snapshot order.
pub open spec fn spec_children(entries: Seq<EntryModel>, parent: Seq<char>) -> Seq<EntryModel> {
    entries.filter(|e: EntryModel| e.path == child_path(parent, e.name))
}

/// A snapshot of every filesystem object relevant to one resolution pass.
pub struct FileSystem {
    pub entries: Vec<FileSystemEntry>,
}

impl View for FileSystem {
    type V = Seq<EntryModel>;

    open spec fn view(&self) -> Seq<EntryModel> {
        self.entries.deep_view()
    }
}

impl FileSystem {
    /// A well-formed snapshot records each path at most once.
    pub open spec fn wf(&self) -> bool {
        forall|i: int, j: int|
            0 <= i < j < self@.len() ==> self@[i].path != self@[j].path
    }

    /// Looks a single path up in the snapshot. The entry may be a file or a
    /// directory; a path the snapshot does not hold is reported as absent.
    pub fn get_entry(&self, path: &String) -> (r: Option<FileSystemEntry>)
        ensures
            r.deep_view() == spec_lookup(self@, path@),
    {
        let n = self.entries.len();
        let mut i: usize = 0;
        assert(self@.skip(0) == self@);
        while i < n
            invariant
                0 <= i <= n,
                n == self.entries.len(),
                spec_lookup(self@, path@) == spec_lookup(self@.skip(i as int), path@),
            decreases n - i,
        {
            assert(self@.skip(i as int)[0] == self@[i as int]);
            assert(self@.skip(i as int).drop_first() == self@.skip(i as int + 1));
            if self.entries[i].path == *path {
                return Some(self.entries[i].duplicate());
            }
            i = i + 1;
        }
        None
    }

    /// Lists the direct children of `parent` recorded in the snapshot, in
    /// snapshot order. A path with no recorded children yields an empty
    /// list.
    pub fn get_directory_entries(&self, parent: &String) -> (r: Vec<FileSystemEntry>)
        ensures
            r.deep_view() == spec_children(self@, parent@),
    {
        let ghost pred = |e: EntryModel| e.path == child_path(parent@, e.name);
        let n = self.entries.len();
        let mut r: Vec<FileSystemEntry> = Vec::new();
        let mut i: usize = 0;
        proof {
            reveal(Seq::filter);
        }
        assert(self@.take(0).filter(pred) =~= Seq::<EntryModel>::empty());
        assert(r.deep_view() =~= Seq::<EntryModel>::empty());
        while i < n
            invariant
                0 <= i <= n,
                n == self.entries.len(),
                r.deep_view() == self@.take(i as int).filter(pred),
                pred == (|e: EntryModel| e.path == child_path(parent@, e.name)),
            decreases n - i,
        {
            let mut candidate = parent.clone();
            candidate.append("/");
            candidate.append(self.entries[i].name.as_str());
            assert(candidate@ == child_path(parent@, self@[i as int].name));
            proof {
                reveal(Seq::filter);
                assert(self@.take(i as int + 1).drop_last() =~= self@.take(i as int));
                assert(self@.take(i as int + 1).last() == self@[i as int]);
            }
            if candidate == self.entries[i].path {
                let e = self.entries[i].duplicate();
                r.push(e);
                assert(r.deep_view() =~= self@.take(i as int).filter(pred).push(self@[i as int]));
                assert(self@.take(i as int + 1).filter(pred) == self@.take(i as int).filter(
                    pred,
                ).push(self@[i as int]));
            } else {
                assert(self@.take(i as int + 1).filter(pred) == self@.take(i as int).filter(pred));
            }
            i = i + 1;
        }
        assert(self@.take(n as int) =~= self@);
        r
    }
}

} // verus!
