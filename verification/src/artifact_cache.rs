//! The cache of downloaded archives: a directory of regular files, each
//! named after the last segment of the address it came from.

use vstd::prelude::*;
use crate::paths::{join_path, join_spec};

verus! {

/// The directory that holds downloaded archives.
#[derive(Debug)]
pub struct ArtifactCache {
    pub dir: String,
}

/// One entry of a directory listing.
#[derive(Debug)]
pub struct DirEntryInfo {
    pub name: String,
    /// The entry is a regular file.
    pub is_file: bool,
}

/// The paths, below `dir`, of the regular files among `entries`, in their
/// order.
pub open spec fn files_below(dir: Seq<char>, entries: Seq<DirEntryInfo>) -> Seq<Seq<char>>
    decreases entries.len(),
{
    if entries.len() == 0 {
        Seq::empty()
    } else {
        let front = files_below(dir, entries.drop_last());
        if entries.last().is_file {
            front.push(join_spec(dir, entries.last().name@))
        } else {
            front
        }
    }
}

impl ArtifactCache {
    /// The cache kept in `dir`.
    pub fn new(dir: String) -> (r: Self)
        ensures
            r.dir == dir,
    {
        ArtifactCache { dir }
    }

    /// The directory of the cache.
    pub fn dir(&self) -> (r: &str)
        ensures
            r@ == self.dir@,
    {
        self.dir.as_str()
    }

    /// Whether the cache exists, given the listing of its directory:
    /// there is a listing exactly where the directory exists.
    pub fn is_present(&self, listing: Option<&Vec<DirEntryInfo>>) -> (r: bool)
        ensures
            r == listing is Some,
    {
        listing.is_some()
    }

    /// Where the archive with the given name is cached.
    pub fn cached_zip_path(&self, archive_name: &str) -> (r: String)
        ensures
            r@ == join_spec(self.dir@, archive_name@),
    {
        join_path(self.dir.as_str(), archive_name)
    }

    /// The files to delete to empty the cache: the regular files directly
    /// in its directory. Subdirectories and what they hold stay. Nothing
    /// where the directory does not exist.
    pub fn clear_files(&self, listing: Option<&Vec<DirEntryInfo>>) -> (r: Vec<String>)
        ensures
            crate::text::string_views(r@) == match listing {
                Some(entries) => files_below(self.dir@, entries@),
                None => Seq::empty(),
            },
    {
        let mut out: Vec<String> = Vec::new();
        match listing {
            None => {
                assert(crate::text::string_views(out@) =~= Seq::<Seq<char>>::empty());
            },
            Some(entries) => {
                let mut i: usize = 0;
                assert(entries@.take(0) =~= Seq::<DirEntryInfo>::empty());
                assert(crate::text::string_views(out@) =~= Seq::<Seq<char>>::empty());
                while i < entries.len()
                    invariant
                        i <= entries.len(),
                        crate::text::string_views(out@) == files_below(
                            self.dir@,
                            entries@.take(i as int),
                        ),
                    decreases entries.len() - i,
                {
                    let ghost before = crate::text::string_views(out@);
                    assert(entries@.take(i + 1).drop_last() =~= entries@.take(i as int));
                    assert(entries@.take(i + 1).last() == entries@[i as int]);
                    if entries[i].is_file {
                        let path = self.cached_zip_path(entries[i].name.as_str());
                        out.push(path);
                        assert(crate::text::string_views(out@) =~= before.push(
                            join_spec(self.dir@, entries@[i as int].name@),
                        ));
                    }
                    i = i + 1;
                }
                assert(entries@.take(i as int) =~= entries@);
            },
        }
        out
    }
}

} // verus!
