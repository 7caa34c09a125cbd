//! The data directory of this tool, where fetched archives are unpacked.

use crate::platform::Platform;
use crate::seek::{file_name_of, join_path, path_parts, path_under};
use crate::text::{chars_of, is_word, string_of};
use vstd::prelude::*;

verus! {

/// The data directory of this tool under the user's local data directory.
pub open spec fn home_path(data_local_dir: Seq<char>, platform: Platform) -> Seq<char> {
    join_path(data_local_dir, "intel-mkl-tool"@, platform)
}

/// The data directory of this tool under the user's local data directory.
pub fn xdg_home_path(data_local_dir: &str, platform: Platform) -> (path: String)
    ensures
        path@ == home_path(data_local_dir@, platform),
{
    path_under(data_local_dir, "intel-mkl-tool", platform)
}

/// An entry of a directory, as plain values.
pub struct Entry {
    pub path: Seq<char>,
    pub is_dir: bool,
}

/// An entry of a directory: its path, and whether it is a directory.
#[derive(Debug, Clone, PartialEq, Eq)]
pub struct DirEntry {
    pub path: String,
    pub is_dir: bool,
}

impl View for DirEntry {
    type V = Entry;

    open spec fn view(&self) -> Entry {
        Entry { path: self.path@, is_dir: self.is_dir }
    }
}

/// What a vector of entries holds, as plain values.
pub open spec fn entries(v: Seq<DirEntry>) -> Seq<Entry> {
    v.map_values(|e: DirEntry| e@)
}

/// The name and the path of an entry that is an unpacked archive: a
/// directory whose path ends in a name.
pub open spec fn unpacked(entry: Entry, platform: Platform) -> Option<(Seq<char>, Seq<char>)> {
    let name = file_name_of(entry.path, platform);
    if entry.is_dir && name.len() > 0 && name != ".."@ {
        Some((name, entry.path))
    } else {
        None
    }
}

/// What a vector of pairs of strings holds, as plain values.
pub open spec fn pairs(v: Seq<(String, String)>) -> Seq<(Seq<char>, Seq<char>)> {
    v.map_values(|p: (String, String)| (p.0@, p.1@))
}

/// The unpacked archives in the data directory of this tool, each with its
/// name and its path, in the order of the entries. `found` holds the
/// entries of the directory; where the directory does not exist, it is
/// empty.
pub fn seek_xdg_home(found: &Vec<DirEntry>, platform: Platform) -> (dirs: Vec<(String, String)>)
    ensures
        pairs(dirs@) == entries(found@).filter_map(|e: Entry| unpacked(e, platform)),
{
    let ghost all = entries(found@);
    let ghost pick = |e: Entry| unpacked(e, platform);
    let mut dirs: Vec<(String, String)> = Vec::new();
    let mut i: usize = 0;
    assert(pairs(dirs@) =~= all.take(0).filter_map(pick));
    while i < found.len()
        invariant
            i <= found.len(),
            all == entries(found@),
            pick == |e: Entry| unpacked(e, platform),
            pairs(dirs@) == all.take(i as int).filter_map(pick),
        decreases found.len() - i,
    {
        proof {
            assert(all.take(i + 1).drop_last() =~= all.take(i as int));
            assert(all.take(i + 1).last() == found@[i as int]@);
        }
        let entry = &found[i];
        if entry.is_dir {
            let chars = chars_of(entry.path.as_str());
            let parts = path_parts(chars.as_slice(), platform);
            if parts.name.len() > 0 && !is_word(parts.name.as_slice(), "..") {
                let ghost before = pairs(dirs@);
                let name = string_of(parts.name.as_slice());
                dirs.push((name, entry.path.clone()));
                assert(pairs(dirs@) =~= before + seq![(name@, entry.path@)]);
            }
        }
        i = i + 1;
    }
    assert(all.take(i as int) =~= all);
    dirs
}

} // verus!
