use vstd::prelude::*;
use crate::config::SortConfig;

verus! {

/// What the sorter reads of one path met while walking a directory tree.
pub struct ScanEntry {
    /// The path's components, each as raw bytes.
    pub components: Vec<Vec<u8>>,
    /// The extension of the path's file name (without the dot), where it has one.
    pub extension: Option<Vec<u8>>,
    /// The path names a regular file.
    pub is_file: bool,
}

impl ScanEntry {
    /// The components as byte sequences.
    pub open spec fn components_view(&self) -> Seq<Seq<u8>> {
        self.components@.map_values(|c: Vec<u8>| c@)
    }

    /// Some component of the path is exactly `name`.
    pub open spec fn has_component(&self, name: Seq<u8>) -> bool {
        exists|i: int| 0 <= i < self.components@.len() && self.components@[i]@ == name
    }
}

/// The path is a replay to sort: a regular file with the replay extension,
/// inside neither output folder.
pub open spec fn spec_is_replay_candidate(entry: &ScanEntry, config: &SortConfig) -> bool {
    &&& entry.is_file
    &&& entry.extension is Some
    &&& entry.extension->Some_0@ == config.extension@
    &&& !entry.has_component(config.cpu_folder@)
    &&& !entry.has_component(config.handwarmers_folder@)
}

/// Tells whether two byte strings are equal.
pub fn bytes_equal(a: &Vec<u8>, b: &Vec<u8>) -> (r: bool)
    ensures
        r == (a@ == b@),
{
    if a.len() != b.len() {
        return false;
    }
    let n = a.len();
    let mut i: usize = 0;
    while i < n
        invariant
            n == a@.len(),
            n == b@.len(),
            i <= n,
            forall|j: int| 0 <= j < i ==> a@[j] == b@[j],
        decreases n - i,
    {
        if a[i] != b[i] {
            return false;
        }
        i = i + 1;
    }
    assert(a@ =~= b@);
    true
}

/// Tells whether some component of the entry's path is exactly `name`. A
/// component that only contains `name` does not count.
pub fn has_component(entry: &ScanEntry, name: &Vec<u8>) -> (r: bool)
    ensures
        r == entry.has_component(name@),
{
    let n = entry.components.len();
    let mut i: usize = 0;
    while i < n
        invariant
            n == entry.components@.len(),
            i <= n,
            forall|j: int| 0 <= j < i ==> entry.components@[j]@ != name@,
        decreases n - i,
    {
        if bytes_equal(&entry.components[i], name) {
            return true;
        }
        i = i + 1;
    }
    false
}

/// Tells whether a scanned path is a replay to sort.
pub fn is_replay_candidate(entry: &ScanEntry, config: &SortConfig) -> (r: bool)
    ensures
        r == spec_is_replay_candidate(entry, config),
{
    if !entry.is_file {
        return false;
    }
    match &entry.extension {
        None => false,
        Some(ext) => {
            bytes_equal(ext, &config.extension) && !has_component(entry, &config.cpu_folder)
                && !has_component(entry, &config.handwarmers_folder)
        },
    }
}

/// The positions, in order, of the scanned paths that are replays to sort:
/// each regular file with the replay extension is kept, and every path with
/// an output folder's name as one of its components is left out.
pub fn get_all_slps_paths(entries: &Vec<ScanEntry>, config: &SortConfig) -> (r: Vec<usize>)
    ensures
        forall|k: int|
            0 <= k < r@.len() ==> r@[k] < entries@.len() && spec_is_replay_candidate(
                &entries@[r@[k] as int],
                config,
            ),
        forall|k: int, l: int| 0 <= k < l < r@.len() ==> r@[k] < r@[l],
        forall|i: int|
            0 <= i < entries@.len() && spec_is_replay_candidate(&entries@[i], config) ==> exists|
                k: int,
            |
                0 <= k < r@.len() && r@[k] == i,
{
    let n = entries.len();
    let mut kept: Vec<usize> = Vec::new();
    let mut i: usize = 0;
    while i < n
        invariant
            n == entries@.len(),
            i <= n,
            forall|k: int|
                0 <= k < kept@.len() ==> kept@[k] < i && spec_is_replay_candidate(
                    &entries@[kept@[k] as int],
                    config,
                ),
            forall|k: int, l: int| 0 <= k < l < kept@.len() ==> kept@[k] < kept@[l],
            forall|j: int|
                0 <= j < i && spec_is_replay_candidate(&entries@[j], config) ==> exists|k: int|
                    0 <= k < kept@.len() && kept@[k] == j,
        decreases n - i,
    {
        let ghost before = kept@;
        if is_replay_candidate(&entries[i], config) {
            kept.push(i);
            assert(kept@[kept@.len() - 1] == i);
        }
        assert forall|j: int|
            0 <= j < i + 1 && spec_is_replay_candidate(&entries@[j], config) implies exists|k: int|
                0 <= k < kept@.len() && kept@[k] == j by {
            if j < i {
                let k = choose|k: int| 0 <= k < before.len() && before[k] == j;
                assert(kept@[k] == j);
            } else {
                assert(kept@[kept@.len() - 1] == j);
            }
        }
        i = i + 1;
    }
    kept
}

} // verus!
