use vstd::prelude::*;
use crate::classify::OutputFolder;
use crate::config::SortConfig;

verus! {

/// The byte `/` that joins a folder name and a file name.
pub const PATH_SEPARATOR: u8 = 0x2f;

/// The name of an output folder under the given settings.
pub open spec fn spec_folder_name(config: &SortConfig, folder: OutputFolder) -> Seq<u8> {
    match folder {
        OutputFolder::Cpu => config.cpu_folder@,
        OutputFolder::Handwarmers => config.handwarmers_folder@,
    }
}

/// The name of an output folder.
pub fn folder_name<'a>(config: &'a SortConfig, folder: OutputFolder) -> (r: &'a Vec<u8>)
    ensures
        r@ == spec_folder_name(config, folder),
{
    match folder {
        OutputFolder::Cpu => &config.cpu_folder,
        OutputFolder::Handwarmers => &config.handwarmers_folder,
    }
}

/// Where a moved file lands: `<folder>/<file name>`. The file keeps its name
/// and leaves its directory behind.
pub fn destination_path(config: &SortConfig, folder: OutputFolder, file_name: &Vec<u8>) -> (r: Vec<
    u8,
>)
    ensures
        r@ == spec_folder_name(config, folder) + seq![PATH_SEPARATOR] + file_name@,
{
    let name = folder_name(config, folder);
    let mut path: Vec<u8> = Vec::new();
    let n = name.len();
    let mut i: usize = 0;
    while i < n
        invariant
            n == name@.len(),
            i <= n,
            path@ == name@.subrange(0, i as int),
        decreases n - i,
    {
        path.push(name[i]);
        i = i + 1;
    }
    path.push(PATH_SEPARATOR);
    let m = file_name.len();
    let mut j: usize = 0;
    while j < m
        invariant
            m == file_name@.len(),
            j <= m,
            path@ == name@ + seq![PATH_SEPARATOR] + file_name@.subrange(0, j as int),
        decreases m - j,
    {
        path.push(file_name[j]);
        j = j + 1;
    }
    assert(name@.subrange(0, n as int) =~= name@);
    assert(file_name@.subrange(0, m as int) =~= file_name@);
    path
}

} // verus!
