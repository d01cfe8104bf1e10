//! Batch image-shrinking engine: a worker-pool model with a deterministic
//! shutdown protocol, a batch orchestrator that plans output directories and
//! jobs, per-item progress state with run-scoped aggregate totals, and the
//! configuration helpers (dimension parsing, percentages, file filtering)
//! that drive it.
use vstd::prelude::*;

pub mod batch;
pub mod filesystem;
pub mod resizer;
pub mod threadpool;
pub mod utils;

use crate::utils::{Dimensions, Resize};

verus! {

/// The user-editable configuration captured once per run.
pub struct Settings {
    pub dimensions: Dimensions,
    pub resize_method: Resize,
    pub dimensions_relative: u32,
    pub change_dimensions: bool,
    pub compression_quality: usize,
    pub output_folder_name: String,
    pub output_folder_parent_dir_path: Option<String>,
    pub output_folder_parent_dir_path_enabled: bool,
    pub light_mode: bool,
}

impl Default for Settings {
    /// The stock configuration: shrink to half size, quality 85, results
    /// under a `_rshrinked` folder beside the sources.
    fn default() -> (r: Settings)
        ensures
            r.dimensions.width == 1920,
            r.dimensions.height == 1080,
            r.resize_method == Resize::Relative,
            r.dimensions_relative == 50,
            r.change_dimensions,
            r.compression_quality == 85,
            r.output_folder_name@ == "_rshrinked"@,
            r.output_folder_parent_dir_path is None,
            !r.output_folder_parent_dir_path_enabled,
            !r.light_mode,
    {
        Settings {
            dimensions: Dimensions::default(),
            resize_method: Resize::Relative,
            dimensions_relative: 50,
            change_dimensions: true,
            compression_quality: 85,
            output_folder_name: String::from_str("_rshrinked"),
            output_folder_parent_dir_path: None,
            output_folder_parent_dir_path_enabled: false,
            light_mode: false,
        }
    }
}

/// A file's size before the run and its last known size after it. `new`
/// starts equal to `original` and is overwritten when a job succeeds.
pub struct FileSize {
    pub original: u64,
    pub new: u64,
}

impl FileSize {
    pub fn new(original: u64) -> (r: FileSize)
        ensures
            r.original == original,
            r.new == original,
    {
        FileSize { original, new: original }
    }
}

/// Whether position `i` holds the last `/` of `s`.
pub open spec fn is_last_slash(s: Seq<char>, i: int) -> bool {
    &&& 0 <= i < s.len()
    &&& s[i] == '/'
    &&& forall|j: int| i < j < s.len() ==> #[trigger] s[j] != '/'
}

/// Whether `s` holds a `/` at all.
pub open spec fn has_slash(s: Seq<char>) -> bool {
    exists|i: int| 0 <= i < s.len() && #[trigger] s[i] == '/'
}

/// One selected file plus its mutable progress state. Exactly one worker
/// reports the outcome for a given item, exactly once per run; any number
/// of pollers read `done` and `failed`.
pub struct SelectedFile {
    pub path: String,
    pub parent_folder: String,
    pub name: String,
    pub size: FileSize,
    pub done: bool,
    pub failed: bool,
}

impl SelectedFile {
    /// Builds the record for one selected file from its path and its size
    /// in bytes. The path splits at its last `/` into the parent folder and
    /// the file name; a path without `/` is a bare name with an empty
    /// parent. Returns `None` when the file name would be empty.
    pub fn new(path: String, size: u64) -> (r: Option<SelectedFile>)
        ensures
            match r {
                Some(f) => {
                    &&& f.path@ == path@
                    &&& f.size.original == size
                    &&& f.size.new == size
                    &&& !f.done
                    &&& !f.failed
                    &&& if has_slash(path@) {
                        exists|i: int|
                            #[trigger] is_last_slash(path@, i) && i + 1 < path@.len()
                                && f.parent_folder@ == path@.subrange(0, i) && f.name@
                                == path@.subrange(i + 1, path@.len() as int)
                    } else {
                        path@.len() > 0 && f.parent_folder@ == Seq::<char>::empty() && f.name@
                            == path@
                    }
                },
                None => path@.len() == 0 || exists|i: int|
                    #[trigger] is_last_slash(path@, i) && i + 1 == path@.len(),
            },
    {
        let n = path.as_str().unicode_len();
        let mut last: Option<usize> = None;
        let mut i: usize = 0;
        while i < n
            invariant
                0 <= i <= n,
                n == path@.len(),
                match last {
                    Some(k) => k < i && path@[k as int] == '/' && forall|j: int|
                        k < j < i ==> #[trigger] path@[j] != '/',
                    None => forall|j: int| 0 <= j < i ==> #[trigger] path@[j] != '/',
                },
            decreases n - i,
        {
            if path.as_str().get_char(i) == '/' {
                last = Some(i);
            }
            i = i + 1;
        }
        match last {
            Some(k) => {
                proof {
                    assert(is_last_slash(path@, k as int));
                }
                if k + 1 == n {
                    return None;
                }
                let parent = String::from_str(path.as_str().substring_char(0, k));
                let name = String::from_str(path.as_str().substring_char(k + 1, n));
                Some(
                    SelectedFile {
                        parent_folder: parent,
                        name,
                        path,
                        size: FileSize::new(size),
                        done: false,
                        failed: false,
                    },
                )
            },
            None => {
                if n == 0 {
                    return None;
                }
                let parent = String::new();
                let name = String::from_str(path.as_str());
                Some(
                    SelectedFile {
                        parent_folder: parent,
                        name,
                        path,
                        size: FileSize::new(size),
                        done: false,
                        failed: false,
                    },
                )
            },
        }
    }
}

} // verus!
