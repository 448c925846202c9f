//! A package on disk: its root directory and its manifest.

use vstd::prelude::*;
use vstd::string::*;
use crate::fetch::{join_path, joined_path};
use crate::manifest::Manifest;
use crate::text::{ends_with, has_suffix, lemma_split_text, split_on, split_text, texts};

verus! {

/// A package: the directory it lives in, and its manifest.
#[derive(Debug)]
pub struct Package {
    /// Package root directory
    pub root: String,
    /// Package manifest
    pub manifest: Manifest,
}

/// Whether a file of this name is a source file: its name ends in `.qm`
/// and holds more than that.
pub open spec fn source_file_name(name: Seq<char>) -> bool {
    name.len() > 3 && has_suffix(name, ".qm"@)
}

/// Whether a file of this name is a source file.
pub fn is_source_file(file_name: &str) -> (r: bool)
    ensures
        r == source_file_name(file_name@),
{
    proof {
        reveal_strlit(".qm");
    }
    file_name.unicode_len() > 3 && ends_with(file_name, ".qm")
}

/// The name of the file at `path`: what follows the last `/`.
pub open spec fn file_name(path: Seq<char>) -> Seq<char> {
    split_text(path, '/').last()
}

/// The paths among `paths` that lead to source files, in their order.
pub open spec fn source_paths(paths: Seq<Seq<char>>) -> Seq<Seq<char>>
    decreases paths.len(),
{
    if paths.len() == 0 {
        paths
    } else if source_file_name(file_name(paths.last())) {
        source_paths(paths.drop_last()).push(paths.last())
    } else {
        source_paths(paths.drop_last())
    }
}

/// Whether `path` leads to a source file.
pub fn is_source_path(path: &str) -> (r: bool)
    ensures
        r == source_file_name(file_name(path@)),
{
    let parts = split_on(path, '/');
    proof {
        lemma_split_text(path@, '/');
    }
    let last: usize = parts.len() - 1;
    assert(texts(parts@)[last as int] == parts@[last as int]@);
    is_source_file(parts[last].as_str())
}

impl Package {
    /// Get source directory
    pub fn src_dir(&self) -> (r: String)
        ensures
            r@ == joined_path(self.root@, "src"@),
    {
        join_path(self.root.as_str(), "src")
    }

    /// Get build directory
    pub fn build_dir(&self, release: bool) -> (r: String)
        ensures
            r@ == joined_path(
                joined_path(self.root@, "build"@),
                if release {
                    "release"@
                } else {
                    "debug"@
                },
            ),
    {
        let build = join_path(self.root.as_str(), "build");
        if release {
            join_path(build.as_str(), "release")
        } else {
            join_path(build.as_str(), "debug")
        }
    }

    /// Get all source files: of the files found below the source
    /// directory, whose paths are `found`, those that are source files.
    pub fn source_files(&self, found: Vec<String>) -> (r: Vec<String>)
        ensures
            texts(r@) == source_paths(texts(found@)),
    {
        let mut r: Vec<String> = Vec::new();
        let ghost all = texts(found@);
        let mut i: usize = 0;
        assert(all.subrange(0, 0) =~= Seq::<Seq<char>>::empty());
        assert(texts(r@) =~= source_paths(all.subrange(0, 0)));
        while i < found.len()
            invariant
                i <= found@.len(),
                all == texts(found@),
                texts(r@) == source_paths(all.subrange(0, i as int)),
            decreases found@.len() - i,
        {
            let ghost before = texts(r@);
            proof {
                let upto = all.subrange(0, i + 1);
                assert(upto.drop_last() =~= all.subrange(0, i as int));
                assert(upto.last() == found@[i as int]@);
            }
            if is_source_path(found[i].as_str()) {
                r.push(found[i].clone());
                assert(texts(r@) =~= before.push(found@[i as int]@));
            }
            i += 1;
        }
        assert(all.subrange(0, found@.len() as int) =~= all);
        r
    }

    /// The path of the package's manifest file.
    pub fn manifest_path(&self) -> (r: String)
        ensures
            r@ == joined_path(self.root@, "Quantum.toml"@),
    {
        join_path(self.root.as_str(), "Quantum.toml")
    }

    /// Get package name
    pub fn name(&self) -> (r: &str)
        ensures
            r@ == self.manifest@.package.name,
    {
        self.manifest.package.name.as_str()
    }

    /// Get package version
    pub fn version(&self) -> (r: &str)
        ensures
            r@ == self.manifest@.package.version,
    {
        self.manifest.package.version.as_str()
    }
}

} // verus!
