//! The layout of the tool's home directory. Paths are texts with `/`
//! between their parts.

use vstd::prelude::*;
use crate::text::{chars_of, push_str, string_of};

verus! {

/// `name` below the directory `base`: `name` itself where it is absolute
/// or `base` is empty, else `base`, one `/` between them, and `name`.
pub open spec fn join_spec(base: Seq<char>, name: Seq<char>) -> Seq<char> {
    if name.len() > 0 && name[0] == '/' {
        name
    } else if base.len() == 0 {
        name
    } else if base.last() == '/' {
        base + name
    } else {
        base + seq!['/'] + name
    }
}

/// The path of `name` below the directory `base`.
pub fn join_path(base: &str, name: &str) -> (r: String)
    ensures
        r@ == join_spec(base@, name@),
{
    let b = chars_of(base);
    let n = chars_of(name);
    if n.len() > 0 && n[0] == '/' {
        return string_of(n.as_slice());
    }
    if b.len() == 0 {
        return string_of(n.as_slice());
    }
    let mut out = chars_of(base);
    if b[b.len() - 1] != '/' {
        out.push('/');
    }
    push_str(&mut out, name);
    string_of(out.as_slice())
}

/// Where the tool keeps its files.
#[derive(Debug)]
pub struct GdvmPaths {
    pub base: String,
    pub installs: String,
    pub cache_dir: String,
    pub cache_index: String,
    pub bin_dir: String,
}

impl GdvmPaths {
    /// The layout below `base`: `installs`, `cache`, `cache.json` and
    /// `bin`.
    pub open spec fn laid_out_at(self, base: Seq<char>) -> bool {
        &&& self.base@ == base
        &&& self.installs@ == join_spec(base, "installs"@)
        &&& self.cache_dir@ == join_spec(base, "cache"@)
        &&& self.cache_index@ == join_spec(base, "cache.json"@)
        &&& self.bin_dir@ == join_spec(base, "bin"@)
    }

    /// The layout for a user whose home directory is `home`: everything
    /// lives below `<home>/.gdvm`.
    pub fn new(home: &str) -> (r: Self)
        ensures
            r.laid_out_at(join_spec(home@, ".gdvm"@)),
    {
        let base = join_path(home, ".gdvm");
        Self::from_base(base)
    }

    /// The layout below the given base directory.
    pub fn from_base(base: String) -> (r: Self)
        ensures
            r.laid_out_at(base@),
    {
        let installs = join_path(base.as_str(), "installs");
        let cache_dir = join_path(base.as_str(), "cache");
        let cache_index = join_path(base.as_str(), "cache.json");
        let bin_dir = join_path(base.as_str(), "bin");
        GdvmPaths { base, installs, cache_dir, cache_index, bin_dir }
    }

    /// The directories that must exist before the tool works: installs,
    /// archive cache and bin, in this order.
    pub fn required_directories(&self) -> (r: Vec<String>)
        ensures
            r@.len() == 3,
            r@[0]@ == self.installs@,
            r@[1]@ == self.cache_dir@,
            r@[2]@ == self.bin_dir@,
    {
        let mut out: Vec<String> = Vec::new();
        out.push(self.installs.clone());
        out.push(self.cache_dir.clone());
        out.push(self.bin_dir.clone());
        out
    }

    /// The base directory.
    pub fn base(&self) -> (r: &str)
        ensures
            r@ == self.base@,
    {
        self.base.as_str()
    }

    /// The directory that holds one directory per installed version.
    pub fn installs(&self) -> (r: &str)
        ensures
            r@ == self.installs@,
    {
        self.installs.as_str()
    }

    /// The directory that holds downloaded archives.
    pub fn cache_dir(&self) -> (r: &str)
        ensures
            r@ == self.cache_dir@,
    {
        self.cache_dir.as_str()
    }

    /// The cached metadata document.
    pub fn cache_index(&self) -> (r: &str)
        ensures
            r@ == self.cache_index@,
    {
        self.cache_index.as_str()
    }

    /// The directory that holds the tool, its shims and the default link.
    pub fn bin_dir(&self) -> (r: &str)
        ensures
            r@ == self.bin_dir@,
    {
        self.bin_dir.as_str()
    }

    /// The file that names the default version.
    pub fn default_file(&self) -> (r: String)
        ensures
            r@ == join_spec(self.base@, "default"@),
    {
        join_path(self.base.as_str(), "default")
    }

    /// The link to the directory of the default version.
    pub fn current_godot_symlink(&self) -> (r: String)
        ensures
            r@ == join_spec(self.bin_dir@, "current_godot"@),
    {
        join_path(self.bin_dir.as_str(), "current_godot")
    }

    /// The directory of the install with the given folder name.
    pub fn install_dir(&self, install_name: &str) -> (r: String)
        ensures
            r@ == join_spec(self.installs@, install_name@),
    {
        join_path(self.installs.as_str(), install_name)
    }

    /// The configuration file.
    pub fn config_file(&self) -> (r: String)
        ensures
            r@ == join_spec(self.base@, "config.toml"@),
    {
        join_path(self.base.as_str(), "config.toml")
    }
}

} // verus!
