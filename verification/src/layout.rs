//! Where things live on disk: the install prefix, the version cache, the
//! `bin` link and the marker of the active version.
use vstd::prelude::*;

use crate::text::{chars_of, str_eq, string_of, trim, trim_chars};

verus! {

/// A file-system path: a root as written (from the environment or the home
/// directory) followed by components, each joined on with `Path::join`.
#[derive(Debug)]
pub struct FsPath {
    pub root: String,
    pub parts: Vec<String>,
}

impl View for FsPath {
    type V = (Seq<char>, Seq<Seq<char>>);

    open spec fn view(&self) -> (Seq<char>, Seq<Seq<char>>) {
        (self.root@, self.parts@.map_values(|p: String| p@))
    }
}

/// `p` with the component `c` appended.
pub open spec fn join_spec(p: (Seq<char>, Seq<Seq<char>>), c: Seq<char>) -> (
    Seq<char>,
    Seq<Seq<char>>,
) {
    (p.0, p.1.push(c))
}

impl FsPath {
    /// A path that is just a root.
    pub fn from_root(root: String) -> (p: FsPath)
        ensures
            p@ == (root@, Seq::<Seq<char>>::empty()),
    {
        let p = FsPath { root, parts: Vec::new() };
        assert(p@.1 =~= Seq::<Seq<char>>::empty());
        p
    }

    /// A copy of this path.
    pub fn duplicate(&self) -> (p: FsPath)
        ensures
            p@ == self@,
    {
        let mut parts: Vec<String> = Vec::new();
        let mut i: usize = 0;
        while i < self.parts.len()
            invariant
                i <= self.parts.len(),
                parts.len() == i,
                forall|j: int| 0 <= j < i ==> (#[trigger] parts@[j])@ == self.parts@[j]@,
            decreases self.parts.len() - i,
        {
            parts.push(self.parts[i].clone());
            i = i + 1;
        }
        let p = FsPath { root: self.root.clone(), parts };
        assert(p@.1 =~= self@.1);
        p
    }

    /// `Path::join`: this path with one more component.
    pub fn join(&self, part: &str) -> (p: FsPath)
        ensures
            p@ == join_spec(self@, part@),
    {
        let mut p = self.duplicate();
        p.parts.push(String::from_str(part));
        assert(p@.1 =~= self@.1.push(part@));
        p
    }
}

/// `Path::exists` on the path, following symbolic links.
///
/// What it returns depends on the file system at the time of the call, so
/// nothing is stated of it.
#[verifier::external_body]
pub(crate) fn path_exists(p: &FsPath) -> bool {
    let mut buf = std::path::PathBuf::from(&p.root);
    for part in p.parts.iter() {
        buf.push(part);
    }
    buf.exists()
}

/// The installation prefix: `$R_PREFIX`, or `.r` under the home directory
/// (under `/tmp` when there is no home directory).
pub open spec fn prefix_spec(env_prefix: Option<Seq<char>>, home: Option<Seq<char>>) -> (
    Seq<char>,
    Seq<Seq<char>>,
) {
    match env_prefix {
        Some(p) => (p, Seq::empty()),
        None => match home {
            Some(h) => (h, seq![".r"@]),
            None => ("/tmp"@, seq![".r"@]),
        },
    }
}

/// Installation prefix: `$R_PREFIX` or `~/.r`. `env_prefix` is the value of
/// `R_PREFIX` when it is set to valid Unicode; `home` is the home directory.
pub fn prefix(env_prefix: Option<String>, home: Option<String>) -> (p: FsPath)
    ensures
        p@ == prefix_spec(
            match env_prefix {
                Some(s) => Some(s@),
                None => None,
            },
            match home {
                Some(s) => Some(s@),
                None => None,
            },
        ),
{
    match env_prefix {
        Some(e) => FsPath::from_root(e),
        None => {
            let root = match home {
                Some(h) => h,
                None => String::from_str("/tmp"),
            };
            let p = FsPath::from_root(root).join(".r");
            assert(p@.1 =~= seq![".r"@]);
            p
        },
    }
}

/// The bin symlink directory: `{prefix}/bin`.
pub fn bin_dir(prefix: &FsPath) -> (p: FsPath)
    ensures
        p@ == join_spec(prefix@, "bin"@),
{
    prefix.join("bin")
}

/// The file that records the active version: `{prefix}/.active`.
pub fn active_marker(prefix: &FsPath) -> (p: FsPath)
    ensures
        p@ == join_spec(prefix@, ".active"@),
{
    prefix.join(".active")
}

/// The root cache directory: `$R_CACHE_DIR`, or `versions` under the prefix.
pub open spec fn cache_dir_spec(
    env_cache_dir: Option<Seq<char>>,
    prefix: (Seq<char>, Seq<Seq<char>>),
) -> (Seq<char>, Seq<Seq<char>>) {
    match env_cache_dir {
        Some(d) => (d, Seq::empty()),
        None => join_spec(prefix, "versions"@),
    }
}

/// Root cache directory: `$R_CACHE_DIR` or `$R_PREFIX/versions`, defaulting to
/// `~/.r/versions`. `env_cache_dir` is the value of `R_CACHE_DIR` when it is set
/// to valid Unicode.
pub fn cache_dir(env_cache_dir: Option<String>, prefix: &FsPath) -> (p: FsPath)
    ensures
        p@ == cache_dir_spec(
            match env_cache_dir {
                Some(s) => Some(s@),
                None => None,
            },
            prefix@,
        ),
{
    match env_cache_dir {
        Some(d) => FsPath::from_root(d),
        None => prefix.join("versions"),
    }
}

/// Path to the directory for a specific cached version.
pub fn version_dir(cache: &FsPath, tag: &str) -> (p: FsPath)
    ensures
        p@ == join_spec(cache@, tag@),
{
    cache.join(tag)
}

/// The `bin` directory of a cached version.
pub fn version_bin_dir(cache: &FsPath, tag: &str) -> (p: FsPath)
    ensures
        p@ == join_spec(join_spec(cache@, tag@), "bin"@),
{
    version_dir(cache, tag).join("bin")
}

/// The file name of the `rustc` binary on the operating system `os`.
pub open spec fn rustc_file_name(os: Seq<char>) -> Seq<char> {
    if os == "windows"@ {
        "rustc.exe"@
    } else {
        "rustc"@
    }
}

/// Where the `rustc` binary of a cached version lives.
pub open spec fn rustc_binary_spec(
    cache: (Seq<char>, Seq<Seq<char>>),
    tag: Seq<char>,
    os: Seq<char>,
) -> (Seq<char>, Seq<Seq<char>>) {
    join_spec(join_spec(join_spec(cache, tag), "bin"@), rustc_file_name(os))
}

/// Path to the `rustc` binary inside a cached version's `bin/` directory, on
/// the operating system `os` (as `std::env::consts::OS` names it).
pub fn rustc_binary(cache: &FsPath, tag: &str, os: &str) -> (p: FsPath)
    ensures
        p@ == rustc_binary_spec(cache@, tag@, os@),
{
    let dir = version_bin_dir(cache, tag);
    if str_eq(os, "windows") {
        dir.join("rustc.exe")
    } else {
        dir.join("rustc")
    }
}

/// Returns `true` if the version's `rustc` binary is present in the cache.
/// The answer comes from the file system at the time of the call.
pub fn is_cached(cache: &FsPath, tag: &str, os: &str) -> bool {
    let bin = rustc_binary(cache, tag, os);
    path_exists(&bin)
}

/// Why a cached version cannot be used. `S` is the text type.
#[derive(Debug)]
pub enum CacheFailure<S> {
    /// The version is not in the cache.
    NotCached(S),
}

pub type CacheError = CacheFailure<String>;

impl View for CacheFailure<String> {
    type V = CacheFailure<Seq<char>>;

    open spec fn view(&self) -> CacheFailure<Seq<char>> {
        match self {
            CacheFailure::NotCached(s) => CacheFailure::NotCached(s@),
        }
    }
}

impl CacheFailure<String> {
    /// The message that tells the user what went wrong.
    pub fn message(&self) -> (m: String)
        ensures
            self@ matches CacheFailure::NotCached(t) && m@ == "Version '"@ + t
                + "' is not cached. Run `r "@ + t + "` to install it."@,
    {
        match self {
            CacheFailure::NotCached(t) => {
                let mut m = String::from_str("Version '");
                m.append(t.as_str());
                m.append("' is not cached. Run `r ");
                m.append(t.as_str());
                m.append("` to install it.");
                m
            },
        }
    }
}

/// Returns the path to the `rustc` binary, or an error if it is not cached.
/// Whether it is cached comes from the file system at the time of the call.
pub fn which(cache: &FsPath, tag: &str, os: &str) -> (r: Result<FsPath, CacheError>)
    ensures
        r matches Ok(p) ==> p@ == rustc_binary_spec(cache@, tag@, os@),
        r matches Err(e) ==> e@ == CacheFailure::NotCached(tag@),
{
    let path = rustc_binary(cache, tag, os);
    if path_exists(&path) {
        Ok(path)
    } else {
        Err(CacheFailure::NotCached(String::from_str(tag)))
    }
}

/// The active version recorded by the marker file's contents, if it could be read.
pub open spec fn active_version_spec(contents: Option<Seq<char>>) -> Option<Seq<char>> {
    match contents {
        Some(c) => Some(trim(c)),
        None => None,
    }
}

/// The currently active version, from the contents of the marker file (`None`
/// when it could not be read): the contents without surrounding whitespace.
pub fn active_version(contents: Option<String>) -> (r: Option<String>)
    ensures
        r is None <==> contents is None,
        r matches Some(v) ==> contents matches Some(c) && v@ == trim(c@),
{
    match contents {
        Some(c) => {
            let cs = chars_of(c.as_str());
            Some(string_of(&trim_chars(&cs)))
        },
        None => None,
    }
}

/// Whether `tag` is the active version (`activate_cached` then has nothing to do).
pub fn is_active(active: Option<&str>, tag: &str) -> (r: bool)
    ensures
        r == (active matches Some(a) && a@ == tag@),
{
    match active {
        Some(a) => str_eq(a, tag),
        None => false,
    }
}

/// Reading the marker back gives the version that activation wrote into it,
/// for any version name that neither starts nor ends with whitespace.
pub proof fn active_marker_reads_back(tag: Seq<char>)
    requires
        tag.len() > 0 ==> !crate::text::is_ws(tag[0]) && !crate::text::is_ws(tag.last()),
    ensures
        active_version_spec(Some(tag)) == Some(tag),
{
    crate::text::lemma_trim_of_trimmed(tag);
}

} // verus!
