//! Where the bundled Ollama lives under the user's home directory, and when
//! its binary has to be written out.

use std::path::PathBuf;
use vstd::prelude::*;

verus! {

/// `std::path::PathBuf`, which is carried through unread: nothing is claimed
/// of what a path holds.
#[verifier::external_type_specification]
#[verifier::external_body]
pub struct ExPathBuf(PathBuf);

/// The mode of the extracted binary on Unix: read and execute for all, write
/// for the owner.
pub const EXECUTABLE_MODE: u32 = 0o755;

/// Why the bundle cannot be used.
#[derive(Clone, Copy, Debug, PartialEq, Eq, Structural)]
pub enum BundleError {
    /// The home directory could not be determined.
    NoHomeDirectory,
    /// No Ollama binary was embedded when the program was built.
    NotEmbedded,
}

/// A place below the user's home directory: the home directory, and the names
/// that lead from it to the place, outermost first.
#[derive(Debug, PartialEq, Eq)]
pub struct BundlePath {
    pub home: PathBuf,
    pub parts: Vec<&'static str>,
}

impl BundlePath {
    /// The names that lead from the home directory to the place.
    pub open spec fn names(&self) -> Seq<Seq<char>> {
        Seq::new(self.parts@.len(), |i: int| self.parts@[i]@)
    }
}

/// The name of the Ollama binary on the platform.
pub open spec fn binary_name(windows: bool) -> Seq<char> {
    if windows {
        "ollama.exe"@
    } else {
        "ollama"@
    }
}

/// The names from the home directory to the bundle directory.
pub open spec fn bundle_dir_names() -> Seq<Seq<char>> {
    seq![".codex-oss"@]
}

/// The names from the home directory to the Ollama binary.
pub open spec fn binary_path_names(windows: bool) -> Seq<Seq<char>> {
    seq![".codex-oss"@, "bin"@, binary_name(windows)]
}

/// The names from the home directory to the directory of the models.
pub open spec fn models_dir_names() -> Seq<Seq<char>> {
    seq![".codex-oss"@, "models"@]
}

/// What has to be done so that the binary is on disk.
#[derive(Clone, Copy, Debug, PartialEq, Eq, Structural)]
pub enum Extraction {
    /// The binary is there already, with the right size.
    AlreadyPresent,
    /// The binary has to be written out, over what may be there.
    Write,
}

/// What has to be done for an embedded binary of `embedded_len` bytes, where
/// `existing_len` is the size of the file on disk, if there is one whose size
/// can be read. Without an embedded binary nothing can be done.
pub open spec fn extraction_for(embedded_len: nat, existing_len: Option<u64>) -> Result<
    Extraction,
    BundleError,
> {
    if embedded_len == 0 {
        Err(BundleError::NotEmbedded)
    } else if existing_len == Some(embedded_len as u64) {
        Ok(Extraction::AlreadyPresent)
    } else {
        Ok(Extraction::Write)
    }
}

impl BundleError {
    /// The reason, in words.
    pub fn message(&self) -> (r: &'static str)
        ensures
            r@ == match self {
                BundleError::NoHomeDirectory => "Could not determine home directory"@,
                BundleError::NotEmbedded =>
                    "Ollama binary was not embedded at build time. Please rebuild with SKIP_OLLAMA_DOWNLOAD unset, or provide your own Ollama installation."@,
            },
    {
        match self {
            BundleError::NoHomeDirectory => "Could not determine home directory",
            BundleError::NotEmbedded =>
                "Ollama binary was not embedded at build time. Please rebuild with SKIP_OLLAMA_DOWNLOAD unset, or provide your own Ollama installation.",
        }
    }
}

/// The user's home directory, from `dirs::home_dir`. Whether there is one, and
/// which, depends on the environment of the process: nothing is claimed of it.
#[verifier::external_body]
fn home_dir() -> (home: Option<PathBuf>) {
    dirs::home_dir()
}

/// The place below `home` that the names lead to, or the failure where there
/// is no home directory.
fn below(home: Option<PathBuf>, parts: Vec<&'static str>) -> (r: Result<BundlePath, BundleError>)
    ensures
        match r {
            Ok(path) => home == Some(path.home) && path.parts == parts,
            Err(error) => home is None && error == BundleError::NoHomeDirectory,
        },
{
    match home {
        Some(home) => Ok(BundlePath { home, parts }),
        None => Err(BundleError::NoHomeDirectory),
    }
}

/// The bundle directory, for the home directory that was found, if any.
pub fn bundle_dir_below(home: Option<PathBuf>) -> (r: Result<BundlePath, BundleError>)
    ensures
        match r {
            Ok(path) => home == Some(path.home) && path.names() == bundle_dir_names(),
            Err(error) => home is None && error == BundleError::NoHomeDirectory,
        },
{
    let mut parts: Vec<&'static str> = Vec::new();
    parts.push(".codex-oss");
    let r = below(home, parts);
    if let Ok(path) = &r {
        assert(path.names() =~= bundle_dir_names());
    }
    r
}

/// The Ollama binary, for the home directory that was found, if any.
pub fn binary_path_below(home: Option<PathBuf>, windows: bool) -> (r: Result<
    BundlePath,
    BundleError,
>)
    ensures
        match r {
            Ok(path) => home == Some(path.home) && path.names() == binary_path_names(windows),
            Err(error) => home is None && error == BundleError::NoHomeDirectory,
        },
{
    let mut parts: Vec<&'static str> = Vec::new();
    parts.push(".codex-oss");
    parts.push("bin");
    parts.push(
        if windows {
            "ollama.exe"
        } else {
            "ollama"
        },
    );
    let r = below(home, parts);
    if let Ok(path) = &r {
        assert(path.names() =~= binary_path_names(windows));
    }
    r
}

/// The directory of the models, for the home directory that was found, if any.
pub fn models_dir_below(home: Option<PathBuf>) -> (r: Result<BundlePath, BundleError>)
    ensures
        match r {
            Ok(path) => home == Some(path.home) && path.names() == models_dir_names(),
            Err(error) => home is None && error == BundleError::NoHomeDirectory,
        },
{
    let mut parts: Vec<&'static str> = Vec::new();
    parts.push(".codex-oss");
    parts.push("models");
    let r = below(home, parts);
    if let Ok(path) = &r {
        assert(path.names() =~= models_dir_names());
    }
    r
}

/// Get the path where the Ollama binary should be extracted. It fails only
/// where no home directory is found.
pub fn get_ollama_bundle_dir() -> (r: Result<BundlePath, BundleError>)
    ensures
        match r {
            Ok(path) => path.names() == bundle_dir_names(),
            Err(error) => error == BundleError::NoHomeDirectory,
        },
{
    bundle_dir_below(home_dir())
}

/// Get the path to the extracted Ollama binary. `windows` says whether the
/// program runs on Windows, where the binary carries the suffix `.exe`. It
/// fails only where no home directory is found.
pub fn get_ollama_binary_path(windows: bool) -> (r: Result<BundlePath, BundleError>)
    ensures
        match r {
            Ok(path) => path.names() == binary_path_names(windows),
            Err(error) => error == BundleError::NoHomeDirectory,
        },
{
    binary_path_below(home_dir(), windows)
}

/// Get the data directory for Ollama models. It fails only where no home
/// directory is found.
pub fn get_ollama_models_dir() -> (r: Result<BundlePath, BundleError>)
    ensures
        match r {
            Ok(path) => path.names() == models_dir_names(),
            Err(error) => error == BundleError::NoHomeDirectory,
        },
{
    models_dir_below(home_dir())
}

/// Decides what has to be done so that the embedded binary is on disk.
pub fn plan_extraction(embedded_len: usize, existing_len: Option<u64>) -> (r: Result<
    Extraction,
    BundleError,
>)
    ensures
        r == extraction_for(embedded_len as nat, existing_len),
{
    if embedded_len == 0 {
        return Err(BundleError::NotEmbedded);
    }
    match existing_len {
        Some(len) => {
            if len == embedded_len as u64 {
                Ok(Extraction::AlreadyPresent)
            } else {
                Ok(Extraction::Write)
            }
        },
        None => Ok(Extraction::Write),
    }
}

} // verus!
