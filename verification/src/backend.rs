//! Locating a proving backend's files. Paths are held as their components,
//! so every derivation (the backends directory under the home directory,
//! the directory of a binary, the reference-string directory next to it)
//! is a plain operation on a list of names.

use vstd::prelude::*;
use crate::ast::clone_string_vec;

verus! {

/// Errors a backend interaction can surface.
#[derive(Clone, PartialEq, Eq, Debug)]
pub enum BackendError {
    /// An input/output failure, with its description.
    IoError(String),
    /// The backend binary does not exist.
    MissingBinary,
    /// The backend responded with a malformed UTF-8 byte vector.
    InvalidUTF8Vector(Vec<u8>),
    /// The backend responded with an unexpected number of bytes: the
    /// expected count, and what arrived.
    UnexpectedNumberOfBytes(usize, Vec<u8>),
    /// The backend reported a failure of its own.
    CommandFailed(String),
}

/// The directory backends are installed under: `.nargo/backends` within
/// the given home directory.
pub fn backends_directory(home_directory: &Vec<String>) -> (r: Vec<String>)
    ensures
        r@.len() == home_directory@.len() + 2,
        forall|j: int| 0 <= j < home_directory@.len() ==> r@[j] == home_directory@[j],
        r@[home_directory@.len() as int]@ == ".nargo"@,
        r@[home_directory@.len() as int + 1]@ == "backends"@,
{
    let mut r = clone_string_vec(home_directory);
    r.push(".nargo".to_owned());
    r.push("backends".to_owned());
    r
}

/// A proving backend: its name, and the path of its binary as components.
#[derive(Clone, PartialEq, Eq, Debug)]
pub struct Backend {
    pub name: String,
    pub binary_path: Vec<String>,
}

impl Backend {
    /// Selects a backend by name: an explicitly configured binary path
    /// wins; otherwise the binary is expected in the backend's directory
    /// under the backends directory of the given home.
    pub fn new(name: String, configured_path: Option<Vec<String>>, home_directory: &Vec<String>)
        -> (r: Backend)
        ensures
            r.name@ == name@,
            configured_path is Some ==> r.binary_path == configured_path->0,
            configured_path is None ==> {
                &&& r.binary_path@.len() == home_directory@.len() + 4
                &&& (forall|j: int|
                    0 <= j < home_directory@.len() ==> r.binary_path@[j] == home_directory@[j])
                &&& r.binary_path@[home_directory@.len() as int]@ == ".nargo"@
                &&& r.binary_path@[home_directory@.len() as int + 1]@ == "backends"@
                &&& r.binary_path@[home_directory@.len() as int + 2]@ == name@
                &&& r.binary_path@[home_directory@.len() as int + 3]@ == "backend_binary"@
            },
    {
        let binary_path = match configured_path {
            Some(binary_path) => binary_path,
            None => {
                let mut p = backends_directory(home_directory);
                let dir_name = name.clone();
                assert(dir_name == name);
                p.push(dir_name);
                p.push("backend_binary".to_owned());
                p
            },
        };
        Backend { name, binary_path }
    }

    pub fn name(&self) -> (r: &str)
        ensures
            r@ == self.name@,
    {
        self.name.as_str()
    }

    pub fn binary_path(&self) -> (r: &Vec<String>)
        ensures
            *r == self.binary_path,
    {
        &self.binary_path
    }

    /// The directory holding the backend binary.
    pub fn backend_directory(&self) -> (r: Vec<String>)
        requires
            self.binary_path@.len() >= 1,
        ensures
            r@ == self.binary_path@.drop_last(),
    {
        let mut r = clone_string_vec(&self.binary_path);
        let popped = r.pop();
        r
    }

    /// The directory the backend's common reference strings live in.
    pub fn crs_directory(&self) -> (r: Vec<String>)
        requires
            self.binary_path@.len() >= 1,
        ensures
            r@.len() == self.binary_path@.len(),
            r@.drop_last() == self.binary_path@.drop_last(),
            r@.last()@ == "crs"@,
    {
        let mut r = self.backend_directory();
        let crs = "crs".to_owned();
        assert(crs@ == "crs"@);
        r.push(crs);
        proof {
            assert(r@.drop_last() =~= self.binary_path@.drop_last());
        }
        r
    }
}

} // verus!
