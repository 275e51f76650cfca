//! The identity of a workspace and the places that belong to it.
//!
//! A workspace is the directory a command is run in. Its key is the directory's
//! name together with a digest of the whole path, so that two directories of
//! the same name in different places get different keys.

use vstd::prelude::*;
use vstd::std_specs::hash::DefaultHasherAdditionalSpecFns;
use std::collections::hash_map::DefaultHasher;
use std::hash::{Hash, Hasher};
use crate::numbers::{decimal, hex_padded, push_decimal, push_hex};
use crate::paths::{join, joined};

verus! {

/// What a command finds around it: the directory it runs in, the user's
/// runtime directory if one is set, and the user's number.
#[derive(Clone, Debug, PartialEq, Eq)]
pub struct Environment {
    /// The absolute path of the current directory; `None` if it cannot be read.
    pub current_dir: Option<String>,
    /// The value of `XDG_RUNTIME_DIR`; `None` if it is not set.
    pub xdg_runtime_dir: Option<String>,
    /// The numeric id of the user.
    pub uid: u32,
}

/// Why a workspace has no identity.
#[derive(Clone, Copy, Debug, PartialEq, Eq, Structural)]
pub enum WorkspaceError {
    /// The current directory cannot be read.
    NoCurrentDir,
    /// The current directory has no name of its own, as the root has none.
    NoBasename,
}

/// What `Path::file_name` returns for a path: its final component, if it has
/// one.
pub uninterp spec fn file_name_of(path: Seq<char>) -> Option<Seq<char>>;

/// What hashing a string feeds to a hasher: the byte sequences it writes, in
/// order.
pub uninterp spec fn str_hash_input(s: Seq<char>) -> Seq<Seq<u8>>;

/// The model of an optional string.
pub open spec fn text_model(s: Option<String>) -> Option<Seq<char>> {
    match s {
        Some(t) => Some(t@),
        None => None,
    }
}

/// Calls `Path::file_name`: the final component of the path, or nothing if the
/// path has none. The contract names the result.
#[verifier::external_body]
fn file_name(path: &str) -> (name: Option<String>)
    ensures
        text_model(name) == file_name_of(path@),
{
    match std::path::Path::new(path).file_name() {
        Some(name) => Some(name.to_string_lossy().to_string()),
        None => None,
    }
}

/// Calls `Hash::hash` of `str`, which feeds the string to the hasher. The
/// contract names what is written and says that it comes after what the hasher
/// has taken before.
#[verifier::external_body]
fn hash_str(s: &str, state: &mut DefaultHasher)
    ensures
        final(state)@ == old(state)@ + str_hash_input(s@),
{
    s.hash(state)
}

/// The digest of a path: the low 32 bits of its hash, as eight hexadecimal
/// digits.
pub open spec fn path_digest(path: Seq<char>) -> Seq<char> {
    hex_padded((DefaultHasher::spec_finish(str_hash_input(path)) % 0x1_0000_0000) as nat, 8)
}

/// The key of the workspace at `folder`: `dev-`, the directory's name, a
/// hyphen, and the digest of the whole path. A path without a final component
/// has no key.
pub open spec fn workspace_key(folder: Seq<char>) -> Option<Seq<char>> {
    match file_name_of(folder) {
        Some(name) => Some("dev-"@ + name + seq!['-'] + path_digest(folder)),
        None => None,
    }
}

/// The directory under which the runtime files of all workspaces are kept: the
/// user's runtime directory if one is set and not empty, else a directory under
/// `/tmp` that carries the user's number.
pub open spec fn runtime_base(xdg_runtime_dir: Option<Seq<char>>, uid: u32) -> Seq<char> {
    match xdg_runtime_dir {
        Some(dir) => if dir.len() > 0 {
            dir
        } else {
            "/tmp/dcw-"@ + decimal(uid as nat)
        },
        None => "/tmp/dcw-"@ + decimal(uid as nat),
    }
}

/// The runtime directory of the workspace with the key `key`.
pub open spec fn runtime_dir_of(xdg_runtime_dir: Option<Seq<char>>, uid: u32, key: Seq<char>) -> Seq<
    char,
> {
    joined(joined(runtime_base(xdg_runtime_dir, uid), "dcw"@), key)
}

/// The digest of `path`, by which directories of the same name are told apart.
pub fn path_hash(path: &str) -> (digest: String)
    ensures
        digest@ == path_digest(path@),
{
    let mut hasher = DefaultHasher::new();
    hash_str(path, &mut hasher);
    assert(hasher@ =~= str_hash_input(path@));
    let hash: u64 = hasher.finish();
    let low: u64 = hash & 0xFFFF_FFFF;
    assert(low == hash % 0x1_0000_0000) by (bit_vector)
        requires
            low == hash & 0xFFFF_FFFF,
    ;
    let mut digest = String::new();
    push_hex(&mut digest, low, 8);
    assert(Seq::<char>::empty() + hex_padded(low as nat, 8) =~= hex_padded(low as nat, 8));
    digest
}

/// The absolute path of the current directory.
pub fn workspace_folder(env: &Environment) -> (folder: Result<String, WorkspaceError>)
    ensures
        match env.current_dir {
            Some(dir) => folder matches Ok(f) && f@ == dir@,
            None => folder == Err::<String, WorkspaceError>(WorkspaceError::NoCurrentDir),
        },
{
    match &env.current_dir {
        Some(dir) => Ok(dir.clone()),
        None => Err(WorkspaceError::NoCurrentDir),
    }
}

/// Puts a key together from the name of a directory and the digest of its
/// path: `dev-<name>-<digest>`.
pub fn workspace_key_from(name: &str, digest: &str) -> (id: String)
    ensures
        id@ == "dev-"@ + name@ + seq!['-'] + digest@,
{
    let mut id = "dev-".to_owned();
    id.append(name);
    id.push('-');
    id.append(digest);
    assert(id@ =~= "dev-"@ + name@ + seq!['-'] + digest@);
    id
}

/// The key of the workspace: `dev-<name>-<digest>`, where the name is that of
/// the current directory and the digest is taken of its whole path.
pub fn workspace_id(env: &Environment) -> (id: Result<String, WorkspaceError>)
    ensures
        match env.current_dir {
            None => id == Err::<String, WorkspaceError>(WorkspaceError::NoCurrentDir),
            Some(dir) => match workspace_key(dir@) {
                Some(key) => id matches Ok(k) && k@ == key,
                None => id == Err::<String, WorkspaceError>(WorkspaceError::NoBasename),
            },
        },
{
    let folder = match workspace_folder(env) {
        Ok(f) => f,
        Err(e) => {
            return Err(e);
        },
    };
    let name = match file_name(folder.as_str()) {
        Some(n) => n,
        None => {
            return Err(WorkspaceError::NoBasename);
        },
    };
    let digest = path_hash(folder.as_str());
    Ok(workspace_key_from(name.as_str(), digest.as_str()))
}

/// The runtime directory of the workspace: `<base>/dcw/<key>`, where the base
/// is `$XDG_RUNTIME_DIR` or, without one, `/tmp/dcw-<uid>`.
pub fn runtime_dir(env: &Environment) -> (dir: Result<String, WorkspaceError>)
    ensures
        match env.current_dir {
            None => dir == Err::<String, WorkspaceError>(WorkspaceError::NoCurrentDir),
            Some(cwd) => match workspace_key(cwd@) {
                Some(key) => dir matches Ok(d) && d@ == runtime_dir_of(
                    text_model(env.xdg_runtime_dir),
                    env.uid,
                    key,
                ),
                None => dir == Err::<String, WorkspaceError>(WorkspaceError::NoBasename),
            },
        },
{
    let id = match workspace_id(env) {
        Ok(id) => id,
        Err(e) => {
            return Err(e);
        },
    };
    let base = match &env.xdg_runtime_dir {
        Some(dir) => if dir.as_str().is_empty() {
            None
        } else {
            Some(dir.clone())
        },
        None => None,
    };
    let base = match base {
        Some(dir) => dir,
        None => {
            let mut fallback = "/tmp/dcw-".to_owned();
            push_decimal(&mut fallback, env.uid as u64);
            fallback
        },
    };
    let shared = join(base.as_str(), "dcw");
    Ok(join(shared.as_str(), id.as_str()))
}

/// The path of the marker file that records the watcher of the workspace.
pub fn watcher_pid_file(env: &Environment) -> (path: Result<String, WorkspaceError>)
    ensures
        match env.current_dir {
            None => path == Err::<String, WorkspaceError>(WorkspaceError::NoCurrentDir),
            Some(cwd) => match workspace_key(cwd@) {
                Some(key) => path matches Ok(p) && p@ == joined(
                    runtime_dir_of(text_model(env.xdg_runtime_dir), env.uid, key),
                    "watch.pid"@,
                ),
                None => path == Err::<String, WorkspaceError>(WorkspaceError::NoBasename),
            },
        },
{
    match runtime_dir(env) {
        Ok(dir) => Ok(join(dir.as_str(), "watch.pid")),
        Err(e) => Err(e),
    }
}

/// The key of a workspace depends on the path of its directory and on nothing
/// else: two environments with the same current directory give the same key,
/// whatever else differs between them.
pub proof fn lemma_identity_depends_on_path_only(a: Environment, b: Environment)
    requires
        text_model(a.current_dir) == text_model(b.current_dir),
    ensures
        a.current_dir matches Some(dir) ==> workspace_key(dir@) == workspace_key(
            b.current_dir->Some_0@,
        ),
{
}

/// The digest of a path is eight hexadecimal digits in lower case.
pub proof fn lemma_digest_shape(path: Seq<char>)
    ensures
        path_digest(path).len() == 8,
        forall|i: int|
            0 <= i < 8 ==> {
                let c = #[trigger] path_digest(path)[i];
                ('0' <= c <= '9') || ('a' <= c <= 'f')
            },
{
    let n = (DefaultHasher::spec_finish(str_hash_input(path)) % 0x1_0000_0000) as nat;
    lemma_hex_shape(n, 8);
}

/// `hex_padded` gives as many digits as asked for, each a hexadecimal digit in
/// lower case.
pub proof fn lemma_hex_shape(n: nat, width: nat)
    ensures
        hex_padded(n, width).len() == width,
        forall|i: int|
            0 <= i < width ==> {
                let c = #[trigger] hex_padded(n, width)[i];
                ('0' <= c <= '9') || ('a' <= c <= 'f')
            },
    decreases width,
{
    if width > 0 {
        lemma_hex_shape(n / 16, (width - 1) as nat);
    }
}

} // verus!
