//! File-system paths as text, with `/` as the separator.

use vstd::prelude::*;
use crate::text::chars_of;

verus! {

/// Whether `path` starts at the root.
pub open spec fn is_absolute(path: Seq<char>) -> bool {
    path.len() > 0 && path[0] == '/'
}

/// `path` adjoined to `base`: an absolute `path` replaces `base`; otherwise the
/// two are put together with exactly one separator between them, which is added
/// unless `base` is empty or already ends with one.
pub open spec fn joined(base: Seq<char>, path: Seq<char>) -> Seq<char> {
    if is_absolute(path) {
        path
    } else if base.len() == 0 || base.last() == '/' {
        base + path
    } else {
        base.push('/') + path
    }
}

/// An absolute path is never changed by adjoining it to a base.
pub proof fn lemma_absolute_is_kept(base: Seq<char>, path: Seq<char>)
    requires
        is_absolute(path),
    ensures
        joined(base, path) == path,
{
}

/// Adjoins `path` to `base`.
pub fn join(base: &str, path: &str) -> (out: String)
    ensures
        out@ == joined(base@, path@),
{
    let p = chars_of(path);
    if p.len() > 0 && p[0] == '/' {
        return path.to_owned();
    }
    let b = chars_of(base);
    let mut out = base.to_owned();
    if b.len() > 0 && b[b.len() - 1] != '/' {
        out.push('/');
    }
    out.append(path);
    out
}

} // verus!
