//! Replacing the program by a released version of itself.

use vstd::prelude::*;
use crate::json::{get, lemma_object_view, value_of, Json, JsonValue};
use crate::json_text::{parse_strict, strict_document};
use crate::text::{chars_of, join_text, copy_range, string_of, text_eq};

verus! {

/// The arguments of the `update` command.
#[derive(Clone, Debug, PartialEq, Eq)]
pub struct UpdateArgs {
    /// The version to install; the latest release if none is given.
    pub version: Option<String>,
    /// Install even if the version is the one that runs.
    pub force: bool,
}

/// Why an update cannot be made.
#[derive(Clone, Debug, PartialEq, Eq)]
pub enum UpdateError {
    /// No release is built for this machine architecture.
    UnsupportedArchitecture { arch: String },
    /// The answer of the release service is not JSON; `message` says why.
    InvalidResponse { message: String },
    /// The answer of the release service names no tag.
    MissingTag,
}

/// `s` without any leading `c`.
pub open spec fn without_leading(s: Seq<char>, c: char) -> Seq<char>
    decreases s.len(),
{
    if s.len() > 0 && s[0] == c {
        without_leading(s.skip(1), c)
    } else {
        s
    }
}

/// `s` without one leading `c`.
pub open spec fn without_prefix(s: Seq<char>, c: char) -> Seq<char> {
    if s.len() > 0 && s[0] == c {
        s.skip(1)
    } else {
        s
    }
}

/// The tag of the release of a version: the version with exactly one leading
/// `v`, whether or not it was given with one.
pub open spec fn tag_of_version(version: Seq<char>) -> Seq<char> {
    seq!['v'] + without_prefix(version, 'v')
}

/// The release target of a machine architecture, if releases are built for it.
pub open spec fn target_of(arch: Seq<char>) -> Option<Seq<char>> {
    if arch == "x86_64"@ {
        Some("x86_64-unknown-linux-gnu"@)
    } else if arch == "aarch64"@ {
        Some("aarch64-unknown-linux-gnu"@)
    } else {
        None
    }
}

/// The tag that an answer of the release service names: the string under
/// `tag_name` of the object that the answer is.
pub open spec fn tag_in(document: JsonValue) -> Option<Seq<char>> {
    match document {
        JsonValue::Object(members) => match value_of(members, "tag_name"@) {
            JsonValue::Text(tag) => Some(tag),
            _ => None,
        },
        _ => None,
    }
}

/// What the `update` command comes to.
#[derive(Clone, Debug, PartialEq, Eq)]
pub enum UpdatePlan {
    /// The version that runs is the one asked for; nothing is installed.
    UpToDate,
    /// The release `tag` is installed; `reinstall` says that it is the version
    /// that runs already.
    Install { tag: String, reinstall: bool },
}

/// `s` without any leading `c`.
pub fn strip_leading(s: &Vec<char>, c: char) -> (out: Vec<char>)
    ensures
        out@ == without_leading(s@, c),
{
    let mut a: usize = 0;
    assert(s@.skip(0) =~= s@);
    while a < s.len() && s[a] == c
        invariant
            a <= s.len(),
            without_leading(s@, c) == without_leading(s@.skip(a as int), c),
        decreases s.len() - a,
    {
        assert(s@.skip(a as int).skip(1) =~= s@.skip(a + 1));
        a += 1;
    }
    let out = copy_range(s, a, s.len());
    assert(s@.subrange(a as int, s.len() as int) =~= s@.skip(a as int));
    out
}

/// The tag of the release of `version`.
pub fn release_tag(version: &str) -> (tag: String)
    ensures
        tag@ == tag_of_version(version@),
{
    let all = chars_of(version);
    let from: usize = if all.len() > 0 && all[0] == 'v' {
        1
    } else {
        0
    };
    let rest = copy_range(&all, from, all.len());
    assert(rest@ =~= without_prefix(version@, 'v'));
    let mut tag = String::new();
    tag.push('v');
    tag.append(string_of(&rest).as_str());
    assert(tag@ =~= tag_of_version(version@));
    tag
}

/// Decides what an update comes to. `tag` is the release asked for, by name or
/// as the latest; `current` is the version that runs. Leading `v`s do not
/// count when the two are compared.
pub fn run(args: &UpdateArgs, tag: &str, current: &str) -> (plan: UpdatePlan)
    ensures
        ({
            let same = without_leading(tag@, 'v') == without_leading(current@, 'v');
            if same && !args.force {
                plan == UpdatePlan::UpToDate
            } else {
                plan matches UpdatePlan::Install { tag: t, reinstall } && t@ == tag@ && reinstall
                    == same
            }
        }),
{
    let wanted = strip_leading(&chars_of(tag), 'v');
    let running = strip_leading(&chars_of(current), 'v');
    let same = text_eq(&wanted, &running);
    if same && !args.force {
        UpdatePlan::UpToDate
    } else {
        UpdatePlan::Install { tag: tag.to_owned(), reinstall: same }
    }
}

/// The tag that a document names: the string under `tag_name`, if the document
/// is an object that has one.
pub fn tag_of_document(document: &Json) -> (tag: Result<String, UpdateError>)
    ensures
        match tag_in(document@) {
            Some(name) => tag matches Ok(t) && t@ == name,
            None => tag matches Err(UpdateError::MissingTag),
        },
{
    match document {
        Json::Object(members) => {
            proof {
                lemma_object_view(*members);
            }
            match get(members, "tag_name") {
                Some(Json::Text(tag)) => Ok(tag.clone()),
                _ => Err(UpdateError::MissingTag),
            }
        },
        _ => Err(UpdateError::MissingTag),
    }
}

/// The tag that the release service names in its answer.
pub fn parse_tag_from_response(body: &str) -> (tag: Result<String, UpdateError>)
    ensures
        match strict_document(body@) {
            Err(why) => tag matches Err(UpdateError::InvalidResponse { message }) && message@
                == why,
            Ok(document) => match tag_in(document) {
                Some(name) => tag matches Ok(t) && t@ == name,
                None => tag matches Err(UpdateError::MissingTag),
            },
        },
{
    match parse_strict(body) {
        Ok(document) => tag_of_document(&document),
        Err(message) => Err(UpdateError::InvalidResponse { message }),
    }
}

/// The release target for the machine architecture that `uname -m` names.
pub fn detect_target(arch: &str) -> (target: Result<String, UpdateError>)
    ensures
        match target_of(arch@) {
            Some(name) => target matches Ok(t) && t@ == name,
            None => target matches Err(UpdateError::UnsupportedArchitecture { arch: a }) && a@
                == arch@,
        },
{
    let name = chars_of(arch);
    if text_eq(&name, &chars_of("x86_64")) {
        Ok("x86_64-unknown-linux-gnu".to_owned())
    } else if text_eq(&name, &chars_of("aarch64")) {
        Ok("aarch64-unknown-linux-gnu".to_owned())
    } else {
        Err(UpdateError::UnsupportedArchitecture { arch: arch.to_owned() })
    }
}

/// The name of the release archive for a tag and a target.
pub open spec fn asset_name_of(tag: Seq<char>, target: Seq<char>) -> Seq<char> {
    "dcw-"@ + tag + "-"@ + target + ".tar.gz"@
}

/// The name of the release archive for a tag and a target.
pub fn asset_name(tag: &str, target: &str) -> (name: String)
    ensures
        name@ == asset_name_of(tag@, target@),
{
    let mut name = join_text("dcw-", tag);
    name.append("-");
    name.append(target);
    name.append(".tar.gz");
    name
}

} // verus!
