//! The effective configuration of a workspace: a base document, a local
//! override merged onto it, and the build paths of the result made absolute.

use vstd::prelude::*;
use crate::json::{
    get, has_key, item_views, lemma_array_view, lemma_object_view, member_views, set_member,
    value_of, well_formed, with_member, Json, JsonValue,
};
use crate::config_laws::{lemma_merged_well_formed, lemma_resolved_paths_well_formed};
use crate::json_text::{parse_relaxed, pretty_text, relaxed_document, write_pretty};
use crate::paths::{join, joined};

verus! {

/// Which of the two documents an error is about.
#[derive(Clone, Copy, Debug, PartialEq, Eq, Structural)]
pub enum ConfigSource {
    /// The base document.
    Base,
    /// The local override.
    Override,
}

/// Why no effective configuration could be made.
#[derive(Clone, Debug, PartialEq, Eq)]
pub enum ConfigError {
    /// A document is not relaxed JSON; `message` says why.
    Parse { source: ConfigSource, message: String },
    /// A document holds no value.
    Empty { source: ConfigSource },
    /// The merged document could not be written as JSON.
    Write { message: String },
}

/// The merged configuration, ready to be stored.
#[derive(Clone, Debug, PartialEq, Eq)]
pub struct ResolvedConfig {
    /// Where the merged document is to be written.
    pub path: String,
    /// The merged document as indented JSON.
    pub contents: String,
}

/// `overlay` merged onto `base`: two objects merge member by member, and
/// anything else is replaced by the overlay.
pub open spec fn merged(base: JsonValue, overlay: JsonValue) -> JsonValue
    decreases overlay,
{
    match (base, overlay) {
        (JsonValue::Object(b), JsonValue::Object(o)) => JsonValue::Object(merged_members(b, o)),
        _ => overlay,
    }
}

/// The members of `overlay` merged into `base`, one after the other: a key that
/// `base` has gets the merge of both values, a new key is added at the end.
pub open spec fn merged_members(
    base: Seq<(Seq<char>, JsonValue)>,
    overlay: Seq<(Seq<char>, JsonValue)>,
) -> Seq<(Seq<char>, JsonValue)>
    decreases overlay,
{
    if overlay.len() == 0 {
        base
    } else {
        let key = overlay[0].0;
        let value = merged(value_of(base, key), overlay[0].1);
        merged_members(with_member(base, key, value), overlay.skip(1))
    }
}

/// `v` with a path made absolute against `dir`, if it is a string; else `v`.
pub open spec fn absolute_text(v: JsonValue, dir: Seq<char>) -> JsonValue {
    match v {
        JsonValue::Text(path) => JsonValue::Text(joined(dir, path)),
        _ => v,
    }
}

/// The members of an object after its build paths are made absolute: the file
/// reference under `file_key` and the `context`. Where there is a file
/// reference and no `context`, a `context` equal to `dir` is added.
pub open spec fn with_build_paths(
    members: Seq<(Seq<char>, JsonValue)>,
    file_key: Seq<char>,
    dir: Seq<char>,
) -> Seq<(Seq<char>, JsonValue)> {
    let has_file = has_key(members, file_key);
    let first = if has_file {
        with_member(members, file_key, absolute_text(value_of(members, file_key), dir))
    } else {
        members
    };
    if has_key(first, "context"@) {
        with_member(first, "context"@, absolute_text(value_of(first, "context"@), dir))
    } else if has_file {
        first.push(("context"@, JsonValue::Text(dir)))
    } else {
        first
    }
}

/// The members of the top-level object after the paths of a nested `build`
/// object are made absolute.
pub open spec fn with_nested_build(members: Seq<(Seq<char>, JsonValue)>, dir: Seq<char>) -> Seq<
    (Seq<char>, JsonValue),
> {
    match value_of(members, "build"@) {
        JsonValue::Object(build) => with_member(
            members,
            "build"@,
            JsonValue::Object(with_build_paths(build, "dockerfile"@, dir)),
        ),
        _ => members,
    }
}

/// The members of the top-level object after the compose-file references are
/// made absolute: a single string, or each string of an array by itself.
pub open spec fn with_compose_files(members: Seq<(Seq<char>, JsonValue)>, dir: Seq<char>) -> Seq<
    (Seq<char>, JsonValue),
> {
    match value_of(members, "dockerComposeFile"@) {
        JsonValue::Text(path) => with_member(
            members,
            "dockerComposeFile"@,
            JsonValue::Text(joined(dir, path)),
        ),
        JsonValue::Array(items) => with_member(
            members,
            "dockerComposeFile"@,
            JsonValue::Array(items.map_values(|v: JsonValue| absolute_text(v, dir))),
        ),
        _ => members,
    }
}

/// `config` with every build-related path made absolute against `dir`. A
/// document that is not an object is left as it is.
pub open spec fn resolved_paths(config: JsonValue, dir: Seq<char>) -> JsonValue {
    match config {
        JsonValue::Object(members) => JsonValue::Object(
            with_compose_files(
                with_build_paths(with_nested_build(members, dir), "dockerFile"@, dir),
                dir,
            ),
        ),
        _ => config,
    }
}

/// Reads a configuration document: JSON in which comments and trailing commas
/// are accepted.
pub fn read_jsonc(text: &str, source: ConfigSource) -> (r: Result<Json, ConfigError>)
    ensures
        match relaxed_document(text@) {
            Ok(Some(document)) => r matches Ok(j) && j@ == document && well_formed(j@),
            Ok(None) => r == Err::<Json, ConfigError>(ConfigError::Empty { source }),
            Err(why) => r matches Err(ConfigError::Parse { source: s, message }) && s == source
                && message@ == why,
        },
{
    match parse_relaxed(text) {
        Ok(Some(j)) => Ok(j),
        Ok(None) => Err(ConfigError::Empty { source }),
        Err(message) => Err(ConfigError::Parse { source, message }),
    }
}

/// Merges `overlay` onto `base` and returns the result.
pub fn merge_values(base: Json, overlay: Json) -> (out: Json)
    ensures
        out@ == merged(base@, overlay@),
        well_formed(base@) && well_formed(overlay@) ==> well_formed(out@),
    decreases overlay,
{
    proof {
        if well_formed(base@) && well_formed(overlay@) {
            lemma_merged_well_formed(base@, overlay@);
        }
    }
    let ghost whole = overlay;
    match overlay {
        Json::Object(o) => {
            match base {
                Json::Object(b) => {
                    let ghost o0 = o;
                    let ghost b0 = b;
                    let mut o = o;
                    let mut b = b;
                    proof {
                        lemma_object_view(o0);
                        lemma_object_view(b0);
                    }
                    let ghost mut n: int = 0;
                    assert(o0@.skip(0) =~= o0@);
                    while o.len() > 0
                        invariant
                            whole == overlay,
                            whole == Json::Object(o0),
                            0 <= n <= o0@.len(),
                            o@ == o0@.skip(n),
                            merged_members(member_views(b0@), member_views(o0@)) == merged_members(
                                member_views(b@),
                                member_views(o@),
                            ),
                        decreases o.len(),
                    {
                        let ghost before = o@;
                        let (key, value) = o.remove(0);
                        proof {
                            assert(before[0] == o0@[n]);
                            assert(decreases_to!(whole => whole->Object_0));
                            assert(decreases_to!(whole->Object_0 => whole->Object_0[n]));
                            assert(decreases_to!(whole->Object_0[n] => whole->Object_0[n].1));
                            assert(value == whole->Object_0[n].1);
                            assert(o@ =~= o0@.skip(n + 1));
                            assert(member_views(before)[0] == (key@, value@));
                            assert(member_views(before).skip(1) =~= member_views(o@));
                        }
                        let old = match get(&b, key.as_str()) {
                            Some(v) => v.clone(),
                            None => Json::Null,
                        };
                        let merged_value = merge_values(old, value);
                        set_member(&mut b, key.as_str(), merged_value);
                        proof {
                            n = n + 1;
                        }
                    }
                    proof {
                        lemma_object_view(b);
                    }
                    Json::Object(b)
                },
                _ => Json::Object(o),
            }
        },
        _ => overlay,
    }
}

/// Merges `overlay` onto `base` in place.
pub fn deep_merge(base: &mut Json, overlay: Json)
    ensures
        final(base)@ == merged(old(base)@, overlay@),
        well_formed(old(base)@) && well_formed(overlay@) ==> well_formed(final(base)@),
{
    let mut taken = Json::Null;
    std::mem::swap(base, &mut taken);
    *base = merge_values(taken, overlay);
}


/// Converts a relative path to an absolute one by adjoining it to `base`; an
/// absolute path is returned unchanged.
pub fn make_absolute(path: &str, base: &str) -> (out: String)
    ensures
        out@ == joined(base@, path@),
{
    join(base, path)
}

/// `v` with its path made absolute, if it is a string; else a copy of `v`.
pub fn absolute_value(v: &Json, dir: &str) -> (out: Json)
    ensures
        out@ == absolute_text(v@, dir@),
{
    match v {
        Json::Text(path) => Json::Text(make_absolute(path.as_str(), dir)),
        _ => v.clone(),
    }
}

/// Makes the file reference under `file_key` and the `context` of an object
/// absolute, and adds the `context` where a file reference has none.
pub fn rewrite_build_paths(members: &mut Vec<(String, Json)>, file_key: &str, dir: &str)
    ensures
        member_views(final(members)@) == with_build_paths(
            member_views(old(members)@),
            file_key@,
            dir@,
        ),
{
    let file = match get(members, file_key) {
        Some(v) => Some(absolute_value(v, dir)),
        None => None,
    };
    let has_file = file.is_some();
    match file {
        Some(v) => {
            set_member(members, file_key, v);
        },
        None => {},
    }
    let context = match get(members, "context") {
        Some(v) => Some(absolute_value(v, dir)),
        None => None,
    };
    match context {
        Some(v) => {
            set_member(members, "context", v);
        },
        None => {
            if has_file {
                let ghost before = members@;
                members.push(("context".to_owned(), Json::Text(dir.to_owned())));
                assert(member_views(members@) =~= member_views(before).push(
                    ("context"@, JsonValue::Text(dir@)),
                ));
            }
        },
    }
}

/// Makes each string of `items` absolute by itself.
pub fn absolute_items(items: &Vec<Json>, dir: &str) -> (out: Vec<Json>)
    ensures
        item_views(out@) == item_views(items@).map_values(|v: JsonValue| absolute_text(v, dir@)),
{
    let mut out: Vec<Json> = Vec::new();
    let mut i: usize = 0;
    while i < items.len()
        invariant
            i <= items.len(),
            out@.len() == i,
            forall|j: int| 0 <= j < i ==> (#[trigger] out@[j])@ == absolute_text(items@[j]@, dir@),
        decreases items.len() - i,
    {
        out.push(absolute_value(&items[i], dir));
        i += 1;
    }
    assert(item_views(out@) =~= item_views(items@).map_values(
        |v: JsonValue| absolute_text(v, dir@),
    ));
    out
}

/// Rewrites the build-related relative paths of a configuration to absolute
/// ones: the nested `build.dockerfile` and `build.context`, the top-level
/// `dockerFile` and `context`, and the compose-file reference or references.
/// The merged document is stored in another directory than the files it was
/// made from, so a relative path in it would no longer lead to its target.
pub fn resolve_build_paths(config: &mut Json, config_dir: &str)
    ensures
        final(config)@ == resolved_paths(old(config)@, config_dir@),
        well_formed(old(config)@) ==> well_formed(final(config)@),
{
    proof {
        if well_formed(old(config)@) {
            lemma_resolved_paths_well_formed(old(config)@, config_dir@);
        }
    }
    let mut taken = Json::Null;
    std::mem::swap(config, &mut taken);
    match taken {
        Json::Object(members) => {
            let mut members = members;
            proof {
                lemma_object_view(members);
            }
            let build = match get(&members, "build") {
                Some(found) => Some(found.clone()),
                None => None,
            };
            match build {
                Some(Json::Object(inner)) => {
                    let mut inner = inner;
                    proof {
                        lemma_object_view(inner);
                    }
                    rewrite_build_paths(&mut inner, "dockerfile", config_dir);
                    proof {
                        lemma_object_view(inner);
                    }
                    set_member(&mut members, "build", Json::Object(inner));
                },
                _ => {},
            }
            rewrite_build_paths(&mut members, "dockerFile", config_dir);
            let compose = match get(&members, "dockerComposeFile") {
                Some(Json::Text(path)) => Some(Json::Text(make_absolute(path.as_str(), config_dir))),
                Some(Json::Array(items)) => {
                    let rewritten = absolute_items(items, config_dir);
                    proof {
                        lemma_array_view(*items);
                        lemma_array_view(rewritten);
                    }
                    Some(Json::Array(rewritten))
                },
                _ => None,
            };
            match compose {
                Some(v) => {
                    set_member(&mut members, "dockerComposeFile", v);
                },
                None => {},
            }
            proof {
                lemma_object_view(members);
            }
            *config = Json::Object(members);
        },
        other => {
            *config = other;
        },
    }
}

/// Makes the effective configuration of a workspace. Without a local override
/// there is none, and the base document is to be used as it stands. With one,
/// both documents are read, the override is merged onto the base, the build
/// paths are made absolute against `config_dir`, and the result is written as
/// indented JSON, to be stored as `devcontainer.json` under `runtime_dir`.
pub fn resolve_config(
    main_text: &str,
    local_text: Option<&str>,
    config_dir: &str,
    runtime_dir: &str,
) -> (r: Result<Option<ResolvedConfig>, ConfigError>)
    ensures
        match local_text {
            None => r matches Ok(None),
            Some(local) => match relaxed_document(main_text@) {
                Err(why) => r matches Err(ConfigError::Parse { source, message }) && source
                    == ConfigSource::Base && message@ == why,
                Ok(None) => r matches Err(ConfigError::Empty { source }) && source
                    == ConfigSource::Base,
                Ok(Some(base)) => match relaxed_document(local@) {
                    Err(why) => r matches Err(ConfigError::Parse { source, message }) && source
                        == ConfigSource::Override && message@ == why,
                    Ok(None) => r matches Err(ConfigError::Empty { source }) && source
                        == ConfigSource::Override,
                    Ok(Some(overlay)) => match pretty_text(
                        resolved_paths(merged(base, overlay), config_dir@),
                    ) {
                        Ok(text) => r matches Ok(Some(config)) && config.contents@ == text
                            && config.path@ == joined(runtime_dir@, "devcontainer.json"@),
                        Err(why) => r matches Err(ConfigError::Write { message }) && message@
                            == why,
                    },
                },
            },
        },
{
    let local = match local_text {
        None => {
            return Ok(None);
        },
        Some(local) => local,
    };
    let mut base = match read_jsonc(main_text, ConfigSource::Base) {
        Ok(j) => j,
        Err(e) => {
            return Err(e);
        },
    };
    let overlay = match read_jsonc(local, ConfigSource::Override) {
        Ok(j) => j,
        Err(e) => {
            return Err(e);
        },
    };
    deep_merge(&mut base, overlay);
    resolve_build_paths(&mut base, config_dir);
    match write_pretty(&base) {
        Ok(contents) => Ok(
            Some(ResolvedConfig { path: join(runtime_dir, "devcontainer.json"), contents }),
        ),
        Err(message) => Err(ConfigError::Write { message }),
    }
}

} // verus!
