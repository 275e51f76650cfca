//! What holds of merging and of path rewriting, for every document.

use vstd::prelude::*;
use crate::config::{
    absolute_text, merged, merged_members, resolved_paths, with_build_paths, with_compose_files,
    with_nested_build,
};
use crate::json::{
    distinct_keys, has_key, key_position, lemma_key_position, lemma_key_position_is,
    lemma_with_member, value_of, well_formed, with_member, JsonValue,
};
use crate::paths::{is_absolute, joined};

verus! {

/// Arrays and scalars are replaced, never combined: unless both sides are
/// objects, the result of a merge is the overlay.
pub proof fn lemma_merge_replaces(base: JsonValue, overlay: JsonValue)
    requires
        !(base is Object && overlay is Object),
    ensures
        merged(base, overlay) == overlay,
{
}

/// In an object with distinct keys, the first member is the only one with its
/// key.
pub proof fn lemma_first_key_is_unique(members: Seq<(Seq<char>, JsonValue)>)
    requires
        distinct_keys(members),
        members.len() > 0,
    ensures
        !has_key(members.skip(1), members[0].0),
        distinct_keys(members.skip(1)),
{
    let rest = members.skip(1);
    lemma_key_position(rest, members[0].0);
    let p = key_position(rest, members[0].0);
    if p < rest.len() {
        assert(rest[p] == members[p + 1]);
    }
    assert forall|i: int, j: int| 0 <= i < j < rest.len() implies rest[i].0 != rest[j].0 by {
        assert(rest[i] == members[i + 1]);
        assert(rest[j] == members[j + 1]);
    }
}

/// How two objects merge, key by key: the result has the keys of both; a key
/// that only the base has keeps its value; a key that the overlay has gets the
/// merge of the base's value (`null` if the base has none) and the overlay's.
pub proof fn lemma_merged_members(
    base: Seq<(Seq<char>, JsonValue)>,
    overlay: Seq<(Seq<char>, JsonValue)>,
    key: Seq<char>,
)
    requires
        distinct_keys(overlay),
    ensures
        has_key(merged_members(base, overlay), key) == (has_key(base, key) || has_key(
            overlay,
            key,
        )),
        !has_key(overlay, key) ==> value_of(merged_members(base, overlay), key) == value_of(
            base,
            key,
        ),
        has_key(overlay, key) ==> value_of(merged_members(base, overlay), key) == merged(
            value_of(base, key),
            value_of(overlay, key),
        ),
        distinct_keys(base) ==> distinct_keys(merged_members(base, overlay)),
    decreases overlay.len(),
{
    if overlay.len() > 0 {
        let first = overlay[0].0;
        let rest = overlay.skip(1);
        let value = merged(value_of(base, first), overlay[0].1);
        let next = with_member(base, first, value);
        lemma_first_key_is_unique(overlay);
        lemma_with_member(base, first, value);
        lemma_merged_members(next, rest, key);
        if key == first {
            assert(key_position(overlay, key) == 0);
        } else {
            assert(key_position(overlay, key) == 1 + key_position(rest, key));
            if has_key(rest, key) {
                lemma_key_position(rest, key);
                assert(rest[key_position(rest, key)] == overlay[key_position(rest, key) + 1]);
            }
        }
    }
}

/// Keys that only the base has are preserved with their values.
pub proof fn lemma_merge_preserves_base_keys(base: JsonValue, overlay: JsonValue, key: Seq<char>)
    requires
        base is Object,
        overlay is Object,
        distinct_keys(overlay->Object_0),
        has_key(base->Object_0, key),
        !has_key(overlay->Object_0, key),
    ensures
        merged(base, overlay) is Object,
        has_key(merged(base, overlay)->Object_0, key),
        value_of(merged(base, overlay)->Object_0, key) == value_of(base->Object_0, key),
{
    lemma_merged_members(base->Object_0, overlay->Object_0, key);
}

/// A merge recurses through a key exactly where both sides have it: the
/// result's value is then the merge of the two values. A key that only the
/// overlay has gets the overlay's value.
pub proof fn lemma_merge_recurses_through_objects(
    base: JsonValue,
    overlay: JsonValue,
    key: Seq<char>,
)
    requires
        base is Object,
        overlay is Object,
        distinct_keys(overlay->Object_0),
        has_key(overlay->Object_0, key),
    ensures
        merged(base, overlay) is Object,
        has_key(merged(base, overlay)->Object_0, key),
        has_key(base->Object_0, key) ==> value_of(merged(base, overlay)->Object_0, key) == merged(
            value_of(base->Object_0, key),
            value_of(overlay->Object_0, key),
        ),
        !has_key(base->Object_0, key) ==> value_of(merged(base, overlay)->Object_0, key)
            == value_of(overlay->Object_0, key),
{
    lemma_merged_members(base->Object_0, overlay->Object_0, key);
}

/// Merging members that the base already absorbs changes nothing: if every
/// member of the overlay is a key of the base whose value does not change when
/// the overlay's value is merged onto it, the base is the result.
pub proof fn lemma_absorbed_members(
    base: Seq<(Seq<char>, JsonValue)>,
    overlay: Seq<(Seq<char>, JsonValue)>,
)
    requires
        forall|i: int|
            0 <= i < overlay.len() ==> has_key(base, (#[trigger] overlay[i]).0) && merged(
                value_of(base, overlay[i].0),
                overlay[i].1,
            ) == value_of(base, overlay[i].0),
    ensures
        merged_members(base, overlay) == base,
    decreases overlay.len(),
{
    if overlay.len() > 0 {
        let first = overlay[0].0;
        let rest = overlay.skip(1);
        let value = merged(value_of(base, first), overlay[0].1);
        let next = with_member(base, first, value);
        lemma_key_position(base, first);
        assert(has_key(base, overlay[0].0));
        assert(next =~= base);
        assert forall|i: int| 0 <= i < rest.len() implies has_key(base, (#[trigger] rest[i]).0)
            && merged(value_of(base, rest[i].0), rest[i].1) == value_of(base, rest[i].0) by {
            assert(rest[i] == overlay[i + 1]);
        }
        lemma_absorbed_members(base, rest);
    }
}

/// In an object with distinct keys, each member's value is the value of its
/// key.
pub proof fn lemma_member_is_value_of(members: Seq<(Seq<char>, JsonValue)>, i: int)
    requires
        distinct_keys(members),
        0 <= i < members.len(),
    ensures
        has_key(members, members[i].0),
        key_position(members, members[i].0) == i,
        value_of(members, members[i].0) == members[i].1,
{
    lemma_key_position_is(members, members[i].0, i);
}

/// Deep merge is idempotent: merging the same overlay a second time changes
/// nothing.
pub proof fn lemma_merge_idempotent(base: JsonValue, overlay: JsonValue)
    requires
        well_formed(overlay),
    ensures
        merged(merged(base, overlay), overlay) == merged(base, overlay),
    decreases overlay,
{
    match overlay {
        JsonValue::Object(o) => {
            let start = match base {
                JsonValue::Object(b) => b,
                _ => o,
            };
            let once = match base {
                JsonValue::Object(b) => merged_members(b, o),
                _ => o,
            };
            assert(merged(base, overlay) == JsonValue::Object(once));
            assert forall|i: int| 0 <= i < o.len() implies has_key(once, (#[trigger] o[i]).0)
                && merged(value_of(once, o[i].0), o[i].1) == value_of(once, o[i].0) by {
                lemma_member_is_value_of(o, i);
                match base {
                    JsonValue::Object(b) => {
                        lemma_merged_members(b, o, o[i].0);
                        lemma_merge_idempotent(value_of(b, o[i].0), o[i].1);
                    },
                    _ => {
                        lemma_merge_onto_itself(o[i].1);
                    },
                }
            }
            lemma_absorbed_members(once, o);
        },
        _ => {},
    }
}

/// A document merged onto itself is itself.
pub proof fn lemma_merge_onto_itself(v: JsonValue)
    requires
        well_formed(v),
    ensures
        merged(v, v) == v,
    decreases v,
{
    match v {
        JsonValue::Object(o) => {
            assert forall|i: int| 0 <= i < o.len() implies has_key(o, (#[trigger] o[i]).0)
                && merged(value_of(o, o[i].0), o[i].1) == value_of(o, o[i].0) by {
                lemma_member_is_value_of(o, i);
                lemma_merge_onto_itself(o[i].1);
            }
            lemma_absorbed_members(o, o);
        },
        _ => {},
    }
}

/// An absolute reference is never rewritten.
pub proof fn lemma_absolute_reference_is_kept(path: Seq<char>, dir: Seq<char>)
    requires
        is_absolute(path),
    ensures
        absolute_text(JsonValue::Text(path), dir) == JsonValue::Text(path),
{
}

/// A file reference without an explicit context gets a context equal to the
/// configuration directory.
pub proof fn lemma_context_is_synthesized(
    members: Seq<(Seq<char>, JsonValue)>,
    file_key: Seq<char>,
    dir: Seq<char>,
)
    requires
        has_key(members, file_key),
        !has_key(members, "context"@),
    ensures
        has_key(with_build_paths(members, file_key, dir), "context"@),
        value_of(with_build_paths(members, file_key, dir), "context"@) == JsonValue::Text(dir),
{
    let first = with_member(members, file_key, absolute_text(value_of(members, file_key), dir));
    lemma_with_member(members, file_key, absolute_text(value_of(members, file_key), dir));
    assert(!has_key(first, "context"@));
    let last = first.push(("context"@, JsonValue::Text(dir)));
    lemma_key_position(first, "context"@);
    assert forall|j: int| 0 <= j < first.len() implies (#[trigger] last[j]).0 != "context"@ by {
        assert(last[j] == first[j]);
    }
    lemma_key_position_is(last, "context"@, first.len() as int);
}

/// Without a file reference no context is added, and one that is there is only
/// made absolute.
pub proof fn lemma_no_context_without_file(
    members: Seq<(Seq<char>, JsonValue)>,
    file_key: Seq<char>,
    dir: Seq<char>,
)
    requires
        !has_key(members, file_key),
    ensures
        has_key(with_build_paths(members, file_key, dir), "context"@) == has_key(
            members,
            "context"@,
        ),
        !has_key(members, "context"@) ==> with_build_paths(members, file_key, dir) == members,
{
    lemma_with_member(members, "context"@, absolute_text(value_of(members, "context"@), dir));
}

/// The file reference of an object is made absolute against the configuration
/// directory, and so is an explicit context.
pub proof fn lemma_build_paths_are_absolute(
    members: Seq<(Seq<char>, JsonValue)>,
    file_key: Seq<char>,
    dir: Seq<char>,
)
    requires
        file_key != "context"@,
    ensures
        has_key(members, file_key) ==> value_of(with_build_paths(members, file_key, dir), file_key)
            == absolute_text(value_of(members, file_key), dir),
        has_key(members, "context"@) ==> value_of(
            with_build_paths(members, file_key, dir),
            "context"@,
        ) == absolute_text(value_of(members, "context"@), dir),
{
    let rewritten = absolute_text(value_of(members, file_key), dir);
    let first = if has_key(members, file_key) {
        with_member(members, file_key, rewritten)
    } else {
        members
    };
    lemma_with_member(members, file_key, rewritten);
    lemma_with_member(first, "context"@, absolute_text(value_of(first, "context"@), dir));
    if !has_key(first, "context"@) && has_key(members, file_key) {
        let last = first.push(("context"@, JsonValue::Text(dir)));
        lemma_key_position(first, file_key);
        let q = key_position(first, file_key);
        assert forall|j: int| 0 <= j < q implies (#[trigger] last[j]).0 != file_key by {
            assert(last[j] == first[j]);
        }
        assert(last[q] == first[q]);
        lemma_key_position_is(last, file_key, q);
    }
}

/// Each entry of a compose-file array is rewritten by itself: a string becomes
/// the path adjoined to the configuration directory, which leaves an absolute
/// one as it is, and the number of entries does not change.
pub proof fn lemma_compose_array(
    members: Seq<(Seq<char>, JsonValue)>,
    items: Seq<JsonValue>,
    dir: Seq<char>,
    i: int,
)
    requires
        value_of(members, "dockerComposeFile"@) == JsonValue::Array(items),
        0 <= i < items.len(),
    ensures
        value_of(with_compose_files(members, dir), "dockerComposeFile"@) is Array,
        value_of(with_compose_files(members, dir), "dockerComposeFile"@)->Array_0.len()
            == items.len(),
        value_of(with_compose_files(members, dir), "dockerComposeFile"@)->Array_0[i]
            == absolute_text(items[i], dir),
        items[i] matches JsonValue::Text(path) && is_absolute(path) ==> value_of(
            with_compose_files(members, dir),
            "dockerComposeFile"@,
        )->Array_0[i] == items[i],
{
    let rewritten = JsonValue::Array(items.map_values(|v: JsonValue| absolute_text(v, dir)));
    lemma_with_member(members, "dockerComposeFile"@, rewritten);
}

/// A document that is no object has no paths to rewrite.
pub proof fn lemma_only_objects_are_rewritten(config: JsonValue, dir: Seq<char>)
    requires
        !(config is Object),
    ensures
        resolved_paths(config, dir) == config,
{
}


/// Every value among the members is well formed.
pub open spec fn values_well_formed(members: Seq<(Seq<char>, JsonValue)>) -> bool {
    forall|i: int| 0 <= i < members.len() ==> well_formed((#[trigger] members[i]).1)
}

/// The value under a key of well-formed members is well formed.
pub proof fn lemma_value_of_well_formed(members: Seq<(Seq<char>, JsonValue)>, key: Seq<char>)
    requires
        values_well_formed(members),
    ensures
        well_formed(value_of(members, key)),
{
    lemma_key_position(members, key);
    if has_key(members, key) {
        assert(well_formed(members[key_position(members, key)].1));
    }
}

/// Setting a well-formed value among well-formed members leaves them so.
pub proof fn lemma_with_member_well_formed(
    members: Seq<(Seq<char>, JsonValue)>,
    key: Seq<char>,
    value: JsonValue,
)
    requires
        values_well_formed(members),
        well_formed(value),
    ensures
        values_well_formed(with_member(members, key, value)),
{
    let after = with_member(members, key, value);
    lemma_key_position(members, key);
    assert forall|i: int| 0 <= i < after.len() implies well_formed((#[trigger] after[i]).1) by {
        if has_key(members, key) {
            if i != key_position(members, key) {
                assert(after[i] == members[i]);
            }
        } else {
            if i < members.len() {
                assert(after[i] == members[i]);
            }
        }
    }
}

/// Merging keeps documents well formed: if every object of the base and of the
/// overlay has distinct keys, so has every object of the result.
pub proof fn lemma_merged_well_formed(base: JsonValue, overlay: JsonValue)
    requires
        well_formed(base),
        well_formed(overlay),
    ensures
        well_formed(merged(base, overlay)),
    decreases overlay,
{
    match (base, overlay) {
        (JsonValue::Object(b), JsonValue::Object(o)) => {
            lemma_merged_members_well_formed(b, o);
            lemma_merged_members(b, o, Seq::<char>::empty());
        },
        _ => {},
    }
}

/// Merging members keeps their values well formed.
pub proof fn lemma_merged_members_well_formed(
    base: Seq<(Seq<char>, JsonValue)>,
    overlay: Seq<(Seq<char>, JsonValue)>,
)
    requires
        values_well_formed(base),
        values_well_formed(overlay),
    ensures
        values_well_formed(merged_members(base, overlay)),
    decreases overlay,
{
    if overlay.len() > 0 {
        let key = overlay[0].0;
        lemma_value_of_well_formed(base, key);
        assert(well_formed(overlay[0].1));
        lemma_merged_well_formed(value_of(base, key), overlay[0].1);
        let value = merged(value_of(base, key), overlay[0].1);
        lemma_with_member_well_formed(base, key, value);
        let rest = overlay.skip(1);
        assert forall|i: int| 0 <= i < rest.len() implies well_formed((#[trigger] rest[i]).1) by {
            assert(rest[i] == overlay[i + 1]);
        }
        lemma_merged_members_well_formed(with_member(base, key, value), rest);
    }
}

/// Making a value's path absolute keeps it well formed.
pub proof fn lemma_absolute_text_well_formed(v: JsonValue, dir: Seq<char>)
    requires
        well_formed(v),
    ensures
        well_formed(absolute_text(v, dir)),
{
}

/// Rewriting the build paths of an object keeps its keys distinct and its
/// values well formed.
pub proof fn lemma_build_paths_well_formed(
    members: Seq<(Seq<char>, JsonValue)>,
    file_key: Seq<char>,
    dir: Seq<char>,
)
    requires
        distinct_keys(members),
        values_well_formed(members),
    ensures
        distinct_keys(with_build_paths(members, file_key, dir)),
        values_well_formed(with_build_paths(members, file_key, dir)),
{
    let rewritten = absolute_text(value_of(members, file_key), dir);
    lemma_value_of_well_formed(members, file_key);
    let first = if has_key(members, file_key) {
        with_member(members, file_key, rewritten)
    } else {
        members
    };
    lemma_with_member(members, file_key, rewritten);
    lemma_with_member_well_formed(members, file_key, rewritten);
    lemma_value_of_well_formed(first, "context"@);
    let context = if has_key(first, "context"@) {
        absolute_text(value_of(first, "context"@), dir)
    } else {
        JsonValue::Text(dir)
    };
    lemma_with_member(first, "context"@, context);
    lemma_with_member_well_formed(first, "context"@, context);
    if !has_key(first, "context"@) {
        assert(with_member(first, "context"@, context) == first.push(("context"@, context)));
    }
}

/// Rewriting the build paths of a configuration keeps it well formed: if every
/// object of the document has distinct keys, so has every object of the
/// result.
pub proof fn lemma_resolved_paths_well_formed(config: JsonValue, dir: Seq<char>)
    requires
        well_formed(config),
    ensures
        well_formed(resolved_paths(config, dir)),
{
    match config {
        JsonValue::Object(members) => {
            assert(values_well_formed(members));
            lemma_value_of_well_formed(members, "build"@);
            let nested = with_nested_build(members, dir);
            match value_of(members, "build"@) {
                JsonValue::Object(build) => {
                    assert(values_well_formed(build));
                    lemma_build_paths_well_formed(build, "dockerfile"@, dir);
                    let inner = JsonValue::Object(with_build_paths(build, "dockerfile"@, dir));
                    assert(well_formed(inner));
                    lemma_with_member(members, "build"@, inner);
                    lemma_with_member_well_formed(members, "build"@, inner);
                },
                _ => {},
            }
            lemma_build_paths_well_formed(nested, "dockerFile"@, dir);
            let top = with_build_paths(nested, "dockerFile"@, dir);
            lemma_value_of_well_formed(top, "dockerComposeFile"@);
            match value_of(top, "dockerComposeFile"@) {
                JsonValue::Text(path) => {
                    let one = JsonValue::Text(joined(dir, path));
                    lemma_with_member(top, "dockerComposeFile"@, one);
                    lemma_with_member_well_formed(top, "dockerComposeFile"@, one);
                },
                JsonValue::Array(items) => {
                    let rewritten = items.map_values(|v: JsonValue| absolute_text(v, dir));
                    assert forall|i: int| 0 <= i < rewritten.len() implies well_formed(
                        #[trigger] rewritten[i],
                    ) by {
                        assert(well_formed(items[i]));
                    }
                    let all = JsonValue::Array(rewritten);
                    assert(well_formed(all));
                    lemma_with_member(top, "dockerComposeFile"@, all);
                    lemma_with_member_well_formed(top, "dockerComposeFile"@, all);
                },
                _ => {},
            }
            let last = with_compose_files(top, dir);
            assert(distinct_keys(last) && values_well_formed(last));
        },
        _ => {},
    }
}

} // verus!
