//! The ports that a configuration asks to be forwarded.

use vstd::prelude::*;
use crate::config::{ConfigError, ConfigSource};
use crate::json::{
    get, item_views, lemma_array_view, lemma_object_view, value_of, well_formed, Json, JsonNumber,
    JsonValue, NumberValue,
};
use crate::json_text::{parse_strict, strict_document};
use crate::numbers::{parse_u16, unsigned_of};
use crate::text::{
    after_last, chars_of, is_whitespace, lines, split_lines, suffix_after_last, trim_start, views,
};

verus! {

/// The port that a number stands for, if it is one: an integer from 0 to 65535.
pub open spec fn port_of_number(n: NumberValue) -> Option<u16> {
    match n {
        NumberValue::Unsigned(v) => if v <= 0xFFFF {
            Some(v as u16)
        } else {
            None
        },
        _ => None,
    }
}

/// The port that one entry of `forwardPorts` stands for: a number; a string
/// that writes the port in decimal, alone or after the last colon of
/// `host:port`; or an object whose `port` member is a number. An entry that
/// gives no port from 0 to 65535 stands for none.
pub open spec fn port_of_entry(entry: JsonValue) -> Option<u16> {
    match entry {
        JsonValue::Number(n) => port_of_number(n),
        JsonValue::Text(s) => match unsigned_of(after_last(s, ':'), 10, 0xFFFF) {
            Some(p) => Some(p as u16),
            None => None,
        },
        JsonValue::Object(members) => match value_of(members, "port"@) {
            JsonValue::Number(n) => port_of_number(n),
            _ => None,
        },
        _ => None,
    }
}

/// The ports of the entries, in the order of the entries; entries that stand
/// for no port are left out.
pub open spec fn ports_of_entries(entries: Seq<JsonValue>) -> Seq<u16> {
    entries.filter_map(|entry: JsonValue| port_of_entry(entry))
}

/// The ports that a configuration asks for: those of its `forwardPorts` array,
/// and none if it has no such array.
pub open spec fn forward_ports(config: JsonValue) -> Seq<u16> {
    match config {
        JsonValue::Object(members) => match value_of(members, "forwardPorts"@) {
            JsonValue::Array(entries) => ports_of_entries(entries),
            _ => Seq::<u16>::empty(),
        },
        _ => Seq::<u16>::empty(),
    }
}

/// The port that a number stands for.
pub fn number_port(n: &JsonNumber) -> (port: Option<u16>)
    ensures
        port == port_of_number(n@),
{
    match n {
        JsonNumber::Unsigned(v) => if *v <= 0xFFFF {
            Some(*v as u16)
        } else {
            None
        },
        _ => None,
    }
}

/// The port that one entry of `forwardPorts` stands for.
pub fn entry_port(entry: &Json) -> (port: Option<u16>)
    ensures
        port == port_of_entry(entry@),
{
    match entry {
        Json::Number(n) => number_port(n),
        Json::Text(s) => {
            let text = chars_of(s.as_str());
            let tail = suffix_after_last(&text, ':');
            parse_u16(&tail, 10)
        },
        Json::Object(members) => {
            proof {
                lemma_object_view(*members);
            }
            match get(members, "port") {
                Some(Json::Number(n)) => number_port(n),
                _ => None,
            }
        },
        _ => None,
    }
}

/// Reads `forwardPorts` from a configuration. Each entry may be a number, a
/// string (`"3000"` or `"localhost:3000"`) or an object (`{"port": 3000}`);
/// entries that give no port from 0 to 65535 are skipped.
pub fn parse_forward_ports_from_value(value: &Json) -> (ports: Vec<u16>)
    ensures
        ports@ == forward_ports(value@),
{
    let members = match value {
        Json::Object(members) => members,
        _ => {
            return Vec::new();
        },
    };
    proof {
        lemma_object_view(*members);
    }
    let entries = match get(members, "forwardPorts") {
        Some(Json::Array(entries)) => entries,
        _ => {
            return Vec::new();
        },
    };
    proof {
        lemma_array_view(*entries);
    }
    let ghost all = item_views(entries@);
    let ghost f = |entry: JsonValue| port_of_entry(entry);
    let mut ports: Vec<u16> = Vec::new();
    let mut i: usize = 0;
    assert(all.take(0).filter_map(f) =~= Seq::<u16>::empty());
    while i < entries.len()
        invariant
            i <= entries.len(),
            all == item_views(entries@),
            f == |entry: JsonValue| port_of_entry(entry),
            ports@ == all.take(i as int).filter_map(f),
        decreases entries.len() - i,
    {
        proof {
            all.lemma_filter_map_take_succ(f, i as int);
        }
        match entry_port(&entries[i]) {
            Some(p) => {
                ports.push(p);
            },
            None => {},
        }
        i += 1;
    }
    assert(all.take(all.len() as int) =~= all);
    ports
}

/// Whether a line holds nothing but a `//` comment, after any indentation.
pub open spec fn is_comment_line(line: Seq<char>) -> bool {
    let rest = trim_start(line);
    rest.len() >= 2 && rest[0] == '/' && rest[1] == '/'
}

/// `lines` put together again with a line feed between any two.
pub open spec fn joined_lines(lines: Seq<Seq<char>>) -> Seq<char>
    decreases lines.len(),
{
    if lines.len() == 0 {
        Seq::<char>::empty()
    } else if lines.len() == 1 {
        lines[0]
    } else {
        joined_lines(lines.drop_last()).push('\n') + lines.last()
    }
}

/// `text` with every comment line emptied.
pub open spec fn without_comment_lines(text: Seq<char>) -> Seq<char> {
    joined_lines(
        lines(text).map_values(
            |line: Seq<char>|
                if is_comment_line(line) {
                    Seq::<char>::empty()
                } else {
                    line
                },
        ),
    )
}

/// Whether a line holds nothing but a `//` comment.
pub fn comment_line(line: &Vec<char>) -> (b: bool)
    ensures
        b == is_comment_line(line@),
{
    let mut a: usize = 0;
    assert(line@.skip(0) =~= line@);
    while a < line.len() && is_whitespace(line[a])
        invariant
            a <= line.len(),
            trim_start(line@) == trim_start(line@.skip(a as int)),
        decreases line.len() - a,
    {
        assert(line@.skip(a as int).skip(1) =~= line@.skip(a + 1));
        a += 1;
    }
    assert(trim_start(line@) == line@.skip(a as int));
    a < line.len() && line.len() - a >= 2 && line[a] == '/' && line[a + 1] == '/'
}

/// Empties the comment lines of `text`.
pub fn strip_comment_lines(text: &str) -> (out: String)
    ensures
        out@ == without_comment_lines(text@),
{
    let all = chars_of(text);
    let rows = split_lines(&all);
    let ghost kept = lines(text@).map_values(
        |line: Seq<char>|
            if is_comment_line(line) {
                Seq::<char>::empty()
            } else {
                line
            },
    );
    let mut out = String::new();
    let mut i: usize = 0;
    assert(kept.take(0) =~= Seq::<Seq<char>>::empty());
    while i < rows.len()
        invariant
            i <= rows.len(),
            views(rows@) == lines(text@),
            kept == lines(text@).map_values(
                |line: Seq<char>|
                    if is_comment_line(line) {
                        Seq::<char>::empty()
                    } else {
                        line
                    },
            ),
            out@ == joined_lines(kept.take(i as int)),
        decreases rows.len() - i,
    {
        let ghost before = out@;
        if i > 0 {
            out.push('\n');
        }
        assert(views(rows@)[i as int] == rows@[i as int]@);
        let row = &rows[i];
        let ghost start = out@;
        if !comment_line(row) {
            let mut k: usize = 0;
            while k < row.len()
                invariant
                    k <= row.len(),
                    out@ == start + row@.take(k as int),
                decreases row.len() - k,
            {
                out.push(row[k]);
                assert(row@.take(k + 1) =~= row@.take(k as int).push(row@[k as int]));
                k += 1;
            }
            assert(row@.take(row.len() as int) =~= row@);
        } else {
            assert(out@ =~= start + Seq::<char>::empty());
        }
        proof {
            let shorter = kept.take(i as int);
            let longer = kept.take(i + 1);
            assert(longer.drop_last() =~= shorter);
            assert(longer.last() == kept[i as int]);
            if i == 0 {
                assert(out@ =~= longer[0]);
            }
        }
        i += 1;
    }
    assert(kept.take(rows.len() as int) =~= kept);
    out
}

/// Reads a configuration document in which whole lines may be `//` comments:
/// such lines are emptied and the rest is read as strict JSON.
pub fn read_jsonc(text: &str, source: ConfigSource) -> (r: Result<Json, ConfigError>)
    ensures
        match strict_document(without_comment_lines(text@)) {
            Ok(document) => r matches Ok(j) && j@ == document && well_formed(j@),
            Err(why) => r matches Err(ConfigError::Parse { source: s, message }) && s == source
                && message@ == why,
        },
{
    let stripped = strip_comment_lines(text);
    match parse_strict(stripped.as_str()) {
        Ok(j) => Ok(j),
        Err(message) => Err(ConfigError::Parse { source, message }),
    }
}

/// What the base document alone asks for; nothing if there is no base document.
pub open spec fn base_forward_ports(main_text: Option<Seq<char>>) -> Result<Seq<u16>, Seq<char>> {
    match main_text {
        Some(text) => match strict_document(without_comment_lines(text)) {
            Ok(document) => Ok(forward_ports(document)),
            Err(why) => Err(why),
        },
        None => Ok(Seq::<u16>::empty()),
    }
}

/// The ports to forward for a workspace: those of the local override if it
/// names any, else those of the base document, else none. `None` stands for a
/// document that does not exist.
pub fn load_forward_ports(local_text: Option<&str>, main_text: Option<&str>) -> (r: Result<
    Vec<u16>,
    ConfigError,
>)
    ensures
        ({
            let main_model = match main_text {
                Some(text) => Some(text@),
                None => None,
            };
            let from_base = match base_forward_ports(main_model) {
                Ok(ports) => r matches Ok(found) && found@ == ports,
                Err(why) => r matches Err(ConfigError::Parse { source, message }) && source
                    == ConfigSource::Base && message@ == why,
            };
            match local_text {
                Some(local) => match strict_document(without_comment_lines(local@)) {
                    Err(why) => r matches Err(ConfigError::Parse { source, message }) && source
                        == ConfigSource::Override && message@ == why,
                    Ok(document) => if forward_ports(document).len() > 0 {
                        r matches Ok(found) && found@ == forward_ports(document)
                    } else {
                        from_base
                    },
                },
                None => from_base,
            }
        }),
{
    match local_text {
        Some(local) => {
            let value = match read_jsonc(local, ConfigSource::Override) {
                Ok(j) => j,
                Err(e) => {
                    return Err(e);
                },
            };
            let ports = parse_forward_ports_from_value(&value);
            if ports.len() > 0 {
                return Ok(ports);
            }
        },
        None => {},
    }
    match main_text {
        Some(main) => {
            match read_jsonc(main, ConfigSource::Base) {
                Ok(value) => Ok(parse_forward_ports_from_value(&value)),
                Err(e) => Err(e),
            }
        },
        None => Ok(Vec::new()),
    }
}

} // verus!
