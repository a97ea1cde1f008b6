//! Decoding one input line into a log record.
//!
//! The JSON text is parsed by serde_json behind a trusted boundary; the
//! resulting value tree is the library's own `StructuredValue`, and the
//! extraction of the required record fields from it is verified code.

use crate::entry::LogEntry;
use crate::entry::SpecRecord;
use crate::text::str_eq;
use crate::value::StructuredValue;
use vstd::prelude::*;
use vstd::string::StringExecFns;

verus! {

/// Declares serde_json's value type, so that the conversion below can name
/// it in its signature; values of it stay opaque here.
#[verifier::external_type_specification]
#[verifier::external_body]
#[allow(dead_code)]
pub struct ExValue(serde_json::Value);

/// What serde_json parsing makes of a line of text: the value tree on
/// success, the error's display text on failure. The result depends on the
/// text alone.
pub uninterp spec fn parsed_json(s: Seq<char>) -> Result<StructuredValue, Seq<char>>;

/// Relies on serde_json::Value: each variant is moved into the matching
/// variant of the library's algebra, numeric text kept verbatim and object
/// entries kept in source order.
#[verifier::external_body]
fn structured_from_serde(v: serde_json::Value) -> StructuredValue {
    match v {
        serde_json::Value::Null => StructuredValue::Null,
        serde_json::Value::Bool(b) => StructuredValue::Boolean(b),
        serde_json::Value::Number(n) => StructuredValue::Number(n.to_string()),
        serde_json::Value::String(s) => StructuredValue::Text(s),
        serde_json::Value::Array(a) => StructuredValue::Array(
            a.into_iter().map(structured_from_serde).collect(),
        ),
        serde_json::Value::Object(m) => StructuredValue::Object(
            m.into_iter().map(|(k, w)| (k, structured_from_serde(w))).collect(),
        ),
    }
}

/// Relies on serde_json::from_str: whether a line parses, and into which
/// value tree, depends on the line's text alone; on failure the error's
/// display text is returned.
#[verifier::external_body]
pub(crate) fn parse_json_line(line: &str) -> (r: Result<StructuredValue, String>)
    ensures
        r is Ok <==> parsed_json(line@) is Ok,
        (r matches Ok(v) ==> parsed_json(line@) matches Ok(w) && v == w),
        (r matches Err(e) ==> parsed_json(line@) matches Err(m) && e@ == m),
{
    match serde_json::from_str::<serde_json::Value>(line) {
        Ok(v) => Ok(structured_from_serde(v)),
        Err(e) => Err(e.to_string()),
    }
}

/// The value of the first entry whose key reads `key`, if any.
pub open spec fn find_field(
    entries: Seq<(String, StructuredValue)>,
    key: Seq<char>,
) -> Option<StructuredValue>
    decreases entries.len(),
{
    if entries.len() == 0 {
        None
    } else if entries[0].0@ == key {
        Some(entries[0].1)
    } else {
        find_field(entries.subrange(1, entries.len() as int), key)
    }
}

/// Whether a key names one of the three required record fields.
pub open spec fn is_required_key(key: Seq<char>) -> bool {
    key == "timestamp"@ || key == "level"@ || key == "message"@
}

/// The entries left over for the open extension bag: every entry whose key
/// is not a required field name, in source order.
pub open spec fn extras_of(
    entries: Seq<(String, StructuredValue)>,
) -> Seq<(String, StructuredValue)>
    decreases entries.len(),
{
    if entries.len() == 0 {
        Seq::empty()
    } else {
        let prefix = extras_of(entries.drop_last());
        if is_required_key(entries.last().0@) {
            prefix
        } else {
            prefix.push(entries.last())
        }
    }
}

/// The record that a decoded top-level value denotes, or the description of
/// why it is rejected. Required fields are looked up by first occurrence;
/// checks run in the order timestamp, level, message.
pub open spec fn entry_of(v: StructuredValue) -> Result<SpecRecord, Seq<char>> {
    match v {
        StructuredValue::Object(entries) => entry_of_entries(entries@),
        _ => Err("expected a json object"@),
    }
}

/// The record denoted by a top-level object's entries, or the rejection.
pub open spec fn entry_of_entries(
    es: Seq<(String, StructuredValue)>,
) -> Result<SpecRecord, Seq<char>> {
    match find_field(es, "timestamp"@) {
        Option::None => Err("missing field timestamp"@),
        Option::Some(StructuredValue::Text(ts)) => match find_field(es, "level"@) {
            Option::None => Err("missing field level"@),
            Option::Some(StructuredValue::Text(lv)) => match find_field(es, "message"@) {
                Option::None => Err("missing field message"@),
                Option::Some(StructuredValue::Text(msg)) => Ok(
                    SpecRecord {
                        timestamp: ts,
                        level: lv,
                        message: msg,
                        extras: extras_of(es),
                    },
                ),
                Option::Some(_) => Err("field message is not a string"@),
            },
            Option::Some(_) => Err("field level is not a string"@),
        },
        Option::Some(_) => Err("field timestamp is not a string"@),
    }
}

/// What classification makes of one non-empty line of text: the parsed
/// record, or the description of the parse fault.
pub open spec fn classify_text(s: Seq<char>) -> Result<SpecRecord, Seq<char>> {
    match parsed_json(s) {
        Ok(v) => entry_of(v),
        Err(m) => Err(m),
    }
}

/// First-match lookup distributes over concatenation: the left part wins
/// when it has the key.
proof fn lemma_find_field_concat(
    s: Seq<(String, StructuredValue)>,
    t: Seq<(String, StructuredValue)>,
    key: Seq<char>,
)
    ensures
        find_field(s + t, key) == (if find_field(s, key) is Some {
            find_field(s, key)
        } else {
            find_field(t, key)
        }),
    decreases s.len(),
{
    if s.len() == 0 {
        assert(s + t =~= t);
    } else {
        assert((s + t)[0] == s[0]);
        assert((s + t).len() > 0);
        if s[0].0@ == key {
        } else {
            assert((s + t).subrange(1, (s + t).len() as int) =~= s.subrange(1, s.len() as int)
                + t);
            lemma_find_field_concat(s.subrange(1, s.len() as int), t, key);
        }
    }
}

/// First-match lookup in a one-entry sequence tests that entry's key.
proof fn lemma_find_field_singleton(x: (String, StructuredValue), key: Seq<char>)
    ensures
        find_field(seq![x], key) == (if x.0@ == key {
            Option::Some(x.1)
        } else {
            Option::<StructuredValue>::None
        }),
{
    reveal_with_fuel(find_field, 2);
    assert(seq![x].subrange(1, 1) =~= Seq::<(String, StructuredValue)>::empty());
    assert(seq![x][0] == x);
}

/// The state of one required field while the entries are folded: not seen
/// yet, seen with a string value, or seen with a value of the wrong kind.
enum FieldSlot {
    Missing,
    Good(String),
    BadKind,
}

/// The slot that a first-occurrence lookup result corresponds to.
spec fn slot_matches(found: Option<StructuredValue>, slot: FieldSlot) -> bool {
    match found {
        Option::None => slot is Missing,
        Option::Some(w) => match w {
            StructuredValue::Text(s) => slot == FieldSlot::Good(s),
            _ => slot is BadKind,
        },
    }
}

/// Builds the record from a decoded top-level value, verified against
/// `entry_of`: required fields by first occurrence, all other entries folded
/// into `extras` in source order.
pub fn entry_from_value(v: StructuredValue) -> (r: Result<LogEntry, String>)
    ensures
        r is Ok <==> entry_of(v) is Ok,
        (r matches Ok(e) ==> entry_of(v) matches Ok(m) && e@ == m),
        (r matches Err(s) ==> entry_of(v) matches Err(m) && s@ == m),
{
    match v {
        StructuredValue::Object(entries) => entry_from_entries(entries),
        _ => Err(String::from_str("expected a json object")),
    }
}

fn entry_from_entries(entries: Vec<(String, StructuredValue)>) -> (r: Result<LogEntry, String>)
    ensures
        r is Ok <==> entry_of_entries(entries@) is Ok,
        (r matches Ok(e) ==> entry_of_entries(entries@) matches Ok(m) && e@ == m),
        (r matches Err(s) ==> entry_of_entries(entries@) matches Err(m) && s@ == m),
{
    let ghost es0 = entries@;
    let mut rest = entries;
    let mut ts = FieldSlot::Missing;
    let mut lv = FieldSlot::Missing;
    let mut msg = FieldSlot::Missing;
    let mut extras: Vec<(String, StructuredValue)> = Vec::new();
    let mut i: usize = 0;
    let total: usize = rest.len();
    while rest.len() > 0
        invariant
            es0.len() == total,
            i <= es0.len(),
            rest@ =~= es0.subrange(i as int, es0.len() as int),
            slot_matches(find_field(es0.subrange(0, i as int), "timestamp"@), ts),
            slot_matches(find_field(es0.subrange(0, i as int), "level"@), lv),
            slot_matches(find_field(es0.subrange(0, i as int), "message"@), msg),
            extras@ == extras_of(es0.subrange(0, i as int)),
        decreases rest.len(),
    {
        let kv = rest.remove(0);
        proof {
            assert(kv == es0[i as int]);
            assert(rest@ =~= es0.subrange(i as int + 1, es0.len() as int));
            assert(es0.subrange(0, i as int + 1) =~= es0.subrange(0, i as int) + seq![
                es0[i as int],
            ]);
            assert(seq![es0[i as int]].subrange(1, 1) =~= Seq::empty());
            lemma_find_field_concat(es0.subrange(0, i as int), seq![es0[i as int]], "timestamp"@);
            lemma_find_field_concat(es0.subrange(0, i as int), seq![es0[i as int]], "level"@);
            lemma_find_field_concat(es0.subrange(0, i as int), seq![es0[i as int]], "message"@);
            lemma_find_field_singleton(es0[i as int], "timestamp"@);
            lemma_find_field_singleton(es0[i as int], "level"@);
            lemma_find_field_singleton(es0[i as int], "message"@);
            assert(es0.subrange(0, i as int + 1).drop_last() =~= es0.subrange(0, i as int));
            assert(es0.subrange(0, i as int + 1).last() == es0[i as int]);
            reveal_strlit("timestamp");
            reveal_strlit("level");
            reveal_strlit("message");
            assert("timestamp"@.len() == 9);
            assert("level"@.len() == 5);
            assert("message"@.len() == 7);
            assert("timestamp"@ != "level"@);
            assert("timestamp"@ != "message"@);
            assert("level"@ != "message"@);
        }
        if str_eq(kv.0.as_str(), "timestamp") {
            match ts {
                FieldSlot::Missing => match kv.1 {
                    StructuredValue::Text(s) => {
                        ts = FieldSlot::Good(s);
                    },
                    _ => {
                        ts = FieldSlot::BadKind;
                    },
                },
                _ => {},
            }
        } else if str_eq(kv.0.as_str(), "level") {
            match lv {
                FieldSlot::Missing => match kv.1 {
                    StructuredValue::Text(s) => {
                        lv = FieldSlot::Good(s);
                    },
                    _ => {
                        lv = FieldSlot::BadKind;
                    },
                },
                _ => {},
            }
        } else if str_eq(kv.0.as_str(), "message") {
            match msg {
                FieldSlot::Missing => match kv.1 {
                    StructuredValue::Text(s) => {
                        msg = FieldSlot::Good(s);
                    },
                    _ => {
                        msg = FieldSlot::BadKind;
                    },
                },
                _ => {},
            }
        } else {
            extras.push(kv);
        }
        i = i + 1;
    }
    proof {
        assert(es0.subrange(0, es0.len() as int) =~= es0);
    }
    let timestamp = match ts {
        FieldSlot::Good(s) => s,
        FieldSlot::Missing => {
            return Err(String::from_str("missing field timestamp"));
        },
        FieldSlot::BadKind => {
            return Err(String::from_str("field timestamp is not a string"));
        },
    };
    let level = match lv {
        FieldSlot::Good(s) => s,
        FieldSlot::Missing => {
            return Err(String::from_str("missing field level"));
        },
        FieldSlot::BadKind => {
            return Err(String::from_str("field level is not a string"));
        },
    };
    let message = match msg {
        FieldSlot::Good(s) => s,
        FieldSlot::Missing => {
            return Err(String::from_str("missing field message"));
        },
        FieldSlot::BadKind => {
            return Err(String::from_str("field message is not a string"));
        },
    };
    Ok(LogEntry { timestamp, level, message, extras })
}

/// Decodes one non-empty input line: JSON parsing behind the trusted
/// boundary, then verified extraction of the record fields.
pub fn parse_line(line: &str) -> (r: Result<LogEntry, String>)
    ensures
        r is Ok <==> classify_text(line@) is Ok,
        (r matches Ok(e) ==> classify_text(line@) matches Ok(m) && e@ == m),
        (r matches Err(s) ==> classify_text(line@) matches Err(m) && s@ == m),
{
    match parse_json_line(line) {
        Ok(v) => entry_from_value(v),
        Err(e) => Err(e),
    }
}

} // verus!
