//! Reading a request fragment out of a TOML document.
//!
//! The toml crate parses the text; what it hands back is modelled by the
//! uninterpreted shapes below, and every schema decision made on it — which
//! keys are read, what types they must have, when the document is rejected —
//! is verified here.

use vstd::prelude::*;

use crate::headers::HeaderMap;
use crate::request::{builder_wf, view_opt_string, FragmentView, RequestError, RequestMessage,
    RequestMessageBuilder};

verus! {

/// The shape of one TOML value, as far as this library reads it: a string,
/// a table of further values, or anything else.
pub enum TomlNode {
    Text(Seq<char>),
    Table(Map<Seq<char>, TomlNode>),
    Other,
}

#[verifier::external_type_specification]
#[verifier::external_body]
pub struct ExTomlValue(toml::Value);

#[verifier::external_type_specification]
#[verifier::external_body]
#[verifier::reject_recursive_types(K)]
#[verifier::reject_recursive_types(V)]
pub struct ExTomlMap<K, V>(toml::map::Map<K, V>);

/// The shape of a parsed TOML value.
pub uninterp spec fn value_shape(v: toml::Value) -> TomlNode;

/// The contents of a parsed TOML table: each key mapped to the shape of
/// its value.
pub uninterp spec fn table_shape(t: toml::map::Map<String, toml::Value>) -> Map<Seq<char>, TomlNode>;

/// What parsing a text as a TOML document yields: the top-level table's
/// contents, or the parser's diagnostic message where the text is not a
/// well-formed document.
pub uninterp spec fn toml_doc(text: Seq<char>) -> Result<Map<Seq<char>, TomlNode>, Seq<char>>;

/// Relies on toml::from_str::<toml::Table>: parsing is a function of the
/// text alone, succeeds exactly on well-formed documents, and yields the
/// document's top-level table. The error case carries the parser's own
/// diagnostic message.
#[verifier::external_body]
fn parse_table(text: &str) -> (r: Result<toml::Table, String>)
    ensures
        match r {
            Result::Ok(t) => toml_doc(text@) == Result::<Map<Seq<char>, TomlNode>, Seq<char>>::Ok(
                table_shape(t),
            ),
            Result::Err(m) => toml_doc(text@) == Result::<
                Map<Seq<char>, TomlNode>,
                Seq<char>,
            >::Err(m@),
        },
{
    match toml::from_str::<toml::Table>(text) {
        Ok(t) => Ok(t),
        Err(e) => Err(e.message().to_string()),
    }
}

/// Relies on toml::map::Map::get: looks a key up in the table's contents.
#[verifier::external_body]
fn table_get<'a>(t: &'a toml::Table, key: &str) -> (r: Option<&'a toml::Value>)
    ensures
        match r {
            Option::Some(v) => table_shape(*t).contains_key(key@) && table_shape(*t)[key@]
                == value_shape(*v),
            Option::None => !table_shape(*t).contains_key(key@),
        },
{
    t.get(key)
}

/// Relies on toml::Value::as_str: yields the text exactly of a string value.
#[verifier::external_body]
fn value_as_str<'a>(v: &'a toml::Value) -> (r: Option<&'a str>)
    ensures
        match r {
            Option::Some(s) => value_shape(*v) == TomlNode::Text(s@),
            Option::None => !(value_shape(*v) is Text),
        },
{
    v.as_str()
}

/// Relies on toml::Value::as_table: yields the table exactly of a table value.
#[verifier::external_body]
fn value_as_table<'a>(v: &'a toml::Value) -> (r: Option<&'a toml::Table>)
    ensures
        match r {
            Option::Some(t) => value_shape(*v) == TomlNode::Table(table_shape(*t)),
            Option::None => !(value_shape(*v) is Table),
        },
{
    v.as_table()
}

/// Relies on toml::map::Map::iter: hands the table's entries out, each of
/// the table's keys exactly once, each paired with its value.
#[verifier::external_body]
fn table_pairs(t: &toml::Table) -> (r: Vec<(String, toml::Value)>)
    ensures
        forall|i: int, j: int|
            0 <= i < j < r@.len() ==> (#[trigger] r@[i]).0@ != (#[trigger] r@[j]).0@,
        forall|i: int|
            0 <= i < r@.len() ==> table_shape(*t).contains_key((#[trigger] r@[i]).0@)
                && table_shape(*t)[r@[i].0@] == value_shape(r@[i].1),
        forall|k: Seq<char>|
            table_shape(*t).contains_key(k) ==> exists|i: int|
                0 <= i < r@.len() && (#[trigger] r@[i]).0@ == k,
{
    t.iter().map(|(k, v)| (k.clone(), v.clone())).collect()
}

/// What a top-level scalar key holds: absent, its text, or a schema error
/// where the key holds something other than a string.
pub open spec fn scalar_of(doc: Map<Seq<char>, TomlNode>, key: Seq<char>) -> Result<
    Option<Seq<char>>,
    (),
> {
    if !doc.contains_key(key) {
        Result::Ok(Option::None)
    } else {
        match doc[key] {
            TomlNode::Text(s) => Result::Ok(Option::Some(s)),
            _ => Result::Err(()),
        }
    }
}

/// Every value of the table is a string.
pub open spec fn header_table_ok(m: Map<Seq<char>, TomlNode>) -> bool {
    forall|k: Seq<char>| #[trigger] m.contains_key(k) ==> m[k] is Text
}

/// The string mapping a table of string values denotes.
pub open spec fn header_strings(m: Map<Seq<char>, TomlNode>) -> Map<Seq<char>, Seq<char>> {
    Map::new(
        |k: Seq<char>| m.contains_key(k),
        |k: Seq<char>|
            match m[k] {
                TomlNode::Text(s) => s,
                _ => Seq::empty(),
            },
    )
}

/// What the `headers` key holds: absent, its table as a string mapping, or
/// a schema error where it is no table or holds a non-string value.
pub open spec fn headers_of(doc: Map<Seq<char>, TomlNode>) -> Result<
    Option<Map<Seq<char>, Seq<char>>>,
    (),
> {
    if !doc.contains_key("headers"@) {
        Result::Ok(Option::None)
    } else {
        match doc["headers"@] {
            TomlNode::Table(m) => if header_table_ok(m) {
                Result::Ok(Option::Some(header_strings(m)))
            } else {
                Result::Err(())
            },
            _ => Result::Err(()),
        }
    }
}

/// The fragment a document denotes: the four scalar keys and the `headers`
/// table, each optional; any key of the wrong type is a schema error.
/// Unknown top-level keys are ignored.
pub open spec fn fragment_of_doc(doc: Map<Seq<char>, TomlNode>) -> Result<FragmentView, ()> {
    if scalar_of(doc, "method"@) is Err || scalar_of(doc, "host"@) is Err || scalar_of(
        doc,
        "path"@,
    ) is Err || scalar_of(doc, "body"@) is Err || headers_of(doc) is Err {
        Result::Err(())
    } else {
        Result::Ok(
            FragmentView {
                method: scalar_of(doc, "method"@).unwrap(),
                host: scalar_of(doc, "host"@).unwrap(),
                path: scalar_of(doc, "path"@).unwrap(),
                body: scalar_of(doc, "body"@).unwrap(),
                headers: headers_of(doc).unwrap(),
            },
        )
    }
}

/// The message this library reports for a document whose shape is wrong:
/// it names the first offending key, checked in the order method, host,
/// path, body, headers.
pub open spec fn schema_error_text(doc: Map<Seq<char>, TomlNode>) -> Seq<char> {
    if scalar_of(doc, "method"@) is Err {
        "method must be a string"@
    } else if scalar_of(doc, "host"@) is Err {
        "host must be a string"@
    } else if scalar_of(doc, "path"@) is Err {
        "path must be a string"@
    } else if scalar_of(doc, "body"@) is Err {
        "body must be a string"@
    } else {
        "headers must be a table of strings"@
    }
}

/// Reads one top-level scalar key.
fn get_scalar(t: &toml::Table, key: &str) -> (r: Result<Option<String>, ()>)
    ensures
        match scalar_of(table_shape(*t), key@) {
            Result::Ok(o) => r matches Result::Ok(ro) && view_opt_string(ro) == o,
            Result::Err(_) => r is Err,
        },
{
    match table_get(t, key) {
        Option::None => Result::Ok(Option::None),
        Option::Some(v) => match value_as_str(v) {
            Option::Some(s) => Result::Ok(Option::Some(String::from_str(s))),
            Option::None => Result::Err(()),
        },
    }
}

/// Reads the `headers` table.
fn get_headers(t: &toml::Table) -> (r: Result<Option<HeaderMap>, ()>)
    ensures
        match headers_of(table_shape(*t)) {
            Result::Ok(o) => r matches Result::Ok(ro) && (match (ro, o) {
                (Option::Some(hm), Option::Some(m)) => hm@ == m && hm.wf(),
                (Option::None, Option::None) => true,
                _ => false,
            }),
            Result::Err(_) => r is Err,
        },
{
    let value = match table_get(t, "headers") {
        Option::None => {
            return Result::Ok(Option::None);
        },
        Option::Some(v) => v,
    };
    let ht = match value_as_table(value) {
        Option::None => {
            return Result::Err(());
        },
        Option::Some(ht) => ht,
    };
    let ghost m = table_shape(*ht);
    let pairs = table_pairs(ht);
    let n = pairs.len();
    let mut hm = HeaderMap::new();
    let mut i: usize = 0;
    while i < n
        invariant
            i <= n,
            n == pairs@.len(),
            m == table_shape(*ht),
            headers_of(table_shape(*t)) == (if header_table_ok(m) {
                Result::<Option<Map<Seq<char>, Seq<char>>>, ()>::Ok(
                    Option::Some(header_strings(m)),
                )
            } else {
                Result::<Option<Map<Seq<char>, Seq<char>>>, ()>::Err(())
            }),
            forall|a: int, b: int|
                0 <= a < b < pairs@.len() ==> (#[trigger] pairs@[a]).0@ != (#[trigger] pairs@[b]).0@,
            forall|a: int|
                0 <= a < pairs@.len() ==> m.contains_key((#[trigger] pairs@[a]).0@) && m[pairs@[a].0@]
                    == value_shape(pairs@[a].1),
            forall|k: Seq<char>|
                m.contains_key(k) ==> exists|a: int| 0 <= a < pairs@.len() && (#[trigger] pairs@[a]).0@
                    == k,
            hm.wf(),
            forall|k: Seq<char>| #[trigger] hm@.contains_key(k) <==> exists|a: int|
                0 <= a < i && (#[trigger] pairs@[a]).0@ == k,
            forall|a: int|
                0 <= a < i ==> (m[(#[trigger] pairs@[a]).0@] is Text) && hm@[pairs@[a].0@]
                    == header_strings(m)[pairs@[a].0@],
        decreases n - i,
    {
        let text = match value_as_str(&pairs[i].1) {
            Option::None => {
                proof {
                    assert(m.contains_key(pairs@[i as int].0@));
                    assert(!(m[pairs@[i as int].0@] is Text));
                    assert(!header_table_ok(m));
                }
                return Result::Err(());
            },
            Option::Some(s) => s,
        };
        let key = pairs[i].0.clone();
        let ghost old_hm = hm@;
        hm.insert(key, String::from_str(text));
        proof {
            assert forall|k: Seq<char>| #[trigger] hm@.contains_key(k) implies exists|a: int|
                0 <= a < i + 1 && (#[trigger] pairs@[a]).0@ == k by {
                if k == pairs@[i as int].0@ {
                    assert((pairs@[i as int]).0@ == k);
                } else {
                    assert(old_hm.contains_key(k));
                }
            }
            assert forall|k: Seq<char>| (exists|a: int|
                0 <= a < i + 1 && (#[trigger] pairs@[a]).0@ == k) implies hm@.contains_key(k) by {
            }
        }
        i = i + 1;
    }
    proof {
        assert(header_table_ok(m)) by {
            assert forall|k: Seq<char>| #[trigger] m.contains_key(k) implies m[k] is Text by {
                let a = choose|a: int| 0 <= a < pairs@.len() && (#[trigger] pairs@[a]).0@ == k;
                assert(hm@.contains_key(k));
            }
        }
        assert(hm@ =~= header_strings(m)) by {
            assert forall|k: Seq<char>| #[trigger] hm@.contains_key(k) implies header_strings(
                m,
            ).contains_key(k) by {
                let a = choose|a: int| 0 <= a < pairs@.len() && (#[trigger] pairs@[a]).0@ == k;
                assert(m.contains_key(k));
            }
            assert forall|k: Seq<char>| #[trigger] header_strings(m).contains_key(k)
                implies hm@.contains_key(k) by {
                assert(m.contains_key(k));
            }
        }
    }
    Result::Ok(Option::Some(hm))
}

impl RequestMessage {
    /// Parses a fragment out of a TOML document: the optional scalar keys
    /// `method`, `host`, `path`, `body` and the optional string table
    /// `headers`. A text that is no well-formed document fails with the
    /// underlying parser's diagnostic message; one that holds one of those
    /// keys with the wrong type fails with the message naming that key;
    /// unknown top-level keys are ignored.
    pub fn from_text(file_text: &str) -> (r: Result<RequestMessageBuilder, RequestError>)
        ensures
            match toml_doc(file_text@) {
                Result::Ok(doc) => match fragment_of_doc(doc) {
                    Result::Ok(fv) => r matches Result::Ok(b) && b@ == fv && builder_wf(b),
                    Result::Err(_) => r matches Result::Err(RequestError::TomlParserError {
                        message,
                    }) && message@ == schema_error_text(doc),
                },
                Result::Err(diag) => r matches Result::Err(RequestError::TomlParserError {
                    message,
                }) && message@ == diag,
            },
    {
        let table = match parse_table(file_text) {
            Result::Ok(t) => t,
            Result::Err(message) => {
                return Result::Err(RequestError::TomlParserError { message });
            },
        };
        let method = match get_scalar(&table, "method") {
            Result::Ok(o) => o,
            Result::Err(_) => {
                return Result::Err(
                    RequestError::TomlParserError {
                        message: String::from_str("method must be a string"),
                    },
                );
            },
        };
        let host = match get_scalar(&table, "host") {
            Result::Ok(o) => o,
            Result::Err(_) => {
                return Result::Err(
                    RequestError::TomlParserError {
                        message: String::from_str("host must be a string"),
                    },
                );
            },
        };
        let path = match get_scalar(&table, "path") {
            Result::Ok(o) => o,
            Result::Err(_) => {
                return Result::Err(
                    RequestError::TomlParserError {
                        message: String::from_str("path must be a string"),
                    },
                );
            },
        };
        let body = match get_scalar(&table, "body") {
            Result::Ok(o) => o,
            Result::Err(_) => {
                return Result::Err(
                    RequestError::TomlParserError {
                        message: String::from_str("body must be a string"),
                    },
                );
            },
        };
        let headers = match get_headers(&table) {
            Result::Ok(o) => o,
            Result::Err(_) => {
                return Result::Err(
                    RequestError::TomlParserError {
                        message: String::from_str("headers must be a table of strings"),
                    },
                );
            },
        };
        Result::Ok(RequestMessageBuilder { method, host, path, body, headers })
    }
}

} // verus!
