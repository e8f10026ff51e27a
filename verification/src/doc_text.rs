//! Documents read from text and written back: TOML by the `toml` crate, JSON
//! by `serde_json`. The parsers and printers are called here; what they make
//! of a text is named, and the readers of `doc` and `config` work on the
//! document they give.

use vstd::prelude::*;
use crate::doc::Doc;
use serde_json::Value as Json;
use toml::Value as Toml;

verus! {

#[verifier::external_type_specification]
#[verifier::external_body]
pub struct ExTomlValue(toml::Value);

#[verifier::external_type_specification]
#[verifier::external_body]
pub struct ExJsonValue(serde_json::Value);

/// The document the `toml` crate reads from `text`; `None` where it is not TOML.
pub uninterp spec fn toml_doc_of(text: Seq<char>) -> Option<Doc>;

/// The document `serde_json` reads from `text`; `None` where it is not JSON.
pub uninterp spec fn json_doc_of(text: Seq<char>) -> Option<Doc>;

/// What `serde_json::to_string_pretty` prints for a document (two-space
/// indent), or the error it gives.
pub uninterp spec fn json_pretty_of(d: Doc) -> Result<Seq<char>, Seq<char>>;

/// What `toml::to_string_pretty` prints for a document, or the error it
/// gives; `None` where the document holds a value TOML has no form for (a
/// null, or a number or date-time text `toml` does not read back).
pub uninterp spec fn toml_pretty_of(d: Doc) -> Option<Result<Seq<char>, Seq<char>>>;

/// A `toml::Value` as a document, variant for variant (a float and a
/// date-time kept as the text `toml` prints for them). Only converts; it is
/// what `parse_toml` hands back.
#[verifier::external_body]
fn toml_doc(value: &Toml) -> Doc {
    match value {
        Toml::String(s) => Doc::Str(s.clone()),
        Toml::Integer(i) => Doc::Int(*i),
        Toml::Float(_) => Doc::Float(value.to_string()),
        Toml::Boolean(b) => Doc::Bool(*b),
        Toml::Datetime(d) => Doc::Datetime(d.to_string()),
        Toml::Array(a) => Doc::Array(a.iter().map(toml_doc).collect()),
        Toml::Table(t) => Doc::Table(t.iter().map(|(k, v)| (k.clone(), toml_doc(v))).collect()),
    }
}

/// A `serde_json::Value` as a document, variant for variant (a number that is
/// no `i64` kept as the text `serde_json` prints for it). Only converts; it
/// is what `parse_json` hands back.
#[verifier::external_body]
fn json_doc(value: &Json) -> Doc {
    match value {
        Json::Null => Doc::Null,
        Json::Bool(b) => Doc::Bool(*b),
        Json::Number(n) => n.as_i64().map_or_else(|| Doc::Float(n.to_string()), Doc::Int),
        Json::String(s) => Doc::Str(s.clone()),
        Json::Array(a) => Doc::Array(a.iter().map(json_doc).collect()),
        Json::Object(o) => Doc::Table(o.iter().map(|(k, v)| (k.clone(), json_doc(v))).collect()),
    }
}

/// A document as a `toml::Value`, variant for variant; `None` where it holds
/// a value `toml_scalar` has no form for. Only converts; it is what
/// `render_toml` prints.
#[verifier::external_body]
fn toml_value(doc: &Doc) -> Option<Toml> {
    match doc {
        Doc::Array(a) => Some(Toml::Array(a.iter().map(toml_value).collect::<Option<_>>()?)),
        Doc::Table(t) => Some(Toml::Table(t.iter().map(|(k, v)| Some((k.clone(), toml_value(v)?))).collect::<Option<_>>()?)),
        _ => toml_scalar(doc),
    }
}

/// A scalar document as a `toml::Value`; `None` for a null, and for a float
/// or date-time text that does not read back as one. Only converts.
#[verifier::external_body]
fn toml_scalar(doc: &Doc) -> Option<Toml> {
    Some(match doc {
        Doc::Bool(b) => Toml::Boolean(*b),
        Doc::Int(i) => Toml::Integer(*i),
        Doc::Float(t) => Toml::Float(t.parse().ok()?),
        Doc::Datetime(t) => Toml::Datetime(t.parse().ok()?),
        Doc::Str(s) => Toml::String(s.clone()),
        _ => return None,
    })
}

/// A document as a `serde_json::Value`, variant for variant (a number text
/// `serde_json` does not read as a number stays a string). Only converts; it
/// is what `render_json` prints.
#[verifier::external_body]
fn json_value(doc: &Doc) -> Json {
    match doc {
        Doc::Null => Json::Null,
        Doc::Bool(b) => Json::Bool(*b),
        Doc::Int(i) => Json::from(*i),
        Doc::Float(t) | Doc::Datetime(t) => t.parse().map_or_else(|_| Json::String(t.clone()), Json::Number),
        Doc::Str(s) => Json::String(s.clone()),
        Doc::Array(a) => Json::Array(a.iter().map(json_value).collect()),
        Doc::Table(t) => Json::Object(t.iter().map(|(k, v)| (k.clone(), json_value(v))).collect()),
    }
}

/// `text.parse::<toml::Value>()`: the TOML document in `text`, `None` where it
/// is not TOML. A function of the text alone, which `toml_doc_of` names.
#[verifier::external_body]
pub fn parse_toml(text: &str) -> (r: Option<Doc>)
    ensures
        r == toml_doc_of(text@),
{
    text.parse::<Toml>().ok().as_ref().map(toml_doc)
}

/// `serde_json::from_str::<serde_json::Value>`: the JSON document in `text`,
/// `None` where it is not JSON. A function of the text alone, which
/// `json_doc_of` names.
#[verifier::external_body]
pub fn parse_json(text: &str) -> (r: Option<Doc>)
    ensures
        r == json_doc_of(text@),
{
    serde_json::from_str::<Json>(text).ok().as_ref().map(json_doc)
}

/// `serde_json::to_string_pretty` of the document, or the error it gives as
/// text. A function of the document alone, which `json_pretty_of` names.
#[verifier::external_body]
pub fn render_json(d: &Doc) -> (r: Result<String, String>)
    ensures
        match r {
            Ok(s) => json_pretty_of(*d) == Ok::<Seq<char>, Seq<char>>(s@),
            Err(e) => json_pretty_of(*d) == Err::<Seq<char>, Seq<char>>(e@),
        },
{
    serde_json::to_string_pretty(&json_value(d)).map_err(|e| e.to_string())
}

/// `toml::to_string_pretty` of the document, or the error it gives as text;
/// `None` where the document holds a value TOML has no form for. A function
/// of the document alone, which `toml_pretty_of` names.
#[verifier::external_body]
pub fn render_toml(d: &Doc) -> (r: Option<Result<String, String>>)
    ensures
        match r {
            None => toml_pretty_of(*d) is None,
            Some(Ok(s)) => toml_pretty_of(*d) == Some(Ok::<Seq<char>, Seq<char>>(s@)),
            Some(Err(e)) => toml_pretty_of(*d) == Some(Err::<Seq<char>, Seq<char>>(e@)),
        },
{
    toml_value(d).map(|v| toml::to_string_pretty(&v).map_err(|e| e.to_string()))
}

} // verus!
