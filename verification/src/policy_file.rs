//! Reading the policy from the text of the policy file.
//!
//! The syntax is TOML and is read by the `toml` crate; what the parsed
//! document means as a policy is decided in [`crate::document`].

use vstd::prelude::*;
use crate::collections::StringMap;
use crate::document::{decode_policy, policy_of, Doc, Node};
use crate::rudoers::Rudoers;

verus! {

/// A parsed TOML value of the `toml` crate; nothing of it is visible here.
#[verifier::external_type_specification]
#[verifier::external_body]
pub struct ExTomlValue(toml::Value);

/// The error that the `toml` crate reports for text that is not TOML.
#[verifier::external_type_specification]
#[verifier::external_body]
pub struct ExTomlError(toml::de::Error);

/// The document that the `toml` crate reads from `text`, or `None` where it
/// rejects the text.
pub uninterp spec fn toml_document(text: Seq<char>) -> Option<Doc>;

/// The content that a parsed TOML value holds.
pub uninterp spec fn value_doc(value: toml::Value) -> Doc;

/// Why a text is not a policy.
#[derive(Debug, PartialEq, Eq)]
pub enum PolicyError {
    /// The text is not TOML; the parser's report is attached.
    Syntax(toml::de::Error),
    /// The text is TOML but does not spell out a policy.
    Shape,
}

/// Calls `toml::from_str` to parse `text` as a TOML document.
///
/// Trusted: the parser's verdict and the value it builds depend on the text
/// alone, so both are named by [`toml_document`]; nothing is claimed about
/// which texts it accepts or what it reads from them.
#[verifier::external_body]
fn parse_toml(text: &str) -> (parsed: Result<toml::Value, toml::de::Error>)
    ensures
        parsed matches Ok(value) ==> toml_document(text@) == Some(value_doc(value)),
        parsed is Err ==> toml_document(text@) is None,
{
    toml::from_str::<toml::Value>(text)
}

/// Copies a `toml::Value` into a [`Node`], variant by variant: strings,
/// booleans, arrays and tables keep their content, tables in the order of
/// their keys; integers, floats and dates become [`Node::Other`].
///
/// Trusted: the copy depends on the value alone and is named by
/// [`value_doc`].
#[verifier::external_body]
fn lift(value: &toml::Value) -> (node: Node)
    ensures
        node@ == value_doc(*value),
{
    match value {
        toml::Value::String(text) => Node::Text(text.clone()),
        toml::Value::Boolean(flag) => Node::Flag(*flag),
        toml::Value::Array(items) => Node::Array(items.iter().map(lift).collect()),
        toml::Value::Table(table) => Node::Table(
            StringMap { entries: table.iter().map(|(k, v)| (k.clone(), lift(v))).collect() },
        ),
        toml::Value::Integer(_) => Node::Other,
        toml::Value::Float(_) => Node::Other,
        toml::Value::Datetime(_) => Node::Other,
    }
}

/// Parses `text` into a document tree.
pub fn parse_document(text: &str) -> (parsed: Result<Node, toml::de::Error>)
    ensures
        parsed matches Ok(node) ==> toml_document(text@) == Some(node@),
        parsed is Err ==> toml_document(text@) is None,
{
    match parse_toml(text) {
        Ok(value) => Ok(lift(&value)),
        Err(error) => Err(error),
    }
}

/// Reads the policy from the contents of the policy file.
///
/// Succeeds exactly where the contents are TOML and the document spells out
/// a policy; the policy returned is the one it spells out.
pub fn parse_rudoers(contents: &str) -> (parsed: Result<Rudoers, PolicyError>)
    ensures
        match parsed {
            Ok(policy) => toml_document(contents@) matches Some(doc) && policy_of(doc) == Some(
                policy@,
            ) && policy.wf(),
            Err(PolicyError::Syntax(_)) => toml_document(contents@) is None,
            Err(PolicyError::Shape) => toml_document(contents@) matches Some(doc) && policy_of(doc)
                is None,
        },
{
    match parse_document(contents) {
        Ok(node) => match decode_policy(&node) {
            Some(policy) => Ok(policy),
            None => Err(PolicyError::Shape),
        },
        Err(error) => Err(PolicyError::Syntax(error)),
    }
}

} // verus!
