use vstd::prelude::*;

verus! {

/// The JSON string literal that stands for a text: the text between double
/// quotes, with the escapes that JSON asks for.
pub uninterp spec fn json_string_text(s: Seq<char>) -> Seq<char>;

/// Writes `s` as a JSON string literal, by `serde_json`: the `Display` form
/// of `serde_json::Value::String`. The contract only names the result: the
/// same text always gives the same literal.
#[verifier::external_body]
pub(crate) fn json_string(s: &str) -> (r: String)
    ensures
        r@ == json_string_text(s@),
{
    serde_json::Value::String(s.to_owned()).to_string()
}

/// A member of a JSON object that holds a string is kept with the string;
/// of any other member the name alone is kept.
pub type Members = Seq<(Seq<char>, Option<Seq<char>>)>;

/// What a text is as JSON: `None` where it is no JSON document,
/// `Some(None)` where it is one that is no object, and else the members of
/// the object, each name once.
pub uninterp spec fn json_members(line: Seq<char>) -> Option<Option<Members>>;

/// What `serde_json` made of a text.
pub enum Parsed {
    /// No JSON document.
    Invalid,
    /// A JSON document that is no object.
    Other,
    /// A JSON object, with its members.
    Object(Vec<(String, Option<String>)>),
}

impl Parsed {
    /// What was made of the text, as the contracts see it.
    pub open spec fn view(&self) -> Option<Option<Members>> {
        match self {
            Parsed::Invalid => None,
            Parsed::Other => Some(None),
            Parsed::Object(ms) => Some(Some(member_views(ms@))),
        }
    }
}

/// Members as the contracts see them.
pub open spec fn member_views(ms: Seq<(String, Option<String>)>) -> Members {
    ms.map_values(
        |m: (String, Option<String>)|
            (
                m.0@,
                match m.1 {
                    Some(t) => Some(t@),
                    None => None,
                },
            ),
    )
}

/// Reads `line` as JSON, by `serde_json::from_str` for a
/// `serde_json::Value`, and hands out the members of an object as plain
/// values. The contract only names the result: the same text always reads
/// the same.
#[verifier::external_body]
pub(crate) fn parse_json(line: &str) -> (r: Parsed)
    ensures
        r.view() == json_members(line@),
{
    match serde_json::from_str::<serde_json::Value>(line) {
        Ok(serde_json::Value::Object(map)) => Parsed::Object(
            map.into_iter().map(|(k, v)| match v {
                serde_json::Value::String(s) => (k, Some(s)),
                _ => (k, None),
            }).collect(),
        ),
        Ok(_) => Parsed::Other,
        Err(_) => Parsed::Invalid,
    }
}

} // verus!
