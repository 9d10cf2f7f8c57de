//! The library's error type and its rendering.
use vstd::prelude::*;

use crate::text::{decimal, owned, push_decimal, push_str, seq_join};

verus! {

/// Errors of the agent, its provider and its tools. Transport and JSON
/// failures keep the text of the underlying error.
#[derive(Debug)]
pub enum Error {
    ApiError { status: u16, body: String },
    Http(String),
    Json(String),
    ToolNotFound { name: String, available: Vec<String> },
    Custom(String),
}

pub type Result<T> = std::result::Result<T, Error>;

/// `format!("{:?}", s)` for a string slice: the quoted, escaped form that
/// std's `Debug` gives.
pub uninterp spec fn spec_debug_str(s: Seq<char>) -> Seq<char>;

/// std's `Debug` rendering of a string slice.
#[verifier::external_body]
pub(crate) fn debug_str(s: &str) -> (r: String)
    ensures
        r@ == spec_debug_str(s@),
{
    format!("{:?}", s)
}

/// `Debug` rendering of a list of strings: `["a", "b"]`.
pub open spec fn debug_list(items: Seq<Seq<char>>) -> Seq<char> {
    "["@ + seq_join(items.map_values(|s: Seq<char>| spec_debug_str(s)), ", "@) + "]"@
}

/// The `Debug` rendering of a list of strings.
pub fn debug_string_list(items: &Vec<String>) -> (r: String)
    ensures
        r@ == debug_list(items@.map_values(|s: String| s@)),
{
    let mut quoted: Vec<String> = Vec::new();
    let mut i: usize = 0;
    let ghost src = items@.map_values(|s: String| s@);
    let ghost tgt = src.map_values(|s: Seq<char>| spec_debug_str(s));
    while i < items.len()
        invariant
            i <= items.len(),
            src == items@.map_values(|s: String| s@),
            tgt == src.map_values(|s: Seq<char>| spec_debug_str(s)),
            quoted@.map_values(|s: String| s@) == tgt.take(i as int),
        decreases items.len() - i,
    {
        let ghost before = quoted@;
        quoted.push(debug_str(items[i].as_str()));
        proof {
            assert(quoted@.map_values(|s: String| s@) =~= before.map_values(|s: String| s@).push(
                spec_debug_str(items@[i as int]@),
            ));
            assert(tgt.take(i + 1) =~= tgt.take(i as int).push(tgt[i as int]));
        }
        i = i + 1;
    }
    assert(tgt.take(items.len() as int) == tgt);
    let joined = crate::text::join(&quoted, ", ");
    let mut r = owned("[");
    push_str(&mut r, joined.as_str());
    push_str(&mut r, "]");
    r
}

/// The message of the "tool not found" error.
pub open spec fn tool_not_found_text(name: Seq<char>, available: Seq<Seq<char>>) -> Seq<char> {
    "Tool '"@ + name + "' not found. Available: "@ + debug_list(available)
}

/// The display text of an error.
pub open spec fn error_text(e: Error) -> Seq<char> {
    match e {
        Error::ApiError { status, body } => "LLM API error ("@ + decimal(status as nat) + "): "@
            + body@,
        Error::Http(m) => "HTTP request failed: "@ + m@,
        Error::Json(m) => "JSON error: "@ + m@,
        Error::ToolNotFound { name, available } => tool_not_found_text(
            name@,
            available@.map_values(|s: String| s@),
        ),
        Error::Custom(m) => m@,
    }
}

/// The "tool not found" message for `name`, listing the available tools.
pub fn tool_not_found_message(name: &str, available: &Vec<String>) -> (r: String)
    ensures
        r@ == tool_not_found_text(name@, available@.map_values(|s: String| s@)),
{
    let mut r = owned("Tool '");
    push_str(&mut r, name);
    push_str(&mut r, "' not found. Available: ");
    let list = debug_string_list(available);
    push_str(&mut r, list.as_str());
    r
}

impl Error {
    /// The text that displays this error.
    pub fn message(&self) -> (r: String)
        ensures
            r@ == error_text(*self),
    {
        match self {
            Error::ApiError { status, body } => {
                let mut r = owned("LLM API error (");
                push_decimal(&mut r, *status as u64);
                push_str(&mut r, "): ");
                push_str(&mut r, body.as_str());
                r
            },
            Error::Http(m) => {
                let mut r = owned("HTTP request failed: ");
                push_str(&mut r, m.as_str());
                r
            },
            Error::Json(m) => {
                let mut r = owned("JSON error: ");
                push_str(&mut r, m.as_str());
                r
            },
            Error::ToolNotFound { name, available } => tool_not_found_message(
                name.as_str(),
                available,
            ),
            Error::Custom(m) => m.clone(),
        }
    }
}

impl Clone for Error {
    /// Transport and JSON errors are cloned into `Custom` errors that keep
    /// their text behind a `"Http: "` or `"Json: "` tag; the others keep
    /// their variant and fields.
    fn clone(&self) -> (r: Self)
        ensures
            match *self {
                Error::ApiError { status, body } => r matches Error::ApiError { status: s2, body: b2 }
                    && s2 == status && b2 == body,
                Error::Http(m) => r matches Error::Custom(c) && c@ == "Http: "@ + m@,
                Error::Json(m) => r matches Error::Custom(c) && c@ == "Json: "@ + m@,
                Error::ToolNotFound { name, available } => r matches Error::ToolNotFound {
                    name: n2,
                    available: a2,
                } && n2 == name && a2@ == available@,
                Error::Custom(m) => r matches Error::Custom(c) && c == m,
            },
    {
        match self {
            Error::ApiError { status, body } => Error::ApiError { status: *status, body: body.clone() },
            Error::Http(m) => {
                let mut c = owned("Http: ");
                push_str(&mut c, m.as_str());
                Error::Custom(c)
            },
            Error::Json(m) => {
                let mut c = owned("Json: ");
                push_str(&mut c, m.as_str());
                Error::Custom(c)
            },
            Error::ToolNotFound { name, available } => {
                let a = available.clone();
                proof {
                    assert(a@ =~= available@);
                }
                Error::ToolNotFound { name: name.clone(), available: a }
            },
            Error::Custom(m) => Error::Custom(m.clone()),
        }
    }
}

} // verus!
