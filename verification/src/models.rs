//! The status JSON that the host passes on standard input.
use vstd::prelude::*;
use crate::json::JsonValue;
use crate::text::{parse_u64, parse_u64_spec};

verus! {

/// The fields of the status JSON that the status line reads; a field that is
/// missing from the document is `None`.
pub struct Input {
    pub cwd: Option<String>,
    pub workspace: Option<Workspace>,
    pub context_window: Option<ContextWindow>,
    pub transcript_path: Option<String>,
}

/// The `workspace` member of the status JSON.
pub struct Workspace {
    pub current_dir: Option<String>,
}

/// The `context_window` member of the status JSON.
pub struct ContextWindow {
    pub total_input_tokens: Option<u64>,
    pub total_output_tokens: Option<u64>,
}

impl Default for Input {
    fn default() -> (res: Self)
        ensures
            res.cwd is None,
            res.workspace is None,
            res.context_window is None,
            res.transcript_path is None,
    {
        Input { cwd: None, workspace: None, context_window: None, transcript_path: None }
    }
}

impl Default for Workspace {
    fn default() -> (res: Self)
        ensures
            res.current_dir is None,
    {
        Workspace { current_dir: None }
    }
}

impl Default for ContextWindow {
    fn default() -> (res: Self)
        ensures
            res.total_input_tokens is None,
            res.total_output_tokens is None,
    {
        ContextWindow { total_input_tokens: None, total_output_tokens: None }
    }
}

/// The characters of an optional string.
pub open spec fn opt_string_view(s: Option<String>) -> Option<Seq<char>> {
    match s {
        Some(t) => Some(t@),
        None => None,
    }
}

/// The working directory that the status line shows: `cwd` when present,
/// otherwise the workspace's `current_dir`.
pub open spec fn resolved_cwd_spec(input: Input) -> Option<Seq<char>> {
    match input.cwd {
        Some(c) => Some(c@),
        None => match input.workspace {
            Some(w) => opt_string_view(w.current_dir),
            None => None,
        },
    }
}

impl Input {
    /// `cwd` when present, otherwise the workspace's `current_dir`.
    pub fn resolved_cwd(&self) -> (res: Option<&str>)
        ensures
            res is Some == resolved_cwd_spec(*self) is Some,
            res matches Some(r) ==> r@ == resolved_cwd_spec(*self)->0,
    {
        match &self.cwd {
            Some(c) => Some(c.as_str()),
            None => match &self.workspace {
                Some(w) => match &w.current_dir {
                    Some(d) => Some(d.as_str()),
                    None => None,
                },
                None => None,
            },
        }
    }
}

/// How a token count in the context window is read from its JSON value:
/// absent or `null` gives `None`; a number gives its integer value when it
/// is a non-negative integer within `u64`, and otherwise its float value
/// truncated and saturated into `u64`; a string gives its value when it
/// parses as a `u64`; any other value gives `None`.
pub open spec fn deser_opt_u64_spec(v: Option<JsonValue>) -> Option<u64> {
    match v {
        Some(JsonValue::Number(n)) => match n.exact {
            Some(x) => Some(x),
            None => n.truncated,
        },
        Some(JsonValue::Text(s)) => parse_u64_spec(vstd::utf8::encode_utf8(s@)),
        _ => None,
    }
}

/// Reads a token count of the context window from its JSON value.
pub fn deser_opt_u64(v: Option<&JsonValue>) -> (res: Option<u64>)
    ensures
        res == deser_opt_u64_spec(match v { Some(x) => Some(*x), None => None }),
{
    match v {
        Some(JsonValue::Number(n)) => match n.exact {
            Some(x) => Some(x),
            None => n.truncated,
        },
        Some(JsonValue::Text(s)) => parse_u64(s.as_str()),
        _ => None,
    }
}

} // verus!
