//! Cursor's config as text: read with serde_json, edited as a JSON value,
//! and written back pretty-printed by serde_json.
use vstd::prelude::*;

use crate::setup::cursor::{
    cursor_mcp_template, installed, installed_in, invalid_json_message, is_cursor_template,
    needs_parse, remove_cursor_server, removed, server_args, update_cursor_config,
    Json,
};
use crate::setup::{InstallOptions, McpConfigOptions};
use crate::text::has_non_ws;

verus! {

broadcast use vstd::string::group_string_axioms;

#[verifier::external_type_specification]
#[verifier::external_body]
pub struct ExJsonValue(serde_json::Value);

/// The JSON value that `serde_json::from_str::<serde_json::Value>` reads
/// from a text, taken member for member into a `Json`; `None` when the
/// text does not parse.
pub uninterp spec fn json_parse(text: Seq<char>) -> Option<Json>;

/// The text that `serde_json::to_string_pretty` writes for a JSON value.
pub uninterp spec fn json_pretty(j: Json) -> Seq<char>;

/// Takes a `serde_json::Value` into a `Json`, one value for one: numbers
/// keep their text, objects their members.
#[verifier::external_body]
fn json_from_value(value: &serde_json::Value) -> Json {
    match value {
        serde_json::Value::Null => Json::Null,
        serde_json::Value::Bool(b) => Json::Bool(*b),
        serde_json::Value::Number(n) => Json::Number(n.to_string()),
        serde_json::Value::String(s) => Json::Str(s.clone()),
        serde_json::Value::Array(items) => Json::Array(items.iter().map(json_from_value).collect()),
        serde_json::Value::Object(map) => Json::Object(
            map.iter().map(|(key, value)| (key.clone(), json_from_value(value))).collect(),
        ),
    }
}

/// Takes a `Json` into a `serde_json::Value`, one value for one; a number
/// is read back from its text.
#[verifier::external_body]
fn value_from_json(json: &Json) -> serde_json::Value {
    match json {
        Json::Null => serde_json::Value::Null,
        Json::Bool(b) => serde_json::Value::Bool(*b),
        Json::Number(n) => n.parse::<serde_json::Number>().map(serde_json::Value::Number).unwrap_or(
            serde_json::Value::Null,
        ),
        Json::Str(s) => serde_json::Value::String(s.clone()),
        Json::Array(items) => serde_json::Value::Array(items.iter().map(value_from_json).collect()),
        Json::Object(members) => serde_json::Value::Object(
            members.iter().map(|(key, value)| (key.clone(), value_from_json(value))).collect(),
        ),
    }
}

/// `serde_json::from_str::<serde_json::Value>`: the value a JSON text
/// holds, or serde_json's description of why it does not parse. Claims
/// that the value is the one named by `json_parse`, and that the call
/// fails exactly when `json_parse` gives `None`; the error's words are
/// not stated.
#[verifier::external_body]
pub fn parse_json_text(text: &str) -> (r: Result<Json, String>)
    ensures
        match json_parse(text@) {
            Some(j) => r is Ok && r->Ok_0 == j,
            None => r is Err,
        },
{
    serde_json::from_str::<serde_json::Value>(text).map(|value| json_from_value(&value)).map_err(
        |error| error.to_string(),
    )
}

/// `serde_json::to_string_pretty` of a JSON value: claims that the text is
/// the one named by `json_pretty`. Writing a `serde_json::Value` cannot
/// fail (its keys are strings), so the error arm gives an empty text.
#[verifier::external_body]
pub fn pretty_json(j: &Json) -> (r: String)
    ensures
        r@ == json_pretty(*j),
{
    serde_json::to_string_pretty(&value_from_json(j)).unwrap_or_default()
}

/// The text of a JSON outcome: the pretty-printed value, or the refusal.
pub open spec fn pretty_outcome(rj: Result<Json, String>, r: Result<String, String>) -> bool {
    match rj {
        Ok(j) => r is Ok && r->Ok_0@ == json_pretty(j),
        Err(e) => r is Err && r->Err_0@ == e@,
    }
}

/// The refusal of a config text that does not parse, whatever serde_json
/// said of it.
pub open spec fn is_invalid_json_refusal(r: Result<String, String>) -> bool {
    r is Err && exists|e: Seq<char>| r->Err_0@ == "invalid JSON config; not overwriting without a valid parse: "@ + e
}

/// Adds (or replaces) B3's entry in a Cursor config text. Absent or blank
/// text stands for an empty object; other text must parse as JSON, else
/// it is refused and nothing is written. The result is the updated config,
/// pretty-printed.
pub fn update_cursor_config_text(existing: Option<&str>, options: &InstallOptions) -> (r: Result<String, String>)
    ensures
        match existing {
            Some(t) if has_non_ws(t@) => match json_parse(t@) {
                Some(j) => exists|rj: Result<Json, String>|
                    installed(j, rj, options.server_name@, options.command_path@, server_args(*options))
                        && pretty_outcome(rj, r),
                None => is_invalid_json_refusal(r),
            },
            _ => exists|rj: Result<Json, String>|
                installed_in(
                    Seq::empty(),
                    rj,
                    options.server_name@,
                    options.command_path@,
                    server_args(*options),
                ) && pretty_outcome(rj, r),
        },
{
    let root = if needs_parse(existing) {
        let text = match existing {
            Some(t) => t,
            None => "",
        };
        match parse_json_text(text) {
            Ok(j) => Some(j),
            Err(error) => {
                let message = invalid_json_message(error.as_str());
                return Err(message);
            },
        }
    } else {
        None
    };
    let rj = update_cursor_config(root, options);
    let ghost rj0 = rj;
    match rj {
        Ok(j) => {
            let text = pretty_json(&j);
            assert(pretty_outcome(rj0, Ok::<String, String>(text)));
            Ok(text)
        },
        Err(e) => {
            assert(pretty_outcome(rj0, Err::<String, String>(e)));
            Err(e)
        },
    }
}

/// The config text written when an uninstall finds a blank Cursor config.
pub open spec fn empty_servers_text() -> Seq<char> {
    "{\n  \"mcpServers\": {}\n}"@
}

/// Removes the server entry `server_name` from a Cursor config text. Blank
/// text gives an empty `mcpServers` object; other text must parse as
/// JSON, else it is refused and nothing is written. The result is the
/// config with the entry gone and everything else kept, pretty-printed.
pub fn remove_cursor_server_text(existing: &str, server_name: &str) -> (r: Result<String, String>)
    ensures
        if !has_non_ws(existing@) {
            r is Ok && r->Ok_0@ == empty_servers_text()
        } else {
            match json_parse(existing@) {
                Some(j) => r is Ok && exists|out: Json|
                    removed(j, out, server_name@) && r->Ok_0@ == json_pretty(out),
                None => is_invalid_json_refusal(r),
            }
        },
{
    if !needs_parse(Some(existing)) {
        return Ok("{\n  \"mcpServers\": {}\n}".to_owned());
    }
    match parse_json_text(existing) {
        Ok(j) => {
            let out = remove_cursor_server(Some(j), server_name);
            Ok(pretty_json(&out))
        },
        Err(error) => Err(invalid_json_message(error.as_str())),
    }
}

/// The Cursor template of `b3 mcp config`, pretty-printed.
pub fn cursor_mcp_template_text(options: &McpConfigOptions) -> (r: String)
    ensures
        exists|j: Json| is_cursor_template(j, *options) && r@ == json_pretty(j),
{
    let j = cursor_mcp_template(options);
    pretty_json(&j)
}

} // verus!
