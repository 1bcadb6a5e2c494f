//! JSON documents read with serde_json: the body of a gateway request, a json
//! file to parse, ffprobe's report, and a string member of a document.
use vstd::prelude::*;
use crate::error::{ToolError, runtime};
use crate::text::concat;

verus! {

/// `serde_json::Value`, carried through the library as an opaque value.
#[verifier::external_type_specification]
#[verifier::external_body]
pub struct ExJsonValue(serde_json::Value);

/// What `serde_json::from_slice::<serde_json::Value>` gives for some bytes:
/// the document, or the error's message.
pub uninterp spec fn json_slice_parse(data: Seq<u8>) -> Result<serde_json::Value, Seq<char>>;

/// `serde_json::from_slice::<serde_json::Value>`, the error turned into its
/// message. Its result depends on the bytes alone and is named
/// `json_slice_parse`; what the document holds is not stated.
#[verifier::external_body]
pub(crate) fn parse_json_slice(data: &[u8]) -> (r: Result<serde_json::Value, String>)
    ensures
        match r {
            Ok(v) => json_slice_parse(data@) == Ok::<serde_json::Value, Seq<char>>(v),
            Err(m) => json_slice_parse(data@) == Err::<serde_json::Value, Seq<char>>(m@),
        },
{
    serde_json::from_slice::<serde_json::Value>(data).map_err(|e| e.to_string())
}

/// What `serde_json::from_str::<serde_json::Value>` gives for a text: the
/// document, or the error's message.
pub uninterp spec fn json_str_parse(text: Seq<char>) -> Result<serde_json::Value, Seq<char>>;

/// `serde_json::from_str::<serde_json::Value>`, the error turned into its
/// message. Its result depends on the text alone and is named
/// `json_str_parse`; what the document holds is not stated.
#[verifier::external_body]
fn parse_json_str(text: &str) -> (r: Result<serde_json::Value, String>)
    ensures
        match r {
            Ok(v) => json_str_parse(text@) == Ok::<serde_json::Value, Seq<char>>(v),
            Err(m) => json_str_parse(text@) == Err::<serde_json::Value, Seq<char>>(m@),
        },
{
    serde_json::from_str::<serde_json::Value>(text).map_err(|e| e.to_string())
}

/// What serde_json makes of the member `key` of the document in some bytes:
/// its text when the document parses and the member is a string, none when
/// it is missing or no string, or the parse error's message.
pub uninterp spec fn json_string_member(data: Seq<u8>, key: Seq<char>) -> Result<Option<Seq<char>>, Seq<char>>;

/// `serde_json::from_slice::<serde_json::Value>`, then `value[key].as_str()`;
/// a parse error is turned into its message. The result depends on the bytes
/// and the key alone and is named `json_string_member`.
#[verifier::external_body]
pub(crate) fn read_json_member(data: &[u8], key: &str) -> (r: Result<Option<String>, String>)
    ensures
        match r {
            Ok(Some(t)) => json_string_member(data@, key@) == Ok::<Option<Seq<char>>, Seq<char>>(Some(t@)),
            Ok(None) => json_string_member(data@, key@) == Ok::<Option<Seq<char>>, Seq<char>>(None),
            Err(m) => json_string_member(data@, key@) == Err::<Option<Seq<char>>, Seq<char>>(m@),
        },
{
    match serde_json::from_slice::<serde_json::Value>(data) {
        Ok(v) => Ok(v[key].as_str().map(|s| s.to_string())),
        Err(e) => Err(e.to_string()),
    }
}

/// The content of a json file to be parsed; a text that is no JSON document
/// is a run-time error.
pub fn parse_json_document(text: &str) -> (r: Result<serde_json::Value, ToolError>)
    ensures
        match json_str_parse(text@) {
            Ok(v) => r == Ok::<serde_json::Value, ToolError>(v),
            Err(m) => r matches Err(e) && e.parts() == runtime("json 解析失败: "@ + m),
        },
{
    match parse_json_str(text) {
        Ok(v) => Ok(v),
        Err(m) => Err(ToolError::Runtime(concat("json 解析失败: ", m.as_str()))),
    }
}

/// The metadata ffprobe printed; output that is no JSON document is a
/// run-time error.
pub fn parse_probe_output(stdout: &[u8]) -> (r: Result<serde_json::Value, ToolError>)
    ensures
        match json_slice_parse(stdout@) {
            Ok(v) => r == Ok::<serde_json::Value, ToolError>(v),
            Err(m) => r matches Err(e) && e.parts() == runtime("解析 ffprobe: "@ + m),
        },
{
    match parse_json_slice(stdout) {
        Ok(v) => Ok(v),
        Err(m) => Err(ToolError::Runtime(concat("解析 ffprobe: ", m.as_str()))),
    }
}

} // verus!
