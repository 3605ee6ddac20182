//! `qemu-img`: disk creation and conversion arguments, and the format that
//! `qemu-img info --output=json` reports.

use vstd::prelude::*;
use std::path::Path;
use crate::paths::{path_text, path_utf8};
use crate::text::views;

verus! {

/// A path that is not valid UTF-8 cannot be handed to `qemu-img`.
#[derive(Debug)]
pub struct InvalidUtf8Path;

/// A path as text, or an error if it is not valid UTF-8.
pub fn path_to_str(path: &Path) -> (res: Result<&str, InvalidUtf8Path>)
    ensures
        match res {
            Ok(s) => path_utf8(path) == Some(s@),
            Err(_) => path_utf8(path) is None,
        },
{
    match path_text(path) {
        Some(s) => Ok(s),
        None => Err(InvalidUtf8Path),
    }
}

/// Arguments of `qemu-img` that create a disk image.
pub fn create_disk_args(path: &str, format: &str, size: &str) -> (res: Vec<String>)
    ensures
        views(res@) == seq!["create"@, "-f"@, format@, path@, size@],
{
    let res = vec![
        String::from_str("create"),
        String::from_str("-f"),
        String::from_str(format),
        String::from_str(path),
        String::from_str(size),
    ];
    proof {
        assert(views(res@) =~= seq!["create"@, "-f"@, format@, path@, size@]);
    }
    res
}

/// Arguments of `qemu-img` that convert `source` into `dest` in `dest_format`.
pub fn convert_disk_args(source: &str, dest: &str, dest_format: &str) -> (res: Vec<String>)
    ensures
        views(res@) == seq!["convert"@, "-O"@, dest_format@, source@, dest@],
{
    let res = vec![
        String::from_str("convert"),
        String::from_str("-O"),
        String::from_str(dest_format),
        String::from_str(source),
        String::from_str(dest),
    ];
    proof {
        assert(views(res@) =~= seq!["convert"@, "-O"@, dest_format@, source@, dest@]);
    }
    res
}

/// Arguments of `qemu-img` that describe an image as JSON.
pub fn info_args(path: &str) -> (res: Vec<String>)
    ensures
        views(res@) == seq!["info"@, "--output=json"@, path@],
{
    let res = vec![
        String::from_str("info"),
        String::from_str("--output=json"),
        String::from_str(path),
    ];
    proof {
        assert(views(res@) =~= seq!["info"@, "--output=json"@, path@]);
    }
    res
}

/// The string value of member `key` of the JSON object that `text` holds;
/// none where `text` is not JSON, is not an object, lacks the member, or the
/// member is not a string (`serde_json::from_str` into a `Value`, then
/// `Value::get` and `Value::as_str`).
pub uninterp spec fn json_string_member(text: Seq<char>, key: Seq<char>) -> Option<Seq<char>>;

/// `serde_json::from_str::<serde_json::Value>`, then `Value::get` of `key` and
/// `Value::as_str`: the string member `key` of the JSON object in `text`.
#[verifier::external_body]
fn json_string_field(text: &str, key: &str) -> (res: Option<String>)
    ensures
        match res {
            Some(s) => json_string_member(text@, key@) == Some(s@),
            None => json_string_member(text@, key@).is_none(),
        },
{
    serde_json::from_str::<serde_json::Value>(text).ok().and_then(
        |v| v.get(key).and_then(|f| f.as_str()).map(|s| s.to_string()),
    )
}

/// The `format` field of what `qemu-img info --output=json` printed; none
/// where the JSON is malformed or has no string `format` field.
pub fn parse_format_from_info_json(stdout: &str) -> (res: Option<String>)
    ensures
        match res {
            Some(s) => json_string_member(stdout@, "format"@) == Some(s@),
            None => json_string_member(stdout@, "format"@).is_none(),
        },
{
    json_string_field(stdout, "format")
}

} // verus!
