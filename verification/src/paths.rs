//! File-system paths, carried through the library as opaque values.

use vstd::prelude::*;
use std::path::{Path, PathBuf};

verus! {

/// `std::path::PathBuf`, carried through as an opaque value.
#[verifier::external_type_specification]
#[verifier::external_body]
pub struct ExPathBuf(PathBuf);

/// `std::path::Path`, carried through as an opaque value.
#[verifier::external_type_specification]
#[verifier::external_body]
pub struct ExPath(Path);

/// The text of a path where it is valid UTF-8 (`Path::to_str`).
pub uninterp spec fn path_utf8(path: &Path) -> Option<Seq<char>>;

/// `Path::to_str`: the path as text when it is valid UTF-8, `None`
/// otherwise; the result is named `path_utf8`, a function of the path alone.
#[verifier::external_body]
pub(crate) fn path_text(path: &Path) -> (res: Option<&str>)
    ensures
        match res {
            Some(s) => path_utf8(path) == Some(s@),
            None => path_utf8(path) is None,
        },
{
    path.to_str()
}

} // verus!

verus! {

/// The last component of a path given as text, where it has one
/// (`Path::file_name`, e.g. none for "/" or a path ending in "..").
pub uninterp spec fn path_file_name(path: Seq<char>) -> Option<Seq<char>>;

/// `Path::file_name` of a path given as text, as text (the name of a
/// component of a `str` is always valid UTF-8).
#[verifier::external_body]
pub(crate) fn file_name_of(path: &str) -> (res: Option<String>)
    ensures
        match res {
            Some(n) => path_file_name(path@) == Some(n@),
            None => path_file_name(path@).is_none(),
        },
{
    Path::new(path).file_name().and_then(|n| n.to_str()).map(|s| s.to_string())
}

} // verus!

verus! {

/// The path made from a text (`PathBuf::from`).
pub uninterp spec fn path_of_text(text: Seq<char>) -> PathBuf;

/// `base` with `part` appended as a component (`Path::join`).
pub uninterp spec fn joined(base: PathBuf, part: Seq<char>) -> PathBuf;

/// `PathBuf::from` a text; the result is named `path_of_text`, a function of
/// the text alone.
#[verifier::external_body]
pub(crate) fn path_from(s: &str) -> (res: PathBuf)
    ensures
        res == path_of_text(s@),
{
    PathBuf::from(s)
}

/// `Path::join`: `base` with `part` appended as a component; the result is
/// named `joined`, a function of the two arguments alone.
#[verifier::external_body]
pub(crate) fn path_join(base: &PathBuf, part: &str) -> (res: PathBuf)
    ensures
        res == joined(*base, part@),
{
    base.join(part)
}

/// A path written out as text by `Path::display`, any part that is not
/// valid UTF-8 shown as U+FFFD.
pub uninterp spec fn path_shown(path: PathBuf) -> Seq<char>;

/// `Path::display` written out as text; the result is named `path_shown`, a
/// function of the path alone.
#[verifier::external_body]
pub(crate) fn path_display(path: &PathBuf) -> (res: String)
    ensures
        res@ == path_shown(*path),
{
    path.display().to_string()
}

/// `dirs::home_dir`: the user's home directory, read from the environment;
/// nothing is stated of what it returns.
#[verifier::external_body]
pub(crate) fn home_dir() -> Option<PathBuf> {
    dirs::home_dir()
}

/// `dirs::config_dir`: the user's configuration directory, read from the
/// environment; nothing is stated of what it returns.
#[verifier::external_body]
pub(crate) fn config_dir() -> Option<PathBuf> {
    dirs::config_dir()
}

} // verus!
