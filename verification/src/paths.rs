//! File-system paths as the library holds them: `PathBuf` values, read through
//! the bytes they hold, so that a path that is not UTF-8 is kept as it is.

use vstd::prelude::*;
use vstd::string::*;
use vstd::utf8::encode_utf8;

use std::path::PathBuf;

verus! {

#[verifier::external_type_specification]
#[verifier::external_body]
pub struct ExPathBuf(PathBuf);

/// The bytes that a path holds: on Unix a path is a byte string, and a
/// `PathBuf` is a buffer of them.
pub uninterp spec fn path_bytes(path: PathBuf) -> Seq<u8>;

/// The bytes of each path, in order.
pub open spec fn paths_view(paths: Seq<PathBuf>) -> Seq<Seq<u8>> {
    Seq::new(paths.len(), |i: int| path_bytes(paths[i]))
}

/// The separator `/`, as a byte.
pub open spec fn separator() -> u8 {
    47u8
}

/// `Path::join` on Unix, over bytes: a part that starts with `/` is absolute
/// and replaces the base; otherwise a `/` separates the two unless the base is
/// empty or already ends with one.
pub open spec fn join_bytes(base: Seq<u8>, part: Seq<u8>) -> Seq<u8> {
    if part.len() > 0 && part[0] == separator() {
        part
    } else if base.len() == 0 || base.last() == separator() {
        base + part
    } else {
        base + seq![separator()] + part
    }
}

/// The UTF-8 bytes of a text, as a path holds them.
pub open spec fn text_bytes(text: Seq<char>) -> Seq<u8> {
    encode_utf8(text)
}

/// `PathBuf::from` on a `&str`: the path holds the text's UTF-8 bytes.
#[verifier::external_body]
pub(crate) fn path_from(text: &str) -> (r: PathBuf)
    ensures
        path_bytes(r) == text.spec_bytes(),
{
    PathBuf::from(text)
}

/// `Path::join` with a `&str` part, as std documents it for Unix: an absolute
/// part replaces the base, a relative one is added after a separator.
#[verifier::external_body]
pub(crate) fn path_join(base: &PathBuf, part: &str) -> (r: PathBuf)
    ensures
        path_bytes(r) == join_bytes(path_bytes(*base), part.spec_bytes()),
{
    base.join(part)
}

/// `PathBuf::clone`: the copy holds the same bytes.
#[verifier::external_body]
pub(crate) fn copy_path(path: &PathBuf) -> (r: PathBuf)
    ensures
        path_bytes(r) == path_bytes(*path),
{
    path.clone()
}

/// A name for the text that `Path::display` shows of a path's bytes (which may
/// replace bytes that are not UTF-8).
pub uninterp spec fn path_display(bytes: Seq<u8>) -> Seq<char>;

/// `Path::display`, written out as a `String`.
#[verifier::external_body]
pub(crate) fn display_path(path: &PathBuf) -> (r: String)
    ensures
        r@ == path_display(path_bytes(*path)),
{
    path.display().to_string()
}

} // verus!
