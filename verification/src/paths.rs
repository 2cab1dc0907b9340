//! Path operations of `std::path`, on paths held as text.
use vstd::prelude::*;
use vstd::string::*;
use crate::text::{trim, trim_str};

verus! {

/// What `Path::is_absolute` answers for the path with this text.
pub uninterp spec fn spec_path_is_absolute(p: Seq<char>) -> bool;

/// What `Path::join` gives (as text) for a base and a tail.
pub uninterp spec fn spec_path_join(base: Seq<char>, tail: Seq<char>) -> Seq<char>;

/// What `Path::file_name` gives (as text) for the path with this text.
pub uninterp spec fn spec_path_file_name(p: Seq<char>) -> Option<Seq<char>>;

/// What `Path::extension` gives (as text) for the path with this text.
pub uninterp spec fn spec_path_extension(p: Seq<char>) -> Option<Seq<char>>;

/// What `Path::starts_with` answers (whole components) for two paths.
pub uninterp spec fn spec_path_starts_with(p: Seq<char>, base: Seq<char>) -> bool;

/// What `==` on two `Path`s answers (it compares components).
pub uninterp spec fn spec_path_eq(a: Seq<char>, b: Seq<char>) -> bool;

/// Calls `Path::is_absolute`, which depends on the path alone (and the
/// platform the crate is built for).
#[verifier::external_body]
pub(crate) fn path_is_absolute(p: &str) -> (b: bool)
    ensures
        b == spec_path_is_absolute(p@),
{
    std::path::Path::new(p).is_absolute()
}

/// Calls `Path::join`. Its documentation says that an absolute tail replaces
/// the base; that is claimed, and that the result depends on the two texts
/// alone. The text of a path built from two `&str` is valid UTF-8, so the
/// lossy conversion back to text loses nothing.
#[verifier::external_body]
pub(crate) fn path_join(base: &str, tail: &str) -> (r: String)
    ensures
        r@ == spec_path_join(base@, tail@),
        spec_path_is_absolute(tail@) ==> r@ == tail@,
{
    std::path::Path::new(base).join(tail).to_string_lossy().into_owned()
}

/// Calls `Path::file_name`: the last component, unless it is `..`. The result
/// is claimed to depend on the path alone.
#[verifier::external_body]
pub(crate) fn path_file_name(p: &str) -> (r: Option<String>)
    ensures
        r matches Some(n) ==> spec_path_file_name(p@) == Some(n@),
        r is None ==> spec_path_file_name(p@) is None,
{
    match std::path::Path::new(p).file_name() {
        Some(name) => match name.to_str() {
            Some(t) => Some(t.to_string()),
            None => None,
        },
        None => None,
    }
}

/// Calls `Path::extension`: what follows the last `.` of the file name, if
/// that dot is not its first character. Claimed to depend on the path alone.
#[verifier::external_body]
pub(crate) fn path_extension(p: &str) -> (r: Option<String>)
    ensures
        r matches Some(n) ==> spec_path_extension(p@) == Some(n@),
        r is None ==> spec_path_extension(p@) is None,
{
    match std::path::Path::new(p).extension() {
        Some(ext) => match ext.to_str() {
            Some(t) => Some(t.to_string()),
            None => None,
        },
        None => None,
    }
}

/// Calls `Path::starts_with`, which compares whole components. Claimed to
/// depend on the two paths alone.
#[verifier::external_body]
pub(crate) fn path_starts_with(p: &str, base: &str) -> (b: bool)
    ensures
        b == spec_path_starts_with(p@, base@),
{
    std::path::Path::new(p).starts_with(std::path::Path::new(base))
}

/// Calls `==` on two `Path`s, which compares components. Claimed to depend on
/// the two paths alone, and (`Path` being `Eq`) to hold of two equal texts.
#[verifier::external_body]
pub(crate) fn path_eq(a: &str, b: &str) -> (r: bool)
    ensures
        r == spec_path_eq(a@, b@),
        a@ == b@ ==> r,
{
    std::path::Path::new(a) == std::path::Path::new(b)
}

/// The path `target` (trimmed) stands for, relative paths being taken from `root`.
pub open spec fn resolved_path(root: Seq<char>, target: Seq<char>) -> Seq<char> {
    let t = trim(target);
    if spec_path_is_absolute(t) {
        t
    } else {
        spec_path_join(root, t)
    }
}

/// The path `target` stands for, relative paths being taken from `root`.
pub fn resolve_path(root: &str, target: &str) -> (r: String)
    ensures
        r@ == resolved_path(root@, target@),
{
    let t = trim_str(target);
    if path_is_absolute(t.as_str()) {
        t
    } else {
        path_join(root, t.as_str())
    }
}

} // verus!
