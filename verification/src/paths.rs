//! Unix paths, held as text.

use vstd::prelude::*;
use vstd::string::*;

use crate::identity::opt_text;

verus! {

/// A path that starts at the root.
pub open spec fn absolute(path: Seq<char>) -> bool {
    path.len() > 0 && path[0] == '/'
}

/// A path with one more part: an absolute part replaces the path, any other
/// follows it after one separator.
pub open spec fn joined_path(base: Seq<char>, part: Seq<char>) -> Seq<char> {
    if absolute(part) {
        part
    } else if base.len() == 0 || base.last() == '/' {
        base + part
    } else {
        base + "/"@ + part
    }
}

/// Whether `path` starts at the root.
pub fn is_absolute(path: &str) -> (yes: bool)
    ensures
        yes == absolute(path@),
{
    path.unicode_len() > 0 && path.get_char(0) == '/'
}

/// Adds a part to a path.
pub fn join(base: &str, part: &str) -> (path: String)
    ensures
        path@ == joined_path(base@, part@),
{
    if is_absolute(part) {
        return part.to_owned();
    }
    let mut path: String = base.to_owned();
    let n: usize = base.unicode_len();
    if n > 0 && base.get_char(n - 1) != '/' {
        path.append("/");
    }
    path.append(part);
    path
}

/// A path with two more parts.
pub fn join2(base: &str, first: &str, second: &str) -> (path: String)
    ensures
        path@ == joined_path(joined_path(base@, first@), second@),
{
    join(join(base, first).as_str(), second)
}

/// A path without its last component, as `std::path::Path::parent` gives it.
pub uninterp spec fn parent_path(path: Seq<char>) -> Option<Seq<char>>;

/// What is left of a path below another, as `std::path::Path::strip_prefix`
/// gives it.
pub uninterp spec fn path_below(path: Seq<char>, base: Seq<char>) -> Option<Seq<char>>;

/// Calls `std::path::Path::parent`, and claims that its result is a function
/// of the path's text, that an empty path has none, and that a path without
/// its last component is shorter. Which component is the last is for the
/// standard library to say.
#[verifier::external_body]
pub(crate) fn parent(path: &str) -> (out: Option<String>)
    ensures
        opt_text(out) == parent_path(path@),
        path@.len() == 0 ==> out is None,
        out matches Some(above) ==> above@.len() < path@.len(),
{
    match std::path::Path::new(path).parent() {
        Some(above) => Some(above.display().to_string()),
        None => None,
    }
}

/// Calls `std::path::Path::strip_prefix`, and claims that its result is a
/// function of the two texts. It compares whole components; how a text is
/// split into components is for the standard library to say.
#[verifier::external_body]
pub(crate) fn strip_prefix(path: &str, base: &str) -> (out: Option<String>)
    ensures
        opt_text(out) == path_below(path@, base@),
{
    match std::path::Path::new(path).strip_prefix(base) {
        Ok(below) => Some(below.display().to_string()),
        Err(_) => None,
    }
}

/// A single component that names an entry of a directory: it is not empty,
/// holds no separator, and is neither `.` nor `..`.
pub open spec fn plain_component(name: Seq<char>) -> bool {
    &&& name.len() > 0
    &&& !name.contains('/')
    &&& name != "."@
    &&& name != ".."@
}

/// A plain component stays below the directory it is joined to.
pub proof fn law_plain_component_stays_below(base: Seq<char>, name: Seq<char>)
    requires
        plain_component(name),
    ensures
        base.is_prefix_of(joined_path(base, name)),
        joined_path(base, name).len() > base.len(),
        joined_path(base, name).skip(joined_path(base, name).len() - name.len()) == name,
{
    reveal_strlit("/");
    assert(name[0] != '/') by {
        assert(name.contains(name[0]));
    }
    assert(joined_path(base, name).skip(joined_path(base, name).len() - name.len()) =~= name);
}

} // verus!
