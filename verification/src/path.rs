//! Paths as text. A path is a string in which `/` separates the components,
//! and it is absolute when it starts with `/`.

use std::path::Path;
use vstd::prelude::*;
use vstd::string::StrSliceExecFns;
use vstd::string::StringExecFns;

verus! {

/// The text of an optional string.
pub open spec fn text_of(path: Option<String>) -> Option<Seq<char>> {
    match path {
        Some(p) => Some(p@),
        None => None,
    }
}

/// The text of an optional string slice.
pub open spec fn text_of_str(path: Option<&str>) -> Option<Seq<char>> {
    match path {
        Some(p) => Some(p@),
        None => None,
    }
}

/// Whether a path starts at the root.
pub open spec fn absolute(path: Seq<char>) -> bool {
    path.len() > 0 && path[0] == '/'
}

/// `path` as seen from the directory `base`: an absolute path stands for
/// itself, any other is put behind `base`, with one `/` between the two
/// unless `base` is empty or brings its own.
pub open spec fn joined(base: Seq<char>, path: Seq<char>) -> Seq<char> {
    if absolute(path) {
        path
    } else if base.len() == 0 || base.last() == '/' {
        base + path
    } else {
        base + seq!['/'] + path
    }
}

/// Whether a path starts with a tilde that stands for the home directory:
/// the tilde is the whole path, or a `/` follows it.
pub open spec fn tilde_led(path: Seq<char>) -> bool {
    path.len() > 0 && path[0] == '~' && (path.len() == 1 || path[1] == '/')
}

/// Whether a path starts with a tilde and a backslash.
pub open spec fn backslash_led(path: Seq<char>) -> bool {
    path.len() > 1 && path[0] == '~' && path[1] == '\\'
}

/// `path` with a leading tilde replaced by `home`. Without a home directory,
/// and for a tilde that names another user, the path stays as it is.
pub open spec fn expanded(path: Seq<char>, home: Option<Seq<char>>) -> Seq<char> {
    match home {
        Some(directory) => if tilde_led(path) {
            directory + path.skip(1)
        } else {
            path
        },
        None => path,
    }
}

/// Where an expanded path points: an absolute path to itself, a relative
/// one into `base` where there is one.
pub open spec fn anchored(path: Seq<char>, base: Option<Seq<char>>) -> Seq<char> {
    if absolute(path) {
        path
    } else {
        match base {
            Some(directory) => joined(directory, path),
            None => path,
        }
    }
}

/// The path that a configured path stands for: the tilde is expanded first,
/// and what is then still relative is taken from `base`.
pub open spec fn resolved(
    path: Seq<char>,
    home: Option<Seq<char>>,
    base: Option<Seq<char>>,
) -> Seq<char> {
    anchored(expanded(path, home), base)
}

/// The parent of a path: what `std::path::Path::parent` returns for it.
pub uninterp spec fn parent_path(path: Seq<char>) -> Option<Seq<char>>;

/// Calls `std::path::Path::parent`, which cuts the last component off a
/// path and returns nothing for a path that ends in a root or is empty.
/// The contract only gives that result its name, [`parent_path`].
#[verifier::external_body]
pub(crate) fn parent_of(path: &str) -> (parent: Option<String>)
    ensures
        text_of(parent) == parent_path(path@),
{
    match Path::new(path).parent() {
        Some(parent) => Some(parent.to_string_lossy().into_owned()),
        None => None,
    }
}

/// Calls `shellexpand::tilde_with_context` with `home` as the home
/// directory. That function replaces a leading `~` by the home directory
/// where there is one and the tilde is the whole input or is followed by
/// `/`, and elsewhere returns the input. A backslash behind the tilde counts
/// as a separator on some platforms only, so nothing is claimed for it.
#[verifier::external_body]
pub(crate) fn tilde_with_home(path: &str, home: Option<&str>) -> (result: String)
    ensures
        !backslash_led(path@) ==> result@ == expanded(path@, text_of_str(home)),
{
    shellexpand::tilde_with_context(path, || home).into_owned()
}

/// Calls `shellexpand::tilde`, which is `shellexpand::tilde_with_context`
/// with the home directory that the environment gives at the time of the
/// call, if it gives one. The contract says what holds whichever it was.
#[verifier::external_body]
pub(crate) fn tilde_for_user(path: &str) -> (result: String)
    ensures
        !backslash_led(path@) ==> exists|home: Option<Seq<char>>|
            result@ == #[trigger] expanded(path@, home),
{
    shellexpand::tilde(path).into_owned()
}

/// Whether `path` starts with `first` and then `second`.
fn starts_with_pair(path: &str, first: char, second: char) -> (found: bool)
    ensures
        found == (path@.len() > 1 && path@[0] == first && path@[1] == second),
{
    if path.is_empty() {
        return false;
    }
    if path.get_char(0) != first {
        return false;
    }
    let rest = path.substring_char(1, path.unicode_len());
    if rest.is_empty() {
        return false;
    }
    rest.get_char(0) == second
}

/// Whether `path` starts at the root.
pub fn is_absolute(path: &str) -> (result: bool)
    ensures
        result == absolute(path@),
{
    !path.is_empty() && path.get_char(0) == '/'
}

/// `path` as seen from the directory `base`.
pub fn join(base: &str, path: &str) -> (result: String)
    ensures
        result@ == joined(base@, path@),
{
    if is_absolute(path) {
        return path.to_owned();
    }
    let length = base.unicode_len();
    let mut result = base.to_owned();
    if length > 0 && base.get_char(length - 1) != '/' {
        proof {
            reveal_strlit("/");
        }
        result.append("/");
        assert("/"@ =~= seq!['/']);
    }
    result.append(path);
    result
}

/// `path` with a leading tilde replaced by `home`.
pub fn expand(path: &str, home: Option<&str>) -> (result: String)
    ensures
        result@ == expanded(path@, text_of_str(home)),
{
    if starts_with_pair(path, '~', '\\') {
        path.to_owned()
    } else {
        tilde_with_home(path, home)
    }
}

/// `path` with a leading tilde replaced by the home directory of the user,
/// as far as the environment tells it.
pub fn expand_for_user(path: &str) -> (result: String)
    ensures
        exists|home: Option<Seq<char>>| result@ == #[trigger] expanded(path@, home),
        !tilde_led(path@) ==> result@ == path@,
{
    if starts_with_pair(path, '~', '\\') {
        assert(path@ == expanded(path@, None));
        path.to_owned()
    } else {
        tilde_for_user(path)
    }
}

/// Where an expanded path points, seen from `base`.
pub fn anchor(path: String, base: Option<&str>) -> (result: String)
    ensures
        result@ == anchored(path@, text_of_str(base)),
{
    if is_absolute(path.as_str()) {
        return path;
    }
    match base {
        Some(directory) => join(directory, path.as_str()),
        None => path,
    }
}

/// The path that `path` stands for, with `home` as the home directory and
/// `base` as the directory that relative paths start from.
pub fn resolve(path: &str, home: Option<&str>, base: Option<&str>) -> (result: String)
    ensures
        result@ == resolved(path@, text_of_str(home), text_of_str(base)),
{
    anchor(expand(path, home), base)
}

/// The path that `path` stands for, with the home directory of the user and
/// `base` as the directory that relative paths start from.
pub fn resolve_for_user(path: &str, base: Option<&str>) -> (result: String)
    ensures
        exists|home: Option<Seq<char>>|
            result@ == #[trigger] resolved(path@, home, text_of_str(base)),
        !tilde_led(path@) ==> result@ == anchored(path@, text_of_str(base)),
{
    let expanded_path = expand_for_user(path);
    proof {
        let home = choose|home: Option<Seq<char>>|
            expanded_path@ == #[trigger] expanded(path@, home);
        assert(anchored(expanded_path@, text_of_str(base)) == resolved(
            path@,
            home,
            text_of_str(base),
        ));
    }
    anchor(expanded_path, base)
}

} // verus!
