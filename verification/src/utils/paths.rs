//! Paths as text, and the search for the first candidate that exists.
//!
//! The library holds a path as a `String` with `/` as the separator. Joining
//! is done here; whether a path exists is asked of the file system, and
//! nothing is known of the answer before it comes.

use vstd::prelude::*;
use vstd::string::*;
use crate::text::{lemma_views_push, text_of, to_chars, views};

verus! {

/// What a path has to be to count as found.
#[derive(Clone, Copy, Debug, PartialEq, Eq)]
pub enum PathKind {
    /// A regular file.
    File,
    /// A directory.
    Dir,
    /// Anything that exists.
    Any,
}

/// Trusted: calls `std::path::Path::is_file`. The answer depends on what is
/// on disk at the time of the call, so nothing is stated of it.
#[verifier::external_body]
fn is_file(path: &str) -> bool {
    std::path::Path::new(path).is_file()
}

/// Trusted: calls `std::path::Path::is_dir`. The answer depends on what is
/// on disk at the time of the call, so nothing is stated of it.
#[verifier::external_body]
fn is_dir(path: &str) -> bool {
    std::path::Path::new(path).is_dir()
}

/// Trusted: calls `std::path::Path::exists`. The answer depends on what is
/// on disk at the time of the call, so nothing is stated of it.
#[verifier::external_body]
fn on_disk(path: &str) -> bool {
    std::path::Path::new(path).exists()
}

/// Asks the file system whether `path` is there as `kind`.
pub fn probe(path: &str, kind: PathKind) -> bool {
    match kind {
        PathKind::File => is_file(path),
        PathKind::Dir => is_dir(path),
        PathKind::Any => on_disk(path),
    }
}

/// Whether a path starts at the root.
pub open spec fn is_absolute(path: Seq<char>) -> bool {
    path.len() > 0 && path[0] == '/'
}

/// `rel` adjoined to `base`: an absolute `rel` replaces `base`; otherwise
/// `rel` follows `base`, with a separator between them unless `base` is
/// empty or already ends in one.
pub open spec fn joined(base: Seq<char>, rel: Seq<char>) -> Seq<char> {
    if is_absolute(rel) {
        rel
    } else if base.len() == 0 || base.last() == '/' {
        base + rel
    } else {
        base + seq!['/'] + rel
    }
}

/// Whether `path` starts at the root.
pub fn path_is_absolute(path: &str) -> (r: bool)
    ensures
        r == is_absolute(path@),
{
    let chars = to_chars(path);
    chars.len() > 0 && chars[0] == '/'
}

/// Adjoins `rel` to `base`.
pub fn join_path(base: &str, rel: &str) -> (path: String)
    ensures
        path@ == joined(base@, rel@),
{
    if path_is_absolute(rel) {
        return rel.to_owned();
    }
    let base_chars = to_chars(base);
    let mut path = base.to_owned();
    if base_chars.len() > 0 && base_chars[base_chars.len() - 1] != '/' {
        proof {
            reveal_strlit("/");
            assert("/"@ =~= seq!['/']);
        }
        path.append("/");
    }
    path.append(rel);
    path
}

/// `path` where `found` says that it exists, else nothing.
pub fn keep_if(path: String, found: bool) -> (r: Option<String>)
    ensures
        r == (if found {
            Some(path)
        } else {
            None
        }),
{
    if found {
        Some(path)
    } else {
        None
    }
}

/// Returns an Option containing the given path, if the path points to an actual file
pub fn some_if_file(path: String) -> (r: Option<String>)
    ensures
        r matches Some(kept) ==> kept == path,
{
    let found = is_file(path.as_str());
    keep_if(path, found)
}

/// Returns an Option containing the given path, if the path points to an actual directory
pub fn some_if_dir(path: String) -> (r: Option<String>)
    ensures
        r matches Some(kept) ==> kept == path,
{
    let found = is_dir(path.as_str());
    keep_if(path, found)
}

/// `at` is the first index at which `found` holds `true`.
pub open spec fn is_first_found(found: Seq<bool>, at: int) -> bool {
    &&& 0 <= at < found.len()
    &&& found[at]
    &&& forall|j: int| 0 <= j < at ==> !found[j]
}

/// The first of `paths` whose entry in `found` is `true`. An entry that
/// `found` lacks counts as `false`.
pub open spec fn picked(paths: Seq<Seq<char>>, found: Seq<bool>) -> Option<Seq<char>> {
    if exists|at: int| is_first_found(found, at) && at < paths.len() {
        Some(paths[choose|at: int| is_first_found(found, at) && at < paths.len()])
    } else {
        None
    }
}

/// The first of `paths` whose entry in `found` is `true`.
pub fn first_found(paths: &Vec<String>, found: &Vec<bool>) -> (r: Option<String>)
    ensures
        text_of(r) == picked(views(paths@), found@),
{
    let mut at: usize = 0;
    while at < paths.len() && at < found.len()
        invariant
            forall|j: int| 0 <= j < at ==> !found[j],
        decreases paths.len() - at,
    {
        if found[at] {
            proof {
                lemma_picked_is(views(paths@), found@, at as int);
            }
            return Some(paths[at].clone());
        }
        at += 1;
    }
    None
}

/// The first path that was found is the one that is picked.
pub proof fn lemma_picked_is(paths: Seq<Seq<char>>, found: Seq<bool>, at: int)
    requires
        is_first_found(found, at),
        at < paths.len(),
    ensures
        picked(paths, found) == Some(paths[at]),
{
    let chosen = choose|k: int| is_first_found(found, k) && k < paths.len();
    assert(is_first_found(found, chosen));
    if chosen < at {
        assert(!found[chosen]);
    }
    if at < chosen {
        assert(!found[at]);
    }
}

/// The candidates of a resolution: each root joined with `suffix`.
pub open spec fn candidates(roots: Seq<String>, suffix: Seq<char>) -> Seq<Seq<char>> {
    Seq::new(roots.len(), |i: int| joined(roots[i]@, suffix))
}

/// Builds the candidates of a resolution.
pub fn candidates_of(roots: &Vec<String>, suffix: &str) -> (paths: Vec<String>)
    ensures
        views(paths@) == candidates(roots@, suffix@),
{
    let mut paths: Vec<String> = Vec::new();
    let mut i: usize = 0;
    while i < roots.len()
        invariant
            i <= roots.len(),
            views(paths@) == candidates(roots@, suffix@).take(i as int),
        decreases roots.len() - i,
    {
        let path = join_path(roots[i].as_str(), suffix);
        proof {
            lemma_views_push(paths@, path);
            assert(candidates(roots@, suffix@).take(i + 1) =~= candidates(roots@, suffix@).take(
                i as int,
            ).push(path@));
        }
        paths.push(path);
        i += 1;
    }
    proof {
        assert(candidates(roots@, suffix@).take(roots@.len() as int) =~= candidates(
            roots@,
            suffix@,
        ));
    }
    paths
}

/// Asks the file system for the paths, one after the other, up to the first
/// that is there as `kind`: the answers, in the order of the paths.
pub fn probe_until_found(paths: &Vec<String>, kind: PathKind) -> (found: Vec<bool>)
    ensures
        found.len() <= paths.len(),
{
    let mut found: Vec<bool> = Vec::new();
    let mut i: usize = 0;
    while i < paths.len()
        invariant
            i <= paths.len(),
            found.len() == i,
        decreases paths.len() - i,
    {
        let here = probe(paths[i].as_str(), kind);
        found.push(here);
        if here {
            return found;
        }
        i += 1;
    }
    found
}

/// Returns the first of `roots` joined with `suffix` that exists as `kind`,
/// trying the roots in order, and nothing if none does: what is returned is
/// the candidate picked by the answers of the file system.
pub fn resolve(roots: &Vec<String>, suffix: &str, kind: PathKind) -> (r: Option<String>)
    ensures
        exists|found: Seq<bool>|
            found.len() <= roots.len() && text_of(r) == #[trigger] picked(
                candidates(roots@, suffix@),
                found,
            ),
{
    let paths = candidates_of(roots, suffix);
    let found = probe_until_found(&paths, kind);
    let r = first_found(&paths, &found);
    proof {
        let _ = picked(candidates(roots@, suffix@), found@);
        assert(views(paths@).len() == roots.len());
    }
    r
}

/// The path of an image: `file_name`, a dot and `extension`, below `base`.
pub open spec fn image_path(base: Seq<char>, file_name: Seq<char>, extension: Seq<char>) -> Seq<
    char,
> {
    joined(base, file_name + seq!['.'] + extension)
}

/// Builds the path of an image.
pub fn image_path_of(base_path: &str, file_name: &str, extension: &str) -> (path: String)
    ensures
        path@ == image_path(base_path@, file_name@, extension@),
{
    let mut name = file_name.to_owned();
    proof {
        reveal_strlit(".");
        assert("."@ =~= seq!['.']);
    }
    name.append(".");
    name.append(extension);
    join_path(base_path, name.as_str())
}

/// The image path to use when it is known which of the three exist: the
/// first that does, in the order `png`, `jpg`, `jpeg`.
pub open spec fn picked_image_path(
    base: Seq<char>,
    file_name: Seq<char>,
    png_found: bool,
    jpg_found: bool,
    jpeg_found: bool,
) -> Option<Seq<char>> {
    if png_found {
        Some(image_path(base, file_name, "png"@))
    } else if jpg_found {
        Some(image_path(base, file_name, "jpg"@))
    } else if jpeg_found {
        Some(image_path(base, file_name, "jpeg"@))
    } else {
        None
    }
}

/// Picks the image path from what was found on disk.
pub fn pick_image_path(
    base_path: &str,
    file_name: &str,
    png_found: bool,
    jpg_found: bool,
    jpeg_found: bool,
) -> (r: Option<String>)
    ensures
        text_of(r) == picked_image_path(base_path@, file_name@, png_found, jpg_found, jpeg_found),
{
    if png_found {
        Some(image_path_of(base_path, file_name, "png"))
    } else if jpg_found {
        Some(image_path_of(base_path, file_name, "jpg"))
    } else if jpeg_found {
        Some(image_path_of(base_path, file_name, "jpeg"))
    } else {
        None
    }
}

/// Returns the first existing image file path (based on a set number of image extensions) for a given
/// directory path and file name
///
/// e.g. dir/path/file_name.{png,jpg,jpeg} will return the first path which actually exists (or
/// `None` if none of them exist)
pub fn get_existing_image_path(base_path: &str, file_name: &str) -> (r: Option<String>)
    ensures
        exists|png_found: bool, jpg_found: bool, jpeg_found: bool|
            text_of(r) == #[trigger] picked_image_path(
                base_path@,
                file_name@,
                png_found,
                jpg_found,
                jpeg_found,
            ),
{
    let png_found = is_file(image_path_of(base_path, file_name, "png").as_str());
    let jpg_found = !png_found && is_file(image_path_of(base_path, file_name, "jpg").as_str());
    let jpeg_found = !png_found && !jpg_found && is_file(
        image_path_of(base_path, file_name, "jpeg").as_str(),
    );
    let r = pick_image_path(base_path, file_name, png_found, jpg_found, jpeg_found);
    proof {
        let _ = picked_image_path(base_path@, file_name@, png_found, jpg_found, jpeg_found);
    }
    r
}

} // verus!
