//! Path computations for the output tree.
//!
//! Paths are carried as text. How a path splits into components is the
//! standard library's business, and differs between platforms: the
//! functions here ask `std::path` for the file name, the parent, a join or a
//! stripped prefix and build on the answers. The names `file_name_of`,
//! `parent_of`, `joined`, `stripped_of` and `with_extension_of` stand for
//! those answers on the platform the library is built for.

use std::path::Path;
use vstd::prelude::*;

verus! {

/// What `std::path::Path::file_name` returns for the path with this text.
pub uninterp spec fn file_name_of(path: Seq<char>) -> Option<Seq<char>>;

/// What `std::path::Path::parent` returns for the path with this text.
pub uninterp spec fn parent_of(path: Seq<char>) -> Option<Seq<char>>;

/// What `std::path::Path::join` returns for the path `base` and the
/// argument `path`.
pub uninterp spec fn joined(base: Seq<char>, path: Seq<char>) -> Seq<char>;

/// What `std::path::Path::strip_prefix` returns for the path `path` and the
/// argument `base`, with `None` for its error.
pub uninterp spec fn stripped_of(path: Seq<char>, base: Seq<char>) -> Option<Seq<char>>;

/// What `std::path::Path::with_extension` returns for the path `path` and
/// the argument `extension`.
pub uninterp spec fn with_extension_of(path: Seq<char>, extension: Seq<char>) -> Seq<char>;

/// The text of an optional string.
pub open spec fn text_of(value: Option<String>) -> Option<Seq<char>> {
    match value {
        Some(s) => Some(s@),
        None => None,
    }
}

/// Calls `std::path::Path::file_name`. The contract only gives the result
/// its name, `file_name_of`: the final component of the path, if it has one.
#[verifier::external_body]
pub(crate) fn file_name(path: &str) -> (r: Option<String>)
    ensures
        text_of(r) == file_name_of(path@),
{
    match Path::new(path).file_name() {
        Some(name) => Some(name.to_string_lossy().into_owned()),
        None => None,
    }
}

/// Calls `std::path::Path::parent`. The contract only gives the result its
/// name, `parent_of`: the path without its final component, if it has one.
#[verifier::external_body]
pub(crate) fn parent(path: &str) -> (r: Option<String>)
    ensures
        text_of(r) == parent_of(path@),
{
    match Path::new(path).parent() {
        Some(dir) => Some(dir.to_string_lossy().into_owned()),
        None => None,
    }
}

/// Calls `std::path::Path::join`. The contract only gives the result its
/// name, `joined`: `path` adjoined to `base`.
#[verifier::external_body]
pub(crate) fn join(base: &str, path: &str) -> (r: String)
    ensures
        r@ == joined(base@, path@),
{
    Path::new(base).join(path).to_string_lossy().into_owned()
}

/// Calls `std::path::Path::strip_prefix`. The contract only gives the result
/// its name, `stripped_of`: `path` without the leading `base`, or `None`
/// where `base` is no prefix of `path`.
#[verifier::external_body]
pub(crate) fn strip_prefix(path: &str, base: &str) -> (r: Option<String>)
    ensures
        text_of(r) == stripped_of(path@, base@),
{
    match Path::new(path).strip_prefix(base) {
        Ok(rest) => Some(rest.to_string_lossy().into_owned()),
        Err(_) => None,
    }
}

/// Calls `std::path::Path::with_extension`, which panics on an extension
/// that holds a path separator. The contract only gives the result its name,
/// `with_extension_of`: `path` with its extension replaced.
#[verifier::external_body]
pub(crate) fn with_extension(path: &str, extension: &str) -> (r: String)
    requires
        !extension@.contains('/'),
        !extension@.contains('\\'),
    ensures
        r@ == with_extension_of(path@, extension@),
{
    Path::new(path).with_extension(extension).to_string_lossy().into_owned()
}

/// The index of the last occurrence of `c` in `s`, or -1 if there is none.
pub open spec fn last_index_of(s: Seq<char>, c: char) -> int
    decreases s.len(),
{
    if s.len() == 0 {
        -1
    } else if s.last() == c {
        s.len() - 1
    } else {
        last_index_of(s.drop_last(), c)
    }
}

/// Whether a file name splits into a stem and an extension: it holds a dot
/// that is not its first character.
pub open spec fn has_extension(name: Seq<char>) -> bool {
    last_index_of(name, '.') > 0
}

/// The stem of a file name: the part before the final dot, or the whole name
/// where it does not split.
pub open spec fn name_stem(name: Seq<char>) -> Seq<char> {
    if has_extension(name) {
        name.subrange(0, last_index_of(name, '.'))
    } else {
        name
    }
}

/// The extension of a file name: the part after the final dot, if the name
/// splits.
pub open spec fn name_extension(name: Seq<char>) -> Option<Seq<char>> {
    if has_extension(name) {
        Some(name.subrange(last_index_of(name, '.') + 1, name.len() as int))
    } else {
        None
    }
}

/// The stem of a path's file name.
pub open spec fn file_stem_of(path: Seq<char>) -> Option<Seq<char>> {
    match file_name_of(path) {
        Some(name) => Some(name_stem(name)),
        None => None,
    }
}

/// The extension of a path's file name.
pub open spec fn extension_of(path: Seq<char>) -> Option<Seq<char>> {
    match file_name_of(path) {
        Some(name) => name_extension(name),
        None => None,
    }
}

/// The directory a path lies in: its parent, or the path itself where it has
/// none.
pub open spec fn directory_of(path: Seq<char>) -> Seq<char> {
    match parent_of(path) {
        Some(dir) => dir,
        None => path,
    }
}

/// The name of the working directory that belongs to an input directory
/// with the given name.
pub open spec fn working_dir_name(name: Seq<char>) -> Seq<char> {
    "."@ + name + "-html5picture"@
}

/// The working directory of an input directory: a sibling of it, named
/// after it.
pub open spec fn working_dir_of(input_dir: Seq<char>) -> Option<Seq<char>> {
    match file_name_of(input_dir) {
        Some(name) => Some(
            joined(
                match parent_of(input_dir) {
                    Some(dir) => dir,
                    None => Seq::empty(),
                },
                working_dir_name(name),
            ),
        ),
        None => None,
    }
}

/// The message of the error for a file that does not lie under the base
/// directory.
pub open spec fn remove_base_dir_failure(input_file: Seq<char>) -> Seq<char> {
    "Could not remove base dir of "@ + input_file
}

/// The message of the error for an input directory without a name.
pub open spec fn invalid_last_segment() -> Seq<char> {
    "The last segment of the input path is not valid!"@
}

/// Where a file of the base directory goes in the output directory.
pub open spec fn output_file_name_in(
    output_dir: Seq<char>,
    base_dir: Seq<char>,
    input_file: Seq<char>,
) -> Result<Seq<char>, Seq<char>> {
    match stripped_of(input_file, base_dir) {
        Some(relative) => Ok(joined(output_dir, relative)),
        None => Err(remove_base_dir_failure(input_file)),
    }
}

/// Where a file of the base directory goes in the working directory of that
/// base directory.
pub open spec fn output_file_name_of(base_dir: Seq<char>, input_file: Seq<char>) -> Result<
    Seq<char>,
    Seq<char>,
> {
    match working_dir_of(base_dir) {
        Some(working_dir) => output_file_name_in(working_dir, base_dir, input_file),
        None => Err(invalid_last_segment()),
    }
}

/// The text of a result of two strings.
pub open spec fn result_text(value: Result<String, String>) -> Result<Seq<char>, Seq<char>> {
    match value {
        Ok(s) => Ok(s@),
        Err(e) => Err(e@),
    }
}

/// Finds the last dot of a file name.
fn last_dot(name: &str) -> (r: Option<usize>)
    ensures
        match r {
            Some(i) => i as int == last_index_of(name@, '.') && i < name@.len(),
            None => last_index_of(name@, '.') == -1,
        },
{
    let len = name.unicode_len();
    let mut i = len;
    assert(name@.subrange(0, len as int) == name@);
    while i > 0
        invariant
            i <= len,
            len == name@.len(),
            last_index_of(name@, '.') == last_index_of(name@.subrange(0, i as int), '.'),
        decreases i,
    {
        i -= 1;
        let ghost prefix = name@.subrange(0, i + 1);
        assert(prefix.last() == name@[i as int]);
        assert(prefix.drop_last() == name@.subrange(0, i as int));
        if name.get_char(i) == '.' {
            return Some(i);
        }
    }
    None
}

/// Splits off the stem of a file name.
fn stem_of_name(name: &str) -> (r: String)
    ensures
        r@ == name_stem(name@),
{
    match last_dot(name) {
        Some(i) => {
            if i > 0 {
                name.substring_char(0, i).to_owned()
            } else {
                name.to_owned()
            }
        },
        None => name.to_owned(),
    }
}

/// Splits off the extension of a file name.
fn extension_of_name(name: &str) -> (r: Option<String>)
    ensures
        text_of(r) == name_extension(name@),
{
    match last_dot(name) {
        Some(i) => {
            if i > 0 {
                let len = name.unicode_len();
                Some(name.substring_char(i + 1, len).to_owned())
            } else {
                None
            }
        },
        None => None,
    }
}

/// The stem of the path's file name: the file name without its extension.
/// A name without a dot, or one whose only dot leads it, is its own stem.
/// There is no stem where the path has no file name.
pub fn file_stem(path: &str) -> (r: Option<String>)
    ensures
        text_of(r) == file_stem_of(path@),
{
    match file_name(path) {
        Some(name) => Some(stem_of_name(name.as_str())),
        None => None,
    }
}

/// The extension of the path's file name, without the dot; none where the
/// path has no file name, or the name has no dot after its first character.
pub fn extension(path: &str) -> (r: Option<String>)
    ensures
        text_of(r) == extension_of(path@),
{
    match file_name(path) {
        Some(name) => extension_of_name(name.as_str()),
        None => None,
    }
}

/// The directory the path lies in: the path without its final component.
/// A path without a parent is returned as it is.
pub fn directory(path: &str) -> (r: String)
    ensures
        r@ == directory_of(path@),
{
    match parent(path) {
        Some(dir) => dir,
        None => path.to_owned(),
    }
}

/// Generates the name of the output working directory: the input directory's
/// name between a leading dot and `-html5picture`, beside the input
/// directory. An input directory without a name is an error.
pub fn get_output_working_dir(input_dir: &str) -> (r: Result<String, String>)
    ensures
        result_text(r) == match working_dir_of(input_dir@) {
            Some(dir) => Ok::<Seq<char>, Seq<char>>(dir),
            None => Err(invalid_last_segment()),
        },
{
    let name = match file_name(input_dir) {
        Some(name) => name,
        None => {
            return Err("The last segment of the input path is not valid!".to_owned());
        },
    };
    let base = match parent(input_dir) {
        Some(dir) => dir,
        None => String::new(),
    };
    let mut dir_name = ".".to_owned();
    dir_name.append(name.as_str());
    dir_name.append("-html5picture");
    Ok(join(base.as_str(), dir_name.as_str()))
}

/// Removes the base directory from the front of the input file's path.
/// A file that does not lie under the base directory is an error.
pub fn remove_base_dir(base_dir: &str, input_file: &str) -> (r: Result<String, String>)
    ensures
        result_text(r) == match stripped_of(input_file@, base_dir@) {
            Some(relative) => Ok::<Seq<char>, Seq<char>>(relative),
            None => Err(remove_base_dir_failure(input_file@)),
        },
{
    match strip_prefix(input_file, base_dir) {
        Some(relative) => Ok(relative),
        None => {
            let mut message = "Could not remove base dir of ".to_owned();
            message.append(input_file);
            Err(message)
        },
    }
}

/// Takes the input file's path relative to the base directory and puts it
/// under the output directory.
pub fn create_output_file_name_with_output_dir(
    output_dir: &str,
    base_dir: &str,
    input_file: &str,
) -> (r: Result<String, String>)
    ensures
        result_text(r) == output_file_name_in(output_dir@, base_dir@, input_file@),
{
    match remove_base_dir(base_dir, input_file) {
        Ok(relative) => Ok(join(output_dir, relative.as_str())),
        Err(message) => Err(message),
    }
}

/// Generates the name under which the input file is stored in the working
/// directory of the base directory.
pub fn create_output_file_name(base_dir: &str, input_file: &str) -> (r: Result<String, String>)
    ensures
        result_text(r) == output_file_name_of(base_dir@, input_file@),
{
    match get_output_working_dir(base_dir) {
        Ok(working_dir) => create_output_file_name_with_output_dir(
            working_dir.as_str(),
            base_dir,
            input_file,
        ),
        Err(message) => Err(message),
    }
}

} // verus!
