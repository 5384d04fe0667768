//! Where the directories of the output tree lie. Creating them is the
//! caller's business.

use vstd::prelude::*;

use crate::path::{
    directory,
    directory_of,
    get_output_working_dir,
    invalid_last_segment,
    join,
    joined,
    remove_base_dir,
    remove_base_dir_failure,
    result_text,
    stripped_of,
    text_of,
    working_dir_of,
};
use crate::utils::text::texts;

verus! {

/// The directory that an input file needs in the working directory of the
/// input directory: the place of the file's own directory there. A file that
/// does not lie under the input directory has none, nor has any file where
/// the input directory has no name.
pub open spec fn output_directory_of(input_dir: Seq<char>, file_name: Seq<char>) -> Result<
    Seq<char>,
    Seq<char>,
> {
    match stripped_of(file_name, input_dir) {
        Some(relative) => match working_dir_of(input_dir) {
            Some(working_dir) => Ok(joined(working_dir, directory_of(relative))),
            None => Err(invalid_last_segment()),
        },
        None => Err(remove_base_dir_failure(file_name)),
    }
}

/// Whether `directories` and `failure` are the directories of the files up
/// to the first file without one, and the error of that file.
pub open spec fn planned_directories(
    input_dir: Seq<char>,
    file_names: Seq<Seq<char>>,
    directories: Seq<Seq<char>>,
    failure: Option<Seq<char>>,
) -> bool {
    &&& directories.len() <= file_names.len()
    &&& forall|i: int|
        0 <= i < directories.len() ==> output_directory_of(input_dir, file_names[i]) == Ok::<
            Seq<char>,
            Seq<char>,
        >(#[trigger] directories[i])
    &&& match failure {
        Some(message) => directories.len() < file_names.len() && output_directory_of(
            input_dir,
            file_names[directories.len() as int],
        ) == Err::<Seq<char>, Seq<char>>(message),
        None => directories.len() == file_names.len(),
    }
}

/// Computes the directory that an input file needs in the working directory
/// of the input directory.
pub fn output_directory(input_dir: &str, file_name: &str) -> (r: Result<String, String>)
    ensures
        result_text(r) == output_directory_of(input_dir@, file_name@),
{
    let relative = match remove_base_dir(input_dir, file_name) {
        Ok(relative) => relative,
        Err(message) => {
            return Err(message);
        },
    };
    let file_dir = directory(relative.as_str());
    match get_output_working_dir(input_dir) {
        Ok(working_dir) => Ok(join(working_dir.as_str(), file_dir.as_str())),
        Err(message) => Err(message),
    }
}

/// Computes the directories that recreate the input directory structure in
/// the output working directory: one for each input file, in the order of
/// the files. The first file without a directory ends the list; its error is
/// the second part of the result.
pub fn create_output_directories(input_dir: &str, input_file_names: &Vec<String>) -> (r: (
    Vec<String>,
    Option<String>,
))
    ensures
        planned_directories(input_dir@, texts(input_file_names@), texts(r.0@), text_of(r.1)),
{
    let mut directories: Vec<String> = Vec::new();
    let mut i: usize = 0;
    while i < input_file_names.len()
        invariant
            i <= input_file_names.len(),
            directories.len() == i,
            forall|j: int|
                0 <= j < i ==> output_directory_of(input_dir@, texts(input_file_names@)[j])
                    == Ok::<Seq<char>, Seq<char>>(#[trigger] texts(directories@)[j]),
        decreases input_file_names.len() - i,
    {
        assert(texts(input_file_names@)[i as int] == input_file_names[i as int]@);
        match output_directory(input_dir, input_file_names[i].as_str()) {
            Ok(dir) => {
                let ghost before = texts(directories@);
                directories.push(dir);
                assert(texts(directories@) =~= before.push(dir@));
            },
            Err(message) => {
                return (directories, Some(message));
            },
        }
        i += 1;
    }
    (directories, None)
}

} // verus!
