use html5_picture::fs::{create_output_directories, output_directory};
use html5_picture::is_png;
use html5_picture::path::{
    create_output_file_name, create_output_file_name_with_output_dir, directory, extension,
    file_stem, get_output_working_dir, remove_base_dir,
};

#[test]
fn output_file_name_lies_in_the_working_directory() {
    let output_file = create_output_file_name("../assets", "../assets/some/picture.png").unwrap();
    assert_eq!(output_file, "../.assets-html5picture/some/picture.png");
}

#[test]
fn output_file_name_of_a_file_outside_the_base_is_an_error() {
    let error = create_output_file_name("../assets", "../other/picture.png").unwrap_err();
    assert_eq!(error, "Could not remove base dir of ../other/picture.png");
}

#[test]
fn output_file_name_of_a_base_without_name_is_an_error() {
    let error = create_output_file_name("..", "../picture.png").unwrap_err();
    assert_eq!(error, "The last segment of the input path is not valid!");
}

#[test]
fn output_file_name_with_output_dir() {
    let output_file = create_output_file_name_with_output_dir(
        "../new-assets",
        "../assets",
        "../assets/some/picture.png",
    )
    .unwrap();
    assert_eq!(output_file, "../new-assets/some/picture.png");
    let error =
        create_output_file_name_with_output_dir("out", "assets", "elsewhere/a.png").unwrap_err();
    assert_eq!(error, "Could not remove base dir of elsewhere/a.png");
}

#[test]
fn output_working_dir_is_a_hidden_sibling() {
    assert_eq!(get_output_working_dir("../assets").unwrap(), "../.assets-html5picture");
    assert_eq!(get_output_working_dir("assets").unwrap(), ".assets-html5picture");
    assert_eq!(get_output_working_dir("/srv/www/img").unwrap(), "/srv/www/.img-html5picture");
    assert_eq!(get_output_working_dir("a/b/").unwrap(), "a/.b-html5picture");
}

#[test]
fn output_working_dir_needs_a_name() {
    for input in ["..", "/", "", "a/.."] {
        assert_eq!(
            get_output_working_dir(input).unwrap_err(),
            "The last segment of the input path is not valid!"
        );
    }
}

#[test]
fn remove_base_dir_strips_the_prefix() {
    let output =
        remove_base_dir("../assets", "../assets/some_other/directory/picture.png").unwrap();
    assert_eq!(output, "some_other/directory/picture.png");
    assert_eq!(remove_base_dir("a", "a").unwrap(), "");
    assert_eq!(remove_base_dir("a/", "a/b.png").unwrap(), "b.png");
}

#[test]
fn remove_base_dir_fails_outside_the_base() {
    assert_eq!(
        remove_base_dir("assets", "assets2/picture.png").unwrap_err(),
        "Could not remove base dir of assets2/picture.png"
    );
    assert_eq!(remove_base_dir("a/b", "a").unwrap_err(), "Could not remove base dir of a");
}

#[test]
fn png_files_are_told_by_their_extension() {
    assert!(is_png("picture.png"));
    assert!(is_png("some/dir/picture.png"));
    assert!(is_png("archive.tar.png"));
    assert!(is_png("dir.d/picture.png"));
    assert!(!is_png("picture.PNG"));
    assert!(!is_png("picture.jpg"));
    assert!(!is_png("picture"));
    assert!(!is_png("png"));
    assert!(!is_png(".png"));
    assert!(is_png("picture.png/"));
    assert!(!is_png("picture.png/.."));
    assert!(!is_png("picture.png."));
    assert!(!is_png(""));
}

#[test]
fn file_stems() {
    assert_eq!(file_stem("some/dir/picture.png").unwrap(), "picture");
    assert_eq!(file_stem("archive.tar.gz").unwrap(), "archive.tar");
    assert_eq!(file_stem("noextension").unwrap(), "noextension");
    assert_eq!(file_stem(".hidden").unwrap(), ".hidden");
    assert_eq!(file_stem(".hidden.png").unwrap(), ".hidden");
    assert_eq!(file_stem("trailing.").unwrap(), "trailing");
    assert_eq!(file_stem("dir/").unwrap(), "dir");
    assert_eq!(file_stem("\u{e4}\u{f6}.\u{fc}").unwrap(), "\u{e4}\u{f6}");
    assert_eq!(file_stem(".."), None);
    assert_eq!(file_stem("/"), None);
    assert_eq!(file_stem(""), None);
}

#[test]
fn file_stems_agree_with_the_standard_library() {
    for path in
        ["a.png", "a", ".a", "a.", "a.b.c", "x/y.z", "x.y/z", "..", "a/..", ".a.b", "a..b", "..."]
    {
        let expected = std::path::Path::new(path)
            .file_stem()
            .map(|stem| stem.to_str().unwrap().to_string());
        assert_eq!(file_stem(path), expected);
        let expected = std::path::Path::new(path)
            .extension()
            .map(|ext| ext.to_str().unwrap().to_string());
        assert_eq!(extension(path), expected);
    }
}

#[test]
fn extensions() {
    assert_eq!(extension("some/dir/picture.png").unwrap(), "png");
    assert_eq!(extension("archive.tar.gz").unwrap(), "gz");
    assert_eq!(extension("trailing.").unwrap(), "");
    assert_eq!(extension("noextension"), None);
    assert_eq!(extension(".hidden"), None);
    assert_eq!(extension("dir.d/file"), None);
    assert_eq!(extension(".."), None);
}

#[test]
fn directories() {
    assert_eq!(directory("assets/some/picture.png"), "assets/some");
    assert_eq!(directory("picture.png"), "");
    assert_eq!(directory("/picture.png"), "/");
    assert_eq!(directory("/"), "/");
    assert_eq!(directory(""), "");
}

#[test]
fn output_directory_of_a_file() {
    assert_eq!(
        output_directory("assets", "assets/some/picture.png").unwrap(),
        ".assets-html5picture/some"
    );
    assert_eq!(
        output_directory("../assets", "../assets/a/b/c.png").unwrap(),
        "../.assets-html5picture/a/b"
    );
    assert_eq!(
        output_directory("assets", "other/picture.png").unwrap_err(),
        "Could not remove base dir of other/picture.png"
    );
    assert_eq!(
        output_directory("..", "../picture.png").unwrap_err(),
        "The last segment of the input path is not valid!"
    );
}

#[test]
fn output_directories_of_all_files() {
    let files = vec![
        String::from("assets/a/1.png"),
        String::from("assets/b/c/2.png"),
        String::from("assets/a/3.png"),
    ];
    let (directories, failure) = create_output_directories("assets", &files);
    assert_eq!(
        directories,
        vec![
            ".assets-html5picture/a",
            ".assets-html5picture/b/c",
            ".assets-html5picture/a"
        ]
    );
    assert_eq!(failure, None);
}

#[test]
fn output_directories_end_at_the_first_failure() {
    let files = vec![
        String::from("assets/a/1.png"),
        String::from("elsewhere/2.png"),
        String::from("assets/a/3.png"),
    ];
    let (directories, failure) = create_output_directories("assets", &files);
    assert_eq!(directories, vec![".assets-html5picture/a"]);
    assert_eq!(failure.unwrap(), "Could not remove base dir of elsewhere/2.png");
    let (directories, failure) = create_output_directories("assets", &Vec::new());
    assert!(directories.is_empty());
    assert_eq!(failure, None);
}
