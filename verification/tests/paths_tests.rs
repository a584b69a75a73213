use rot13::paths::get_file_name;

#[test]
fn stem_drops_directory_and_extension() {
    assert_eq!(get_file_name("dir/file.txt"), "file");
}

#[test]
fn stem_of_bare_file() {
    assert_eq!(get_file_name("file.txt"), "file");
}

#[test]
fn name_without_extension_is_kept() {
    assert_eq!(get_file_name("file"), "file");
}

#[test]
fn hidden_file_is_kept_whole() {
    assert_eq!(get_file_name(".gitignore"), ".gitignore");
}

#[test]
fn only_the_last_extension_is_dropped() {
    assert_eq!(get_file_name("archive.tar.gz"), "archive.tar");
}

#[test]
fn trailing_separator_is_ignored() {
    assert_eq!(get_file_name("some/dir/"), "dir");
}

#[test]
fn current_dir_component_is_ignored() {
    assert_eq!(get_file_name("some/dir/."), "dir");
}

#[test]
fn root_falls_back_to_the_path() {
    assert_eq!(get_file_name("/"), "/");
}

#[test]
fn empty_path_falls_back_to_itself() {
    assert_eq!(get_file_name(""), "");
}

#[test]
fn parent_dir_falls_back_to_the_path() {
    assert_eq!(get_file_name("foo/.."), "foo/..");
}

#[test]
fn absolute_path_keeps_only_the_stem() {
    assert_eq!(get_file_name("/home/user/notes.md"), "notes");
}
