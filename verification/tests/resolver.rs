use zz::format::FormatClass;
use zz::resolve::{candidate, nested_candidate, resolve, ConcreteTarget, PathError, PathState};

fn file(path: &str) -> Result<ConcreteTarget, PathError> {
    Ok(ConcreteTarget::File(path.to_string()))
}

fn directory(path: &str) -> Result<ConcreteTarget, PathError> {
    Ok(ConcreteTarget::Directory(path.to_string()))
}

#[test]
fn stream_without_destination_goes_beside_the_source() {
    assert_eq!(candidate("dir/foo.gz", FormatClass::Stream, None), "dir/foo");
    assert_eq!(resolve("dir/foo.gz", FormatClass::Stream, None, PathState::Missing, PathState::Missing), file("dir/foo"));
}

#[test]
fn stream_into_a_path_that_does_not_exist_is_that_file() {
    assert_eq!(
        resolve("foo.gz", FormatClass::Stream, Some("out/bar.txt"), PathState::Missing, PathState::Missing),
        file("out/bar.txt")
    );
}

#[test]
fn stream_into_an_existing_directory_is_named_by_the_stem() {
    assert_eq!(resolve("foo.gz", FormatClass::Stream, Some("out/"), PathState::Directory, PathState::Missing), file("out/foo"));
    assert_eq!(resolve("a/b/foo.gz", FormatClass::Stream, Some("out"), PathState::Directory, PathState::Missing), file("out/foo"));
}

#[test]
fn stream_onto_an_existing_file_is_refused() {
    assert_eq!(
        resolve("foo.gz", FormatClass::Stream, Some("out/foo"), PathState::File, PathState::Missing),
        Err(PathError::DestinationIsFile("out/foo".to_string()))
    );
    assert_eq!(
        resolve("foo.gz", FormatClass::Stream, None, PathState::File, PathState::Missing),
        Err(PathError::DestinationIsFile("foo".to_string()))
    );
}

#[test]
fn stream_default_that_is_a_directory_is_refused() {
    assert_eq!(
        resolve("foo.gz", FormatClass::Stream, None, PathState::Directory, PathState::Missing),
        Err(PathError::DestinationIsDirectory("foo".to_string()))
    );
}

#[test]
fn archive_without_destination_goes_into_the_directory_of_the_source() {
    assert_eq!(candidate("dir/foo.tar", FormatClass::Archive, None), "dir");
    assert_eq!(resolve("dir/foo.tar", FormatClass::Archive, None, PathState::Directory, PathState::Missing), directory("dir"));
    assert_eq!(resolve("foo.tar", FormatClass::Archive, None, PathState::Directory, PathState::Missing), directory("."));
    assert_eq!(resolve("dir/foo.tar", FormatClass::Archive, None, PathState::Missing, PathState::Missing), directory("dir"));
}

#[test]
fn archive_into_a_path_that_does_not_exist_is_that_directory() {
    assert_eq!(
        resolve("foo.tar", FormatClass::Archive, Some("fresh/place"), PathState::Missing, PathState::Missing),
        directory("fresh/place")
    );
}

#[test]
fn archive_into_an_existing_directory_is_nested_one_level() {
    assert_eq!(resolve("foo.tar", FormatClass::Archive, Some("out/"), PathState::Directory, PathState::Missing), directory("out/foo"));
    assert_eq!(resolve("x/bar.zip", FormatClass::Archive, Some("out"), PathState::Directory, PathState::Missing), directory("out/bar"));
}

#[test]
fn two_archives_into_one_directory_do_not_collide() {
    let first = resolve("a.tar", FormatClass::Archive, Some("out"), PathState::Directory, PathState::Missing);
    let second = resolve("b.tar", FormatClass::Archive, Some("out"), PathState::Directory, PathState::Missing);
    assert_eq!(first, directory("out/a"));
    assert_eq!(second, directory("out/b"));
}

#[test]
fn archive_onto_an_existing_file_is_refused() {
    assert_eq!(
        resolve("foo.tar", FormatClass::Archive, Some("out"), PathState::File, PathState::Missing),
        Err(PathError::DestinationIsFile("out".to_string()))
    );
    assert_eq!(
        resolve("d/foo.tar", FormatClass::Archive, None, PathState::File, PathState::Missing),
        Err(PathError::DestinationIsFile("d".to_string()))
    );
}

#[test]
fn a_source_without_a_name_cannot_name_the_output() {
    assert_eq!(
        resolve("..", FormatClass::Stream, Some("out"), PathState::Directory, PathState::Missing),
        Err(PathError::SourceHasNoName("..".to_string()))
    );
}

#[test]
fn a_stem_of_dots_cannot_name_the_output() {
    assert_eq!(
        resolve("...tar", FormatClass::Archive, Some("out"), PathState::Directory, PathState::Missing),
        Err(PathError::SourceHasNoName("...tar".to_string()))
    );
    assert_eq!(
        resolve("a/..gz", FormatClass::Stream, Some("out"), PathState::Directory, PathState::Missing),
        Err(PathError::SourceHasNoName("a/..gz".to_string()))
    );
    assert_eq!(
        resolve("...tar", FormatClass::Archive, Some("fresh"), PathState::Missing, PathState::Missing),
        directory("fresh")
    );
}

#[test]
fn target_gives_its_path() {
    assert_eq!(ConcreteTarget::File("a/b".to_string()).path(), "a/b");
    assert_eq!(ConcreteTarget::Directory("c".to_string()).path(), "c");
}

#[test]
fn a_nested_file_that_exists_is_refused() {
    assert_eq!(
        resolve("foo.gz", FormatClass::Stream, Some("out"), PathState::Directory, PathState::File),
        Err(PathError::DestinationIsFile("out/foo".to_string()))
    );
    assert_eq!(
        resolve("foo.tar", FormatClass::Archive, Some("out/"), PathState::Directory, PathState::File),
        Err(PathError::DestinationIsFile("out/foo".to_string()))
    );
}

#[test]
fn a_nested_directory_that_exists_takes_an_archive_only() {
    assert_eq!(
        resolve("foo.tar", FormatClass::Archive, Some("out"), PathState::Directory, PathState::Directory),
        directory("out/foo")
    );
    assert_eq!(
        resolve("foo.gz", FormatClass::Stream, Some("out"), PathState::Directory, PathState::Directory),
        Err(PathError::DestinationIsDirectory("out/foo".to_string()))
    );
}

#[test]
fn the_nested_state_counts_for_a_given_directory_only() {
    for nested in [PathState::Missing, PathState::Directory, PathState::File] {
        assert_eq!(resolve("foo.gz", FormatClass::Stream, Some("out"), PathState::Missing, nested), file("out"));
        assert_eq!(resolve("d/foo.gz", FormatClass::Stream, None, PathState::Missing, nested), file("d/foo"));
        assert_eq!(resolve("d/foo.tar", FormatClass::Archive, None, PathState::Directory, nested), directory("d"));
        assert_eq!(
            resolve("foo.tar", FormatClass::Archive, Some("out"), PathState::File, nested),
            Err(PathError::DestinationIsFile("out".to_string()))
        );
    }
}

#[test]
fn nested_candidate_is_the_stem_inside_the_destination() {
    assert_eq!(nested_candidate("a/foo.gz", Some("out/")), Some("out/foo".to_string()));
    assert_eq!(nested_candidate("foo.tar.gz", Some("out")), Some("out/foo.tar".to_string()));
    assert_eq!(nested_candidate("foo.gz", None), None);
    assert_eq!(nested_candidate("...gz", Some("out")), None);
    assert_eq!(nested_candidate("dir/", Some("out")), None);
}
