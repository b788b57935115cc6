use zz::path::{directory_of, extension, file_name, file_stem, is_plain, join, without_extension};

#[test]
fn extension_is_what_follows_the_last_dot_of_the_name() {
    assert_eq!(extension("foo.gz"), Some("gz"));
    assert_eq!(extension("a/b.tar"), Some("tar"));
    assert_eq!(extension("foo.tar.gz"), Some("gz"));
    assert_eq!(extension("/abs/dir.d/x.ZIP"), Some("ZIP"));
    assert_eq!(extension("foo."), Some(""));
    assert_eq!(extension("..foo"), Some("foo"));
}

#[test]
fn some_paths_have_no_extension() {
    for path in ["README", "", "/", "out/", ".", "..", "a/..", "a/.", ".bashrc", "dir.d/README", "a.b/"] {
        assert_eq!(extension(path), None);
    }
}

#[test]
fn file_name_is_the_last_component() {
    assert_eq!(file_name("foo.gz"), Some("foo.gz"));
    assert_eq!(file_name("a/b/c.tar"), Some("c.tar"));
    assert_eq!(file_name("/c"), Some("c"));
    assert_eq!(file_name("a/"), None);
    assert_eq!(file_name(".."), None);
    assert_eq!(file_name("a/."), None);
    assert_eq!(file_name(""), None);
    assert_eq!(file_name("..."), Some("..."));
}

#[test]
fn stem_is_the_name_without_its_last_extension() {
    assert_eq!(file_stem("foo.gz"), Some("foo"));
    assert_eq!(file_stem("a/b/foo.tar.gz"), Some("foo.tar"));
    assert_eq!(file_stem("README"), Some("README"));
    assert_eq!(file_stem(".bashrc"), Some(".bashrc"));
    assert_eq!(file_stem("foo."), Some("foo"));
    assert_eq!(file_stem("dir/"), None);
    assert_eq!(file_stem(".."), None);
}

#[test]
fn characters_beyond_ascii_count_as_one_each() {
    assert_eq!(extension("données/été.gz"), Some("gz"));
    assert_eq!(file_stem("données/été.gz"), Some("été"));
    assert_eq!(without_extension("données/été.gz"), "données/été");
    assert_eq!(directory_of("données/été.gz"), "données");
    assert_eq!(extension("été.日本"), Some("日本"));
}

#[test]
fn without_extension_cuts_the_dot_too() {
    assert_eq!(without_extension("foo.gz"), "foo");
    assert_eq!(without_extension("a/b/foo.tar.gz"), "a/b/foo.tar");
    assert_eq!(without_extension("a.d/README"), "a.d/README");
    assert_eq!(without_extension(".bashrc"), ".bashrc");
    assert_eq!(without_extension("foo."), "foo");
    assert_eq!(without_extension(""), "");
}

#[test]
fn directory_of_a_path() {
    assert_eq!(directory_of("foo.tar"), ".");
    assert_eq!(directory_of("/foo.tar"), "/");
    assert_eq!(directory_of("a/foo.tar"), "a");
    assert_eq!(directory_of("/a/b/foo.tar"), "/a/b");
    assert_eq!(directory_of(""), ".");
}

#[test]
fn join_puts_one_separator_between() {
    assert_eq!(join("out", "foo"), "out/foo");
    assert_eq!(join("out/", "foo"), "out/foo");
    assert_eq!(join("/", "foo"), "/foo");
    assert_eq!(join("", "foo"), "foo");
    assert_eq!(join("a/b", ""), "a/b/");
}

#[test]
fn plain_names_are_all_but_the_empty_and_the_dots() {
    assert!(is_plain("a"));
    assert!(is_plain("..."));
    assert!(is_plain(".a"));
    assert!(is_plain("a."));
    assert!(!is_plain(""));
    assert!(!is_plain("."));
    assert!(!is_plain(".."));
}

#[test]
fn stem_of_a_name_that_begins_with_dots() {
    assert_eq!(file_stem("..gz"), Some("."));
    assert_eq!(file_stem("...gz"), Some(".."));
    assert_eq!(extension("...gz"), Some("gz"));
}

#[test]
fn parts_put_together_give_the_path_again() {
    for path in ["foo.gz", "a/b/foo.tar.gz", "/x.y/z.zip", "foo.", "..gz", "été.日本"] {
        let ext = extension(path).unwrap();
        assert_eq!(format!("{}.{}", without_extension(path), ext), path);
        assert_eq!(format!("{}.{}", file_stem(path).unwrap(), ext), file_name(path).unwrap());
    }
}

#[test]
fn a_joined_name_is_the_file_name_of_the_result() {
    for dir in ["", "out", "out/", "/", "a/b.c"] {
        for name in ["foo", "foo.tar", ".hidden", "..."] {
            let joined = join(dir, name);
            assert_eq!(file_name(&joined), Some(name));
            assert!(joined.starts_with(dir));
        }
    }
}
