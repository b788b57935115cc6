use crate::format::FormatClass;
use crate::path::{
    directory_of, file_stem, is_plain, is_plain_name, join, lemma_join_keeps_name,
    lemma_stem_holds_no_separator, spec_directory_of, spec_file_name, spec_file_stem, spec_join,
    spec_without_extension, view_of, without_extension,
};
use vstd::prelude::*;

verus! {

/// What the file system holds at a path.
#[derive(Clone, Copy, Debug, PartialEq, Eq, Structural)]
pub enum PathState {
    /// Nothing is there.
    Missing,
    /// A directory is there.
    Directory,
    /// Something other than a directory is there.
    File,
}

/// The place that the decoded content goes to.
#[derive(Clone, Debug, PartialEq, Eq)]
pub enum ConcreteTarget {
    /// A file to create, for the output of a stream format.
    File(String),
    /// A directory to fill, for the entries of an archive.
    Directory(String),
}

/// The mathematical value of a `ConcreteTarget`.
pub enum TargetView {
    File(Seq<char>),
    Directory(Seq<char>),
}

impl View for ConcreteTarget {
    type V = TargetView;

    open spec fn view(&self) -> TargetView {
        match self {
            ConcreteTarget::File(p) => TargetView::File(p@),
            ConcreteTarget::Directory(p) => TargetView::Directory(p@),
        }
    }
}

impl ConcreteTarget {
    /// The path of the target.
    pub fn path(&self) -> (r: &str)
        ensures
            r@ == self@.path(),
    {
        match self {
            ConcreteTarget::File(p) => p.as_str(),
            ConcreteTarget::Directory(p) => p.as_str(),
        }
    }
}

impl TargetView {
    /// The path of the target.
    pub open spec fn path(self) -> Seq<char> {
        match self {
            TargetView::File(p) => p,
            TargetView::Directory(p) => p,
        }
    }

    /// The target at `path` for a format of the given class.
    pub open spec fn of_class(class: FormatClass, path: Seq<char>) -> TargetView {
        match class {
            FormatClass::Stream => TargetView::File(path),
            FormatClass::Archive => TargetView::Directory(path),
        }
    }
}

/// Why no target could be settled.
#[derive(Clone, Debug, PartialEq, Eq)]
pub enum PathError {
    /// The destination exists and is not a directory: nothing is written
    /// over it.
    DestinationIsFile(String),
    /// A file was to be created where a directory exists.
    DestinationIsDirectory(String),
    /// The output was to be named after the source, whose file name has no
    /// stem that can name it.
    SourceHasNoName(String),
}

/// The mathematical value of a `PathError`.
pub enum PathErrorView {
    DestinationIsFile(Seq<char>),
    DestinationIsDirectory(Seq<char>),
    SourceHasNoName(Seq<char>),
}

impl View for PathError {
    type V = PathErrorView;

    open spec fn view(&self) -> PathErrorView {
        match self {
            PathError::DestinationIsFile(p) => PathErrorView::DestinationIsFile(p@),
            PathError::DestinationIsDirectory(p) => PathErrorView::DestinationIsDirectory(p@),
            PathError::SourceHasNoName(p) => PathErrorView::SourceHasNoName(p@),
        }
    }
}

/// The mathematical value of the result of `resolve`.
pub open spec fn resolved_view(r: Result<ConcreteTarget, PathError>) -> Result<
    TargetView,
    PathErrorView,
> {
    match r {
        Ok(t) => Ok(t@),
        Err(e) => Err(e@),
    }
}

/// The path whose state decides the target: the destination that the caller
/// gave, or else the default for the class. For a stream format the default
/// is the source without its extension; for an archive it is the directory
/// that holds the source.
pub open spec fn spec_candidate(
    source: Seq<char>,
    class: FormatClass,
    destination: Option<Seq<char>>,
) -> Seq<char> {
    match destination {
        Some(d) => d,
        None => match class {
            FormatClass::Stream => spec_without_extension(source),
            FormatClass::Archive => spec_directory_of(source),
        },
    }
}

/// The path of the item that an existing directory receives: the given
/// destination with the stem of the source inside it. `None` without a
/// destination, and for a source whose stem is no plain name (a stem `.` or
/// `..` would not stay inside).
pub open spec fn spec_nested_candidate(source: Seq<char>, destination: Option<Seq<char>>) -> Option<
    Seq<char>,
> {
    match (destination, spec_file_stem(source)) {
        (Some(d), Some(stem)) => if is_plain_name(stem) {
            Some(spec_join(d, stem))
        } else {
            None
        },
        _ => None,
    }
}

/// The target at a path of which the state is known, for a format of the
/// given class: a file goes where nothing is, a directory where nothing or
/// a directory is. What exists and is not a directory is never a target.
pub open spec fn spec_settle(class: FormatClass, path: Seq<char>, state: PathState) -> Result<
    TargetView,
    PathErrorView,
> {
    match state {
        PathState::File => Err(PathErrorView::DestinationIsFile(path)),
        PathState::Missing => Ok(TargetView::of_class(class, path)),
        PathState::Directory => match class {
            FormatClass::Stream => Err(PathErrorView::DestinationIsDirectory(path)),
            FormatClass::Archive => Ok(TargetView::Directory(path)),
        },
    }
}

/// The target for a source, a class of format, the destination that the
/// caller gave, the state of the candidate path and the state of the nested
/// candidate.
///
/// A given destination that does not exist is taken as it is; one that is a
/// directory receives an item named by the stem of the source, and the
/// target is settled at that item by its own state. Without a destination
/// the target is settled at the candidate: a stream goes there if nothing is
/// there, and an archive is unpacked into the candidate directory itself.
/// Whatever exists and is not a directory is never a target.
pub open spec fn spec_resolve(
    source: Seq<char>,
    class: FormatClass,
    destination: Option<Seq<char>>,
    state: PathState,
    nested: PathState,
) -> Result<TargetView, PathErrorView> {
    let candidate = spec_candidate(source, class, destination);
    match destination {
        None => spec_settle(class, candidate, state),
        Some(_) => match state {
            PathState::File => Err(PathErrorView::DestinationIsFile(candidate)),
            PathState::Missing => Ok(TargetView::of_class(class, candidate)),
            PathState::Directory => match spec_nested_candidate(source, destination) {
                Some(inside) => spec_settle(class, inside, nested),
                None => Err(PathErrorView::SourceHasNoName(source)),
            },
        },
    }
}

/// The path whose state on disk `resolve` needs to know.
pub fn candidate<'a>(source: &'a str, class: FormatClass, destination: Option<&'a str>) -> (r:
    &'a str)
    ensures
        r@ == spec_candidate(source@, class, view_of(destination)),
{
    match destination {
        Some(d) => d,
        None => match class {
            FormatClass::Stream => without_extension(source),
            FormatClass::Archive => directory_of(source),
        },
    }
}

/// The second path whose state on disk `resolve` needs to know, where the
/// given destination is a directory.
pub fn nested_candidate(source: &str, destination: Option<&str>) -> (r: Option<String>)
    ensures
        match r {
            Some(path) => spec_nested_candidate(source@, view_of(destination)) == Some(path@),
            None => spec_nested_candidate(source@, view_of(destination)) is None,
        },
{
    match destination {
        Some(d) => match file_stem(source) {
            Some(stem) => if is_plain(stem) {
                Some(join(d, stem))
            } else {
                None
            },
            None => None,
        },
        None => None,
    }
}

/// Settles the target at a path of which the state is known.
fn settle(class: FormatClass, path: String, state: PathState) -> (r: Result<
    ConcreteTarget,
    PathError,
>)
    ensures
        resolved_view(r) == spec_settle(class, path@, state),
{
    match state {
        PathState::File => Err(PathError::DestinationIsFile(path)),
        PathState::Missing => match class {
            FormatClass::Stream => Ok(ConcreteTarget::File(path)),
            FormatClass::Archive => Ok(ConcreteTarget::Directory(path)),
        },
        PathState::Directory => match class {
            FormatClass::Stream => Err(PathError::DestinationIsDirectory(path)),
            FormatClass::Archive => Ok(ConcreteTarget::Directory(path)),
        },
    }
}

/// Settles where the output goes. `state` is what the file system holds at
/// `candidate(source, class, destination)`, and `nested` what it holds at
/// `nested_candidate(source, destination)`; `nested` is of no account unless
/// a destination is given and is a directory.
pub fn resolve(
    source: &str,
    class: FormatClass,
    destination: Option<&str>,
    state: PathState,
    nested: PathState,
) -> (r: Result<ConcreteTarget, PathError>)
    ensures
        resolved_view(r) == spec_resolve(source@, class, view_of(destination), state, nested),
{
    let at = candidate(source, class, destination);
    match destination {
        None => settle(class, String::from_str(at), state),
        Some(_) => match state {
            PathState::File => Err(PathError::DestinationIsFile(String::from_str(at))),
            PathState::Missing => settle(class, String::from_str(at), PathState::Missing),
            PathState::Directory => match nested_candidate(source, destination) {
                Some(inside) => settle(class, inside, nested),
                None => Err(PathError::SourceHasNoName(String::from_str(source))),
            },
        },
    }
}

/// Whatever the source and the class, a path that exists and is not a
/// directory is never a target: where the candidate is such a path, or the
/// nested candidate inside a destination that is a directory, the answer is
/// the error that names it.
pub proof fn lemma_existing_file_is_no_target(
    source: Seq<char>,
    class: FormatClass,
    destination: Option<Seq<char>>,
    state: PathState,
    nested: PathState,
)
    ensures
        state == PathState::File ==> spec_resolve(source, class, destination, state, nested)
            == Err::<TargetView, PathErrorView>(
            PathErrorView::DestinationIsFile(spec_candidate(source, class, destination)),
        ),
        destination is Some && state == PathState::Directory && nested == PathState::File
            && spec_nested_candidate(source, destination) is Some ==> spec_resolve(
            source,
            class,
            destination,
            state,
            nested,
        ) == Err::<TargetView, PathErrorView>(
            PathErrorView::DestinationIsFile(spec_nested_candidate(source, destination)->0),
        ),
{
}

/// Every target is a path of which the state was asked, and that state
/// allows it: nothing, for a file; nothing or a directory, for a directory.
pub proof fn lemma_target_was_asked(
    source: Seq<char>,
    class: FormatClass,
    destination: Option<Seq<char>>,
    state: PathState,
    nested: PathState,
)
    requires
        spec_resolve(source, class, destination, state, nested) is Ok,
    ensures
        ({
            let target = spec_resolve(source, class, destination, state, nested)->Ok_0;
            let at_nested = destination is Some && state == PathState::Directory;
            let asked = if at_nested {
                nested
            } else {
                state
            };
            &&& target == TargetView::of_class(class, target.path())
            &&& at_nested ==> Some(target.path()) == spec_nested_candidate(source, destination)
            &&& !at_nested ==> target.path() == spec_candidate(source, class, destination)
            &&& asked != PathState::File
            &&& class == FormatClass::Stream ==> asked == PathState::Missing
        }),
{
}

/// A target inside a given directory that exists lies directly in it: the
/// target's path begins with the directory, and its file name is the stem of
/// the source.
pub proof fn lemma_nested_target_is_inside(
    source: Seq<char>,
    class: FormatClass,
    destination: Seq<char>,
    nested: PathState,
)
    requires
        spec_resolve(source, class, Some(destination), PathState::Directory, nested) is Ok,
    ensures
        ({
            let target = spec_resolve(
                source,
                class,
                Some(destination),
                PathState::Directory,
                nested,
            )->Ok_0;
            &&& destination.is_prefix_of(target.path())
            &&& spec_file_name(target.path()) == spec_file_stem(source)
            &&& target == TargetView::of_class(class, target.path())
        }),
{
    lemma_stem_holds_no_separator(source);
    lemma_join_keeps_name(destination, spec_file_stem(source)->0);
}

} // verus!
