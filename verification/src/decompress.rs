use crate::archive::UnpackMethod;
use crate::format::{
    detect_format, spec_detect_format, ArchiveFormat, FormatClass, FormatType, StreamFormat,
};
use crate::path::{
    extension, is_plain_name, lemma_join_keeps_name, lemma_stem_holds_no_separator,
    spec_extension, spec_file_name, spec_file_stem, spec_join, spec_without_extension, view_of,
};
use crate::resolve::{
    candidate, resolve, spec_candidate, spec_nested_candidate, spec_resolve, ConcreteTarget,
    PathError, PathErrorView, PathState, TargetView,
};
use vstd::prelude::*;

verus! {

/// What is to be done with a source, once its format and its target are
/// settled.
#[derive(Clone, Debug, PartialEq, Eq)]
pub enum Action {
    /// Decode the source as one stream and write the content to a new file
    /// at `output`.
    Decode { format: StreamFormat, output: String },
    /// Unpack the entries of the source into `directory`.
    Unpack { format: ArchiveFormat, method: UnpackMethod, directory: String },
}

/// The mathematical value of an `Action`.
pub enum ActionView {
    Decode { format: StreamFormat, output: Seq<char> },
    Unpack { format: ArchiveFormat, method: UnpackMethod, directory: Seq<char> },
}

impl View for Action {
    type V = ActionView;

    open spec fn view(&self) -> ActionView {
        match self {
            Action::Decode { format, output } => ActionView::Decode {
                format: *format,
                output: output@,
            },
            Action::Unpack { format, method, directory } => ActionView::Unpack {
                format: *format,
                method: *method,
                directory: directory@,
            },
        }
    }
}

/// Why nothing is done with a source.
#[derive(Clone, Debug, PartialEq, Eq)]
pub enum Error {
    /// The source path has no extension to tell its format by.
    NoExtension { source: String },
    /// The extension of the source names no known format.
    UnknownFormat { token: String },
    /// The target collides with what exists.
    Path(PathError),
    /// The format is known, but archives of it cannot be unpacked.
    Unsupported { format: ArchiveFormat },
}

/// The mathematical value of an `Error`.
pub enum ErrorView {
    NoExtension(Seq<char>),
    UnknownFormat(Seq<char>),
    Path(PathErrorView),
    Unsupported(ArchiveFormat),
}

impl View for Error {
    type V = ErrorView;

    open spec fn view(&self) -> ErrorView {
        match self {
            Error::NoExtension { source } => ErrorView::NoExtension(source@),
            Error::UnknownFormat { token } => ErrorView::UnknownFormat(token@),
            Error::Path(e) => ErrorView::Path(e@),
            Error::Unsupported { format } => ErrorView::Unsupported(*format),
        }
    }
}

/// The families of error.
#[derive(Clone, Copy, Debug, PartialEq, Eq, Structural)]
pub enum ErrorKind {
    /// The format of the source cannot be told.
    Classification,
    /// The target collides with what exists.
    PathConflict,
    /// The format is known and cannot be handled.
    UnsupportedFormat,
}

impl ErrorView {
    /// The family of the error.
    pub open spec fn kind(self) -> ErrorKind {
        match self {
            ErrorView::NoExtension(_) => ErrorKind::Classification,
            ErrorView::UnknownFormat(_) => ErrorKind::Classification,
            ErrorView::Path(_) => ErrorKind::PathConflict,
            ErrorView::Unsupported(_) => ErrorKind::UnsupportedFormat,
        }
    }
}

impl Error {
    /// The family of the error.
    pub fn kind(&self) -> (r: ErrorKind)
        ensures
            r == self@.kind(),
    {
        match self {
            Error::NoExtension { .. } => ErrorKind::Classification,
            Error::UnknownFormat { .. } => ErrorKind::Classification,
            Error::Path(_) => ErrorKind::PathConflict,
            Error::Unsupported { .. } => ErrorKind::UnsupportedFormat,
        }
    }
}

/// The format of a source, told by its extension alone.
pub open spec fn spec_classify(source: Seq<char>) -> Result<FormatType, ErrorView> {
    match spec_extension(source) {
        None => Err(ErrorView::NoExtension(source)),
        Some(token) => match spec_detect_format(token) {
            None => Err(ErrorView::UnknownFormat(token)),
            Some(format) => Ok(format),
        },
    }
}

/// What is done with a target once it is settled: a stream is decoded into
/// the file, an archive is unpacked into the directory by the method of its
/// format, if it has one.
pub open spec fn spec_action(format: FormatType, target: TargetView) -> Result<
    ActionView,
    ErrorView,
> {
    match format {
        FormatType::Stream(f) => Ok(ActionView::Decode { format: f, output: target.path() }),
        FormatType::Archive(f) => match f.spec_unpack_method() {
            Some(method) => Ok(
                ActionView::Unpack { format: f, method, directory: target.path() },
            ),
            None => Err(ErrorView::Unsupported(f)),
        },
    }
}

/// What is done with a source: its format is told by its extension, then
/// its target is settled, then the action follows from both. The first of
/// these that fails gives the error.
pub open spec fn spec_decompress_once(
    source: Seq<char>,
    destination: Option<Seq<char>>,
    state: PathState,
    nested: PathState,
) -> Result<ActionView, ErrorView> {
    match spec_classify(source) {
        Err(e) => Err(e),
        Ok(format) => match spec_resolve(
            source,
            format.spec_class(),
            destination,
            state,
            nested,
        ) {
            Err(e) => Err(ErrorView::Path(e)),
            Ok(target) => spec_action(format, target),
        },
    }
}

/// The mathematical value of the result of `classify`.
pub open spec fn classified_view(r: Result<FormatType, Error>) -> Result<FormatType, ErrorView> {
    match r {
        Ok(format) => Ok(format),
        Err(e) => Err(e@),
    }
}

/// The mathematical value of the result of `decompress_once`.
pub open spec fn decided_view(r: Result<Action, Error>) -> Result<ActionView, ErrorView> {
    match r {
        Ok(action) => Ok(action@),
        Err(e) => Err(e@),
    }
}

/// Tells the format of a source by its extension.
pub fn classify(source: &str) -> (r: Result<FormatType, Error>)
    ensures
        classified_view(r) == spec_classify(source@),
{
    match extension(source) {
        None => Err(Error::NoExtension { source: String::from_str(source) }),
        Some(token) => match detect_format(token) {
            None => Err(Error::UnknownFormat { token: String::from_str(token) }),
            Some(format) => Ok(format),
        },
    }
}

/// The path whose state on disk `decompress_once` needs to know, for a
/// source whose format can be told.
pub fn probe_path<'a>(source: &'a str, destination: Option<&'a str>) -> (r: Result<&'a str, Error>)
    ensures
        match spec_classify(source@) {
            Ok(format) => r matches Ok(path) && path@ == spec_candidate(
                source@,
                format.spec_class(),
                view_of(destination),
            ),
            Err(e) => r matches Err(err) && err@ == e,
        },
{
    match classify(source) {
        Ok(format) => Ok(candidate(source, format.class(), destination)),
        Err(e) => Err(e),
    }
}

/// Decides what is to be done with a source. `state` is what the file
/// system holds at `probe_path(source, destination)`, and `nested` what it
/// holds at `nested_candidate(source, destination)`. `state` is of no
/// account where `probe_path` gives an error, and `nested` unless a
/// destination is given and is a directory. Nothing is read or written here.
pub fn decompress_once(
    source: &str,
    destination: Option<&str>,
    state: PathState,
    nested: PathState,
) -> (r: Result<Action, Error>)
    ensures
        decided_view(r) == spec_decompress_once(source@, view_of(destination), state, nested),
{
    let format = match classify(source) {
        Ok(format) => format,
        Err(e) => {
            return Err(e);
        },
    };
    let target = match resolve(source, format.class(), destination, state, nested) {
        Ok(target) => target,
        Err(e) => {
            return Err(Error::Path(e));
        },
    };
    let path = match target {
        ConcreteTarget::File(path) => path,
        ConcreteTarget::Directory(path) => path,
    };
    match format {
        FormatType::Stream(f) => Ok(Action::Decode { format: f, output: path }),
        FormatType::Archive(f) => match f.unpack_method() {
            Some(method) => Ok(Action::Unpack { format: f, method, directory: path }),
            None => Err(Error::Unsupported { format: f }),
        },
    }
}

/// A source without an extension is refused for that reason, whatever the
/// destination and whatever exists there.
pub proof fn lemma_no_extension_is_refused(
    source: Seq<char>,
    destination: Option<Seq<char>>,
    state: PathState,
    nested: PathState,
)
    requires
        spec_extension(source) is None,
    ensures
        spec_decompress_once(source, destination, state, nested) == Err::<ActionView, ErrorView>(
            ErrorView::NoExtension(source),
        ),
        spec_decompress_once(source, destination, state, nested)->Err_0.kind()
            == ErrorKind::Classification,
{
}

/// Where the path that decides the target exists and is not a directory, a
/// source whose format can be told is refused with a path conflict that
/// names that path. No action comes back, so nothing is written.
pub proof fn lemma_existing_file_is_refused(
    source: Seq<char>,
    destination: Option<Seq<char>>,
    nested: PathState,
)
    requires
        spec_classify(source) is Ok,
    ensures
        spec_decompress_once(source, destination, PathState::File, nested) == Err::<
            ActionView,
            ErrorView,
        >(
            ErrorView::Path(
                PathErrorView::DestinationIsFile(
                    spec_candidate(
                        source,
                        spec_classify(source)->Ok_0.spec_class(),
                        destination,
                    ),
                ),
            ),
        ),
        spec_decompress_once(source, destination, PathState::File, nested)->Err_0.kind()
            == ErrorKind::PathConflict,
{
}

/// Where the destination is a directory and the item that it would receive
/// exists and is not a directory, a source whose format can be told is
/// refused with a path conflict that names that item.
pub proof fn lemma_existing_nested_file_is_refused(source: Seq<char>, destination: Seq<char>)
    requires
        spec_classify(source) is Ok,
        spec_nested_candidate(source, Some(destination)) is Some,
    ensures
        spec_decompress_once(source, Some(destination), PathState::Directory, PathState::File)
            == Err::<ActionView, ErrorView>(
            ErrorView::Path(
                PathErrorView::DestinationIsFile(
                    spec_nested_candidate(source, Some(destination))->0,
                ),
            ),
        ),
{
}

/// A stream source without a destination is decoded to its own path
/// without the extension, where nothing exists there yet.
pub proof fn lemma_stream_default_output(
    source: Seq<char>,
    format: StreamFormat,
    nested: PathState,
)
    requires
        spec_classify(source) == Ok::<FormatType, ErrorView>(FormatType::Stream(format)),
    ensures
        spec_decompress_once(source, None, PathState::Missing, nested) == Ok::<
            ActionView,
            ErrorView,
        >(ActionView::Decode { format, output: spec_without_extension(source) }),
{
}

/// Given a destination that is an existing directory, the output is an item
/// of that directory named by the stem of the source, where nothing exists
/// there yet: a file for a stream, a directory for an archive. It is never
/// the directory itself, and never carries the extension of the source.
pub proof fn lemma_existing_directory_is_nested(source: Seq<char>, destination: Seq<char>)
    requires
        spec_classify(source) is Ok,
        is_plain_name(spec_file_stem(source)->0),
    ensures
        spec_file_stem(source) is Some,
        spec_decompress_once(source, Some(destination), PathState::Directory, PathState::Missing)
            == spec_action(
            spec_classify(source)->Ok_0,
            TargetView::of_class(
                spec_classify(source)->Ok_0.spec_class(),
                spec_join(destination, spec_file_stem(source)->0),
            ),
        ),
        spec_file_name(spec_join(destination, spec_file_stem(source)->0)) == spec_file_stem(source),
        destination.is_prefix_of(spec_join(destination, spec_file_stem(source)->0)),
{
    lemma_stem_holds_no_separator(source);
    lemma_join_keeps_name(destination, spec_file_stem(source)->0);
}

} // verus!
