use crate::entry::{
    all_plain, entry_path, is_admitted, lemma_entry_stays_inside, names_directory, nest,
    spec_entry_path, spec_is_admitted, spec_names_directory, spec_safe_components,
};
use crate::format::ArchiveFormat;
use crate::layout::{zip_offsets_fit, zip_scan};
use vstd::prelude::*;

verus! {

/// A zip archive that was opened by the `zip` crate. Nothing inside it is
/// visible here.
#[verifier::external_type_specification]
#[verifier::external_body]
#[verifier::reject_recursive_types(R)]
pub struct ExZipArchive<R>(zip::ZipArchive<R>);

/// std's reader over a buffer held in memory.
#[verifier::external_type_specification]
#[verifier::external_body]
#[verifier::reject_recursive_types(T)]
pub struct ExCursor<T>(std::io::Cursor<T>);

/// The entries of an opened zip archive, in the order of its central
/// directory: for each the stored name and the content, or the text of the
/// error with which the entry cannot be read.
pub uninterp spec fn zip_entries(archive: zip::ZipArchive<std::io::Cursor<Vec<u8>>>) -> Seq<
    Result<(Seq<char>, Seq<u8>), Seq<char>>,
>;

/// The entries of the zip archive that the bytes hold, or the text of the
/// error with which `zip::ZipArchive::new` does not accept them as an
/// archive. It is spoken of only for bytes in which no entry that is read
/// declares an offset too large.
pub uninterp spec fn zip_parsed(bytes: Seq<u8>) -> Result<
    Seq<Result<(Seq<char>, Seq<u8>), Seq<char>>>,
    Seq<char>,
>;

/// One entry of an archive as it is stored: its name and its content.
#[derive(Debug, PartialEq, Eq)]
pub struct ArchiveEntry {
    pub name: String,
    pub data: Vec<u8>,
}

impl View for ArchiveEntry {
    type V = (Seq<char>, Seq<u8>);

    open spec fn view(&self) -> (Seq<char>, Seq<u8>) {
        (self.name@, self.data@)
    }
}

/// One entry of an archive with the path at which it is to be written.
#[derive(Debug, PartialEq, Eq)]
pub struct PlacedEntry {
    /// Where the entry goes.
    pub path: String,
    /// Whether the entry is a directory to create. Its content is then of no
    /// account.
    pub is_directory: bool,
    /// The bytes of the file.
    pub data: Vec<u8>,
}

/// The mathematical value of a `PlacedEntry`.
pub struct PlacedView {
    pub path: Seq<char>,
    pub is_directory: bool,
    pub data: Seq<u8>,
}

impl View for PlacedEntry {
    type V = PlacedView;

    open spec fn view(&self) -> PlacedView {
        PlacedView { path: self.path@, is_directory: self.is_directory, data: self.data@ }
    }
}

/// Why an archive was not unpacked.
#[derive(Debug, PartialEq, Eq)]
pub enum ExtractError {
    /// The bytes are not an archive of the format.
    Unreadable { cause: String },
    /// The entry at this position cannot be read.
    BadEntry { index: usize, cause: String },
    /// The stored name of an entry leads out of the place of unpacking, or
    /// names no file inside it.
    UnsafeEntryName { name: String },
}

/// The mathematical value of an `ExtractError`.
pub enum ExtractErrorView {
    Unreadable(Seq<char>),
    BadEntry(nat, Seq<char>),
    UnsafeEntryName(Seq<char>),
}

impl View for ExtractError {
    type V = ExtractErrorView;

    open spec fn view(&self) -> ExtractErrorView {
        match self {
            ExtractError::Unreadable { cause } => ExtractErrorView::Unreadable(cause@),
            ExtractError::BadEntry { index, cause } => ExtractErrorView::BadEntry(
                *index as nat,
                cause@,
            ),
            ExtractError::UnsafeEntryName { name } => ExtractErrorView::UnsafeEntryName(name@),
        }
    }
}

/// How the entries of a format get out of an archive.
#[derive(Clone, Copy, Debug, PartialEq, Eq, Structural)]
pub enum UnpackMethod {
    /// The format's own reader unpacks the whole archive into a directory.
    Whole,
    /// The entries are read one by one, and each is placed by its stored
    /// name.
    EntryByEntry,
}

impl ArchiveFormat {
    /// How an archive of this format is unpacked, or `None` for a format
    /// that cannot be unpacked.
    pub open spec fn spec_unpack_method(self) -> Option<UnpackMethod> {
        match self {
            ArchiveFormat::Tar => Some(UnpackMethod::Whole),
            ArchiveFormat::Rar => Some(UnpackMethod::Whole),
            ArchiveFormat::Zip => Some(UnpackMethod::EntryByEntry),
            _ => None,
        }
    }

    /// How an archive of this format is unpacked.
    pub fn unpack_method(&self) -> (r: Option<UnpackMethod>)
        ensures
            r == self.spec_unpack_method(),
    {
        match self {
            ArchiveFormat::Tar => Some(UnpackMethod::Whole),
            ArchiveFormat::Rar => Some(UnpackMethod::Whole),
            ArchiveFormat::Zip => Some(UnpackMethod::EntryByEntry),
            _ => None,
        }
    }
}

/// The outcome of reading one entry.
pub open spec fn read_view(r: Result<ArchiveEntry, String>) -> Result<
    (Seq<char>, Seq<u8>),
    Seq<char>,
> {
    match r {
        Ok(entry) => Ok(entry@),
        Err(text) => Err(text@),
    }
}

/// Opens a zip archive held in memory with `zip::ZipArchive::new`, which
/// reads its central directory. To the offset that an entry declares it adds
/// the number of bytes that stand before the archive, without looking
/// whether the sum stays within 64 bits, so bytes in which an entry can
/// declare an offset that large are left out. For the others the contract
/// names what the archive holds, `zip_parsed`, and claims nothing else; an
/// error comes back as the text that its `Display` impl makes.
#[verifier::external_body]
fn zip_open(bytes: Vec<u8>) -> (r: Result<zip::ZipArchive<std::io::Cursor<Vec<u8>>>, String>)
    requires
        zip_offsets_fit(bytes@),
    ensures
        match r {
            Ok(archive) => zip_parsed(bytes@) == Ok::<
                Seq<Result<(Seq<char>, Seq<u8>), Seq<char>>>,
                Seq<char>,
            >(zip_entries(archive)),
            Err(text) => zip_parsed(bytes@) == Err::<
                Seq<Result<(Seq<char>, Seq<u8>), Seq<char>>>,
                Seq<char>,
            >(text@),
        },
{
    match zip::ZipArchive::new(std::io::Cursor::new(bytes)) {
        Ok(archive) => Ok(archive),
        Err(e) => Err(e.to_string()),
    }
}

/// The number of entries, from `zip::ZipArchive::len`.
#[verifier::external_body]
fn zip_len(archive: &zip::ZipArchive<std::io::Cursor<Vec<u8>>>) -> (n: usize)
    ensures
        n == zip_entries(*archive).len(),
{
    archive.len()
}

/// Reads the entry at a position with `zip::ZipArchive::by_index`, its name
/// with `ZipFile::name`, and its content to the end, where the crate compares
/// the stored checksum. The contract claims that the outcome is the one
/// that `zip_entries` names for the position, and that reading leaves the
/// entries of the archive as they were. An error comes back as the text
/// that its `Display` impl makes.
#[verifier::external_body]
fn zip_entry(archive: &mut zip::ZipArchive<std::io::Cursor<Vec<u8>>>, index: usize) -> (r: Result<
    ArchiveEntry,
    String,
>)
    ensures
        zip_entries(*final(archive)) == zip_entries(*old(archive)),
        index < zip_entries(*old(archive)).len() ==> read_view(r) == zip_entries(
            *old(archive),
        )[index as int],
{
    let mut file = archive.by_index(index).map_err(|e| e.to_string())?;
    let mut data: Vec<u8> = Vec::new();
    std::io::Read::read_to_end(&mut file, &mut data).map_err(|e| e.to_string())?;
    Ok(ArchiveEntry { name: file.name().to_string(), data })
}

/// The entry of a stored name and content, placed for unpacking into `dir`.
pub open spec fn spec_place(dir: Seq<char>, entry: (Seq<char>, Seq<u8>)) -> Result<
    PlacedView,
    ExtractErrorView,
> {
    match spec_entry_path(dir, entry.0) {
        Some(path) => Ok(
            PlacedView { path, is_directory: spec_names_directory(entry.0), data: entry.1 },
        ),
        None => Err(ExtractErrorView::UnsafeEntryName(entry.0)),
    }
}

/// The entries of an archive, placed for unpacking into `dir`, in the order
/// of the archive. The first entry that cannot be read or whose name is not
/// safe makes the whole an error.
pub open spec fn spec_place_all(dir: Seq<char>, entries: Seq<Result<(Seq<char>, Seq<u8>), Seq<char>>>) -> Result<
    Seq<PlacedView>,
    ExtractErrorView,
>
    decreases entries.len(),
{
    if entries.len() == 0 {
        Ok(Seq::empty())
    } else {
        match spec_place_all(dir, entries.drop_last()) {
            Err(e) => Err(e),
            Ok(done) => match entries.last() {
                Err(cause) => Err(ExtractErrorView::BadEntry((entries.len() - 1) as nat, cause)),
                Ok(entry) => match spec_place(dir, entry) {
                    Ok(placed) => Ok(done.push(placed)),
                    Err(e) => Err(e),
                },
            },
        }
    }
}

/// What `unpack_zip` says of bytes that it refuses itself.
pub open spec fn large_offset_cause() -> Seq<char> {
    "an entry declares an offset beyond 64 bits"@
}

/// What is read out of the bytes of a zip archive: the cause of the
/// library's own refusal where an entry that is read declares an offset too
/// large, else what the `zip` crate finds.
pub open spec fn spec_zip_read(bytes: Seq<u8>) -> Result<
    Seq<Result<(Seq<char>, Seq<u8>), Seq<char>>>,
    Seq<char>,
> {
    if zip_offsets_fit(bytes) {
        zip_parsed(bytes)
    } else {
        Err(large_offset_cause())
    }
}

/// What unpacking an archive into `dir` writes, given what the archive
/// holds.
pub open spec fn spec_unpack(
    dir: Seq<char>,
    parsed: Result<Seq<Result<(Seq<char>, Seq<u8>), Seq<char>>>, Seq<char>>,
) -> Result<Seq<PlacedView>, ExtractErrorView> {
    match parsed {
        Ok(entries) => spec_place_all(dir, entries),
        Err(cause) => Err(ExtractErrorView::Unreadable(cause)),
    }
}

/// The mathematical value of placed entries.
pub open spec fn placed_views(entries: Seq<PlacedEntry>) -> Seq<PlacedView> {
    Seq::new(entries.len(), |i: int| entries[i]@)
}

/// The mathematical value of the result of unpacking.
pub open spec fn unpacked_view(r: Result<Vec<PlacedEntry>, ExtractError>) -> Result<
    Seq<PlacedView>,
    ExtractErrorView,
> {
    match r {
        Ok(entries) => Ok(placed_views(entries@)),
        Err(e) => Err(e@),
    }
}

/// The mathematical value of the result of placing one entry.
pub open spec fn placed_view(r: Result<PlacedEntry, ExtractError>) -> Result<
    PlacedView,
    ExtractErrorView,
> {
    match r {
        Ok(entry) => Ok(entry@),
        Err(e) => Err(e@),
    }
}

/// Settles where one entry of an archive goes when the archive is unpacked
/// into `dir`. An entry whose stored name would take it out of `dir` is
/// refused.
pub fn place(dir: &str, entry: ArchiveEntry) -> (r: Result<PlacedEntry, ExtractError>)
    ensures
        placed_view(r) == spec_place(dir@, entry@),
{
    match entry_path(dir, entry.name.as_str()) {
        Some(path) => {
            let is_directory = names_directory(entry.name.as_str());
            Ok(PlacedEntry { path, is_directory, data: entry.data })
        },
        None => Err(ExtractError::UnsafeEntryName { name: entry.name }),
    }
}

/// Reads a zip archive held in memory, entry by entry in the order of the
/// archive, and settles where each entry goes under `dir`. Nothing is
/// written: the result is the list of what to write, or the first error.
/// Bytes in which an entry can declare an offset too large are refused here,
/// before the `zip` crate sees them.
pub fn unpack_zip(bytes: Vec<u8>, dir: &str) -> (r: Result<Vec<PlacedEntry>, ExtractError>)
    ensures
        unpacked_view(r) == spec_unpack(dir@, spec_zip_read(bytes@)),
{
    let ghost input = bytes@;
    if !zip_scan(bytes.as_slice()) {
        return Err(
            ExtractError::Unreadable {
                cause: String::from_str("an entry declares an offset beyond 64 bits"),
            },
        );
    }
    let mut archive = match zip_open(bytes) {
        Ok(archive) => archive,
        Err(e) => {
            return Err(ExtractError::Unreadable { cause: e });
        },
    };
    let ghost entries = zip_entries(archive);
    let n: usize = zip_len(&archive);
    let mut out: Vec<PlacedEntry> = Vec::new();
    let mut i: usize = 0;
    assert(entries.take(0) =~= Seq::empty());
    assert(placed_views(out@) =~= Seq::empty());
    while i < n
        invariant
            i <= n,
            n == entries.len(),
            zip_entries(archive) == entries,
            input == bytes@,
            zip_offsets_fit(input),
            zip_parsed(input) == Ok::<
                Seq<Result<(Seq<char>, Seq<u8>), Seq<char>>>,
                Seq<char>,
            >(entries),
            spec_place_all(dir@, entries.take(i as int)) == Ok::<
                Seq<PlacedView>,
                ExtractErrorView,
            >(placed_views(out@)),
        ensures
            i == n,
        decreases n - i,
    {
        let ghost upto = entries.take(i + 1);
        let ghost done = placed_views(out@);
        assert(upto.drop_last() =~= entries.take(i as int));
        assert(upto.last() == entries[i as int]);
        proof {
            lemma_error_stays(dir@, entries, i + 1);
        }
        let entry = match zip_entry(&mut archive, i) {
            Ok(entry) => entry,
            Err(e) => {
                return Err(ExtractError::BadEntry { index: i, cause: e });
            },
        };
        let placed = match place(dir, entry) {
            Ok(placed) => placed,
            Err(e) => {
                return Err(e);
            },
        };
        out.push(placed);
        assert(placed_views(out@) =~= done.push(placed@));
        i += 1;
    }
    assert(entries.take(n as int) =~= entries);
    Ok(out)
}

/// An error among the first `k` entries is the error of the whole archive.
pub proof fn lemma_error_stays(dir: Seq<char>, entries: Seq<Result<(Seq<char>, Seq<u8>), Seq<char>>>, k: int)
    requires
        0 <= k <= entries.len(),
    ensures
        spec_place_all(dir, entries.take(k)) is Err ==> spec_place_all(dir, entries)
            == spec_place_all(dir, entries.take(k)),
    decreases entries.len() - k,
{
    if k < entries.len() {
        let next = entries.take(k + 1);
        assert(next.drop_last() =~= entries.take(k));
        lemma_error_stays(dir, entries, k + 1);
    } else {
        assert(entries.take(k) =~= entries);
    }
}

/// The stored name of an entry that can be read.
pub open spec fn name_of(entry: Result<(Seq<char>, Seq<u8>), Seq<char>>) -> Seq<char> {
    match entry {
        Ok((name, _)) => name,
        Err(_) => Seq::empty(),
    }
}

/// The content of an entry that can be read.
pub open spec fn data_of(entry: Result<(Seq<char>, Seq<u8>), Seq<char>>) -> Seq<u8> {
    match entry {
        Ok((_, data)) => data,
        Err(_) => Seq::empty(),
    }
}

/// The directories and the final item that the stored name of an entry
/// leads through, for a name that is safe.
pub open spec fn pieces_of(entry: Result<(Seq<char>, Seq<u8>), Seq<char>>) -> Seq<Seq<char>> {
    match spec_safe_components(name_of(entry)) {
        Some(pieces) => pieces,
        None => Seq::empty(),
    }
}

/// Whether an entry can be read and its name can be placed under `dir`.
pub open spec fn is_placeable(dir: Seq<char>, entry: Result<(Seq<char>, Seq<u8>), Seq<char>>) -> bool {
    entry is Ok && spec_entry_path(dir, name_of(entry)) is Some
}

/// Unpacking gives entries to write exactly where every entry of the
/// archive can be read and placed: one entry whose name would leave `dir`
/// makes the whole an error. Where it gives entries, there is one for each
/// entry of the archive, in the same order, with the same content, at a
/// path that is `dir` followed by plain pieces alone: none of them is `..`,
/// so no path that is handed out for writing lies outside `dir`.
pub proof fn lemma_unpack_is_all_or_nothing(
    dir: Seq<char>,
    entries: Seq<Result<(Seq<char>, Seq<u8>), Seq<char>>>,
)
    ensures
        spec_place_all(dir, entries) is Ok <==> forall|i: int|
            0 <= i < entries.len() ==> is_placeable(dir, #[trigger] entries[i]),
        spec_place_all(dir, entries) matches Ok(placed) ==> {
            &&& placed.len() == entries.len()
            &&& forall|i: int|
                0 <= i < placed.len() ==> {
                    &&& (#[trigger] placed[i]).data == data_of(entries[i])
                    &&& Some(placed[i].path) == spec_entry_path(dir, name_of(entries[i]))
                    &&& placed[i].is_directory == spec_names_directory(name_of(entries[i]))
                    &&& dir.is_prefix_of(placed[i].path)
                    &&& placed[i].path == nest(dir, pieces_of(entries[i]))
                    &&& all_plain(pieces_of(entries[i]))
                }
        },
    decreases entries.len(),
{
    if entries.len() > 0 {
        let front = entries.drop_last();
        let last = entries.last();
        lemma_unpack_is_all_or_nothing(dir, front);
        assert forall|i: int| 0 <= i < front.len() implies front[i] == entries[i] by {}
        if spec_place_all(dir, entries) is Ok {
            let placed = spec_place_all(dir, entries)->Ok_0;
            let done = spec_place_all(dir, front)->Ok_0;
            assert(placed == done.push(spec_place(dir, last->Ok_0)->Ok_0));
            lemma_entry_stays_inside(dir, name_of(last));
            assert forall|i: int| 0 <= i < entries.len() implies is_placeable(
                dir,
                #[trigger] entries[i],
            ) by {
                if i < front.len() {
                    assert(is_placeable(dir, front[i]));
                }
            }
            assert forall|i: int| 0 <= i < placed.len() implies {
                &&& (#[trigger] placed[i]).data == data_of(entries[i])
                &&& Some(placed[i].path) == spec_entry_path(dir, name_of(entries[i]))
                &&& placed[i].is_directory == spec_names_directory(name_of(entries[i]))
                &&& dir.is_prefix_of(placed[i].path)
                &&& placed[i].path == nest(dir, pieces_of(entries[i]))
                &&& all_plain(pieces_of(entries[i]))
            } by {
                if i < done.len() {
                    assert(placed[i] == done[i]);
                }
            }
        } else {
            if spec_place_all(dir, front) is Ok {
                assert(!is_placeable(dir, entries[entries.len() - 1]));
            } else {
                let k = choose|k: int| 0 <= k < front.len() && !is_placeable(dir, #[trigger] front[k]);
                assert(!is_placeable(dir, entries[k]));
            }
        }
    }
}

/// The stored name of one entry of an archive, and whether the entry is a
/// directory.
#[derive(Debug, PartialEq, Eq)]
pub struct StoredName {
    pub name: String,
    pub is_directory: bool,
}

impl View for StoredName {
    type V = (Seq<char>, bool);

    open spec fn view(&self) -> (Seq<char>, bool) {
        (self.name@, self.is_directory)
    }
}

/// The stored names with their views.
pub open spec fn stored_views(names: Seq<StoredName>) -> Seq<(Seq<char>, bool)> {
    Seq::new(names.len(), |i: int| names[i]@)
}

/// Whether an archive with these stored names may be handed to the reader
/// of its format for unpacking: the first name that is not admitted makes
/// the whole an error.
pub open spec fn spec_admit_names(names: Seq<(Seq<char>, bool)>) -> Result<(), ExtractErrorView>
    decreases names.len(),
{
    if names.len() == 0 {
        Ok(())
    } else {
        match spec_admit_names(names.drop_last()) {
            Err(e) => Err(e),
            Ok(_) => {
                let (name, is_directory) = names.last();
                if spec_is_admitted(name, is_directory) {
                    Ok(())
                } else {
                    Err(ExtractErrorView::UnsafeEntryName(name))
                }
            },
        }
    }
}

/// The mathematical value of the result of `admit_names`.
pub open spec fn admitted_view(r: Result<(), ExtractError>) -> Result<(), ExtractErrorView> {
    match r {
        Ok(_) => Ok(()),
        Err(e) => Err(e@),
    }
}

/// An error among the first `k` names is the error of them all.
pub proof fn lemma_refusal_stays(names: Seq<(Seq<char>, bool)>, k: int)
    requires
        0 <= k <= names.len(),
    ensures
        spec_admit_names(names.take(k)) is Err ==> spec_admit_names(names) == spec_admit_names(
            names.take(k),
        ),
    decreases names.len() - k,
{
    if k < names.len() {
        let next = names.take(k + 1);
        assert(next.drop_last() =~= names.take(k));
        lemma_refusal_stays(names, k + 1);
    } else {
        assert(names.take(k) =~= names);
    }
}

/// Decides whether an archive may be handed to the reader of its format for
/// unpacking, by the stored names of its entries, in the order of the
/// archive. An archive with an entry whose name would leave the place of
/// unpacking is refused as a whole, before anything is written.
pub fn admit_names(names: &Vec<StoredName>) -> (r: Result<(), ExtractError>)
    ensures
        admitted_view(r) == spec_admit_names(stored_views(names@)),
{
    let ghost all = stored_views(names@);
    let mut i: usize = 0;
    assert(all.take(0) =~= Seq::empty());
    while i < names.len()
        invariant
            i <= names.len(),
            all == stored_views(names@),
            spec_admit_names(all.take(i as int)) == Ok::<(), ExtractErrorView>(()),
        decreases names.len() - i,
    {
        let ghost upto = all.take(i + 1);
        assert(upto.drop_last() =~= all.take(i as int));
        assert(upto.last() == names@[i as int]@);
        proof {
            lemma_refusal_stays(all, i + 1);
        }
        if !is_admitted(names[i].name.as_str(), names[i].is_directory) {
            return Err(ExtractError::UnsafeEntryName { name: names[i].name.clone() });
        }
        i += 1;
    }
    assert(all.take(names.len() as int) =~= all);
    Ok(())
}

/// An archive is admitted exactly where every one of its stored names is.
pub proof fn lemma_admitted_names_are_all_safe(names: Seq<(Seq<char>, bool)>)
    ensures
        spec_admit_names(names) is Ok <==> forall|i: int|
            0 <= i < names.len() ==> spec_is_admitted((#[trigger] names[i]).0, names[i].1),
    decreases names.len(),
{
    if names.len() > 0 {
        let front = names.drop_last();
        lemma_admitted_names_are_all_safe(front);
        assert forall|i: int| 0 <= i < front.len() implies front[i] == names[i] by {}
        if spec_admit_names(names) is Ok {
            assert forall|i: int| 0 <= i < names.len() implies spec_is_admitted(
                (#[trigger] names[i]).0,
                names[i].1,
            ) by {
                if i < front.len() {
                    assert(spec_is_admitted(front[i].0, front[i].1));
                }
            }
        } else if spec_admit_names(front) is Ok {
            let last = names[names.len() - 1];
            assert(!spec_is_admitted(last.0, last.1));
        } else {
            let k = choose|k: int|
                0 <= k < front.len() && !spec_is_admitted((#[trigger] front[k]).0, front[k].1);
            assert(!spec_is_admitted(names[k].0, names[k].1));
        }
    }
}

} // verus!
