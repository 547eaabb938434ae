//! The shared vocabulary of the handlers: file and item kinds, the output
//! record, errors, the snapshot of the disk, and the directory walker.
use vstd::prelude::*;
use vstd::string::*;
use crate::path::{
    extension, extension_of, file_name, file_name_of, parent, parent_of, str_eq,
};

verus! {

/// The role and fidelity of one physical file.
#[derive(Clone, Copy, Debug, PartialEq, Eq, Structural)]
pub enum FileType {
    FileVideo,
    FileVideoPreview,
    FileVideoRaw,
    FileImage,
    FileImagePreview,
    FileImageRaw,
    FileAudio,
    FileMetadata,
    FileGNSSTrack,
}

/// The kind of logical item a file belongs to.
#[derive(Clone, Copy, Debug, PartialEq, Eq, Structural)]
pub enum ItemType {
    ItemVideo,
    ItemImage,
    ItemAudio,
    ItemGNSSTrack,
}

/// A file kind paired with the kind of item it belongs to.
#[derive(Clone, Copy, Debug, PartialEq, Eq, Structural)]
pub struct JsonFileInfoTypes {
    pub file_type: FileType,
    pub item_type: ItemType,
}

/// The name under which a file kind is reported.
pub open spec fn file_type_name(t: FileType) -> Seq<char> {
    match t {
        FileType::FileVideo => "video"@,
        FileType::FileVideoPreview => "video-preview"@,
        FileType::FileVideoRaw => "video-raw"@,
        FileType::FileImage => "image"@,
        FileType::FileImagePreview => "image-preview"@,
        FileType::FileImageRaw => "image-raw"@,
        FileType::FileAudio => "audio"@,
        FileType::FileMetadata => "metadata"@,
        FileType::FileGNSSTrack => "gnss-track"@,
    }
}

/// The name under which an item kind is reported.
pub open spec fn item_type_name(t: ItemType) -> Seq<char> {
    match t {
        ItemType::ItemVideo => "video"@,
        ItemType::ItemImage => "image"@,
        ItemType::ItemAudio => "audio"@,
        ItemType::ItemGNSSTrack => "gnss-track"@,
    }
}

impl FileType {
    /// The reported name of this file kind.
    pub fn name(&self) -> (r: String)
        ensures
            r@ == file_type_name(*self),
    {
        match self {
            FileType::FileVideo => String::from_str("video"),
            FileType::FileVideoPreview => String::from_str("video-preview"),
            FileType::FileVideoRaw => String::from_str("video-raw"),
            FileType::FileImage => String::from_str("image"),
            FileType::FileImagePreview => String::from_str("image-preview"),
            FileType::FileImageRaw => String::from_str("image-raw"),
            FileType::FileAudio => String::from_str("audio"),
            FileType::FileMetadata => String::from_str("metadata"),
            FileType::FileGNSSTrack => String::from_str("gnss-track"),
        }
    }
}

impl ItemType {
    /// The reported name of this item kind.
    pub fn name(&self) -> (r: String)
        ensures
            r@ == item_type_name(*self),
    {
        match self {
            ItemType::ItemVideo => String::from_str("video"),
            ItemType::ItemImage => String::from_str("image"),
            ItemType::ItemAudio => String::from_str("audio"),
            ItemType::ItemGNSSTrack => String::from_str("gnss-track"),
        }
    }
}

/// One physical file of an item, as reported to the caller.
#[derive(Clone, Debug, PartialEq, Eq)]
pub struct FileItem {
    pub file_path: String,
    pub file_type: FileType,
    pub item_type: ItemType,
    pub part_count: Option<u8>,
    pub part_num: Option<u8>,
    pub metadata_file: Option<String>,
}

/// A `FileItem` with its text as character sequences.
pub struct FileItemView {
    pub file_path: Seq<char>,
    pub file_type: FileType,
    pub item_type: ItemType,
    pub part_count: Option<u8>,
    pub part_num: Option<u8>,
    pub metadata_file: Option<Seq<char>>,
}

pub open spec fn opt_str_view(o: Option<String>) -> Option<Seq<char>> {
    match o {
        Some(s) => Some(s@),
        None => None,
    }
}

impl View for FileItem {
    type V = FileItemView;

    open spec fn view(&self) -> FileItemView {
        FileItemView {
            file_path: self.file_path@,
            file_type: self.file_type,
            item_type: self.item_type,
            part_count: self.part_count,
            part_num: self.part_num,
            metadata_file: opt_str_view(self.metadata_file),
        }
    }
}

/// What went wrong.
#[derive(Clone, Copy, Debug, PartialEq, Eq, Structural)]
pub enum ErrorKind {
    /// A directory to scan is not in the snapshot.
    DirUnreadable,
    /// A path has no file name.
    NoFileName,
    /// A path has no parent directory.
    NoParent,
    /// A file that must have an extension has none.
    NoExtension,
    /// An extension this handler does not know.
    UnknownExtension,
    /// A file that does not belong where it was found.
    UnexpectedFile,
    /// A path outside the directory layout of the device.
    NotInExpectedStructure,
    /// A file name too short for the naming scheme of the device.
    NameTooShort,
    /// A file name that does not follow the naming scheme of the device.
    BadFileName,
    /// A file name whose segment number cannot be read.
    BadPartId,
    /// The first segment of a recording is neither present nor known to be missing.
    InitialPartMissing,
    /// A file that the naming scheme requires is absent and not known to be missing.
    ExpectedToExist,
    /// A single-file record was asked for a video item.
    SimpleVideoItem,
    /// A segment has both or neither of the two high-bitrate codec variants.
    VideoCodecConflict,
    /// A segment has both or neither of the two thumbnail variants.
    ThumbnailCodecConflict,
    /// A segment lacks its low-bitrate preview.
    MissingPreview,
    /// No handler has the requested name.
    UnknownHandler,
}

/// A failure, with the path or name it concerns.
#[derive(Clone, Debug, PartialEq, Eq)]
pub struct MediaError {
    pub kind: ErrorKind,
    pub subject: String,
}

impl View for MediaError {
    type V = (ErrorKind, Seq<char>);

    open spec fn view(&self) -> (ErrorKind, Seq<char>) {
        (self.kind, self.subject@)
    }
}

pub fn media_error(kind: ErrorKind, subject: &str) -> (r: MediaError)
    ensures
        r@ == (kind, subject@),
{
    MediaError { kind, subject: String::from_str(subject) }
}

pub open spec fn text_view(r: Result<String, MediaError>) -> Result<Seq<char>, (ErrorKind, Seq<char>)> {
    match r {
        Ok(s) => Ok(s@),
        Err(e) => Err(e@),
    }
}

/// Both results in turn: the first failure, or the two sequences joined.
pub open spec fn concat_results(
    a: Result<Seq<FileItemView>, (ErrorKind, Seq<char>)>,
    b: Result<Seq<FileItemView>, (ErrorKind, Seq<char>)>,
) -> Result<Seq<FileItemView>, (ErrorKind, Seq<char>)> {
    match a {
        Err(e) => Err(e),
        Ok(x) => match b {
            Err(e) => Err(e),
            Ok(y) => Ok(x + y),
        },
    }
}

pub open spec fn items_view(s: Seq<FileItem>) -> Seq<FileItemView> {
    s.map_values(|i: FileItem| i@)
}

pub open spec fn list_view(r: Result<Vec<FileItem>, MediaError>) -> Result<
    Seq<FileItemView>,
    (ErrorKind, Seq<char>),
> {
    match r {
        Ok(v) => Ok(items_view(v@)),
        Err(e) => Err(e@),
    }
}

pub open spec fn maybe_view(r: Result<Option<FileItem>, MediaError>) -> Result<
    Option<FileItemView>,
    (ErrorKind, Seq<char>),
> {
    match r {
        Ok(Some(i)) => Ok(Some(i@)),
        Ok(None) => Ok(None),
        Err(e) => Err(e@),
    }
}

pub open spec fn item_view(r: Result<FileItem, MediaError>) -> Result<
    FileItemView,
    (ErrorKind, Seq<char>),
> {
    match r {
        Ok(i) => Ok(i@),
        Err(e) => Err(e@),
    }
}

/// One path of a snapshot, and whether it is a directory.
#[derive(Clone, Debug)]
pub struct DiskEntry {
    pub path: String,
    pub is_dir: bool,
}

/// What is on disk under `root`: every file and directory below it, in the
/// order a depth-first walk that reads each directory in turn meets them.
#[derive(Clone, Debug)]
pub struct Snapshot {
    pub root: String,
    pub entries: Vec<DiskEntry>,
}

/// `p` exists on disk.
pub open spec fn on_disk(disk: Snapshot, p: Seq<char>) -> bool {
    p == disk.root@ || exists|i: int|
        0 <= i < disk.entries@.len() && #[trigger] disk.entries@[i].path@ == p
}

/// `p` is a directory on disk.
pub open spec fn dir_on_disk(disk: Snapshot, p: Seq<char>) -> bool {
    p == disk.root@ || exists|i: int|
        0 <= i < disk.entries@.len() && #[trigger] disk.entries@[i].path@ == p
            && disk.entries@[i].is_dir
}

impl Snapshot {
    /// Whether `p` exists on disk.
    pub fn contains(&self, p: &str) -> (r: bool)
        ensures
            r == on_disk(*self, p@),
    {
        if str_eq(self.root.as_str(), p) {
            return true;
        }
        let mut i: usize = 0;
        while i < self.entries.len()
            invariant
                i <= self.entries@.len(),
                forall|j: int| 0 <= j < i ==> #[trigger] self.entries@[j].path@ != p@,
            decreases self.entries@.len() - i,
        {
            if str_eq(self.entries[i].path.as_str(), p) {
                return true;
            }
            i = i + 1;
        }
        false
    }

    /// Whether `p` is a directory on disk.
    pub fn is_dir(&self, p: &str) -> (r: bool)
        ensures
            r == dir_on_disk(*self, p@),
    {
        if str_eq(self.root.as_str(), p) {
            return true;
        }
        let mut i: usize = 0;
        while i < self.entries.len()
            invariant
                i <= self.entries@.len(),
                forall|j: int|
                    0 <= j < i ==> !(#[trigger] self.entries@[j].path@ == p@
                        && self.entries@[j].is_dir),
            decreases self.entries@.len() - i,
        {
            if self.entries[i].is_dir && str_eq(self.entries[i].path.as_str(), p) {
                return true;
            }
            i = i + 1;
        }
        false
    }
}

/// `p` is among the paths known to be missing.
pub open spec fn known_missing(km: Seq<String>, p: Seq<char>) -> bool {
    exists|i: int| 0 <= i < km.len() && #[trigger] km[i]@ == p
}

/// Whether `p` is among the paths known to be missing.
pub fn is_known_missing(km: &Vec<String>, p: &str) -> (r: bool)
    ensures
        r == known_missing(km@, p@),
{
    let mut i: usize = 0;
    while i < km.len()
        invariant
            i <= km@.len(),
            forall|j: int| 0 <= j < i ==> #[trigger] km@[j]@ != p@,
        decreases km@.len() - i,
    {
        if str_eq(km[i].as_str(), p) {
            return true;
        }
        i = i + 1;
    }
    false
}

/// The character is ASCII.
pub open spec fn is_ascii_char(c: char) -> bool {
    (c as u32) < 128
}

/// The lowercase form of a text, as `str::to_lowercase` gives it.
pub uninterp spec fn lower_of(s: Seq<char>) -> Seq<char>;

/// Relies on `str::to_lowercase`: its result depends on the characters of
/// the text alone.
#[verifier::external_body]
pub(crate) fn lowercase(s: &str) -> (r: String)
    ensures
        r@ == lower_of(s@),
{
    s.to_lowercase()
}

/// Where a derived path stands.
#[derive(Clone, Copy, Debug, PartialEq, Eq, Structural)]
pub enum Presence {
    Present,
    KnownMissing,
    Absent,
}

pub open spec fn presence_of(disk: Snapshot, km: Seq<String>, p: Seq<char>) -> Presence {
    if on_disk(disk, p) {
        Presence::Present
    } else if known_missing(km, p) {
        Presence::KnownMissing
    } else {
        Presence::Absent
    }
}

/// Resolves a derived path against the disk and the known-missing paths.
pub fn resolve(disk: &Snapshot, km: &Vec<String>, p: &str) -> (r: Presence)
    ensures
        r == presence_of(*disk, km@, p@),
{
    if disk.contains(p) {
        Presence::Present
    } else if is_known_missing(km, p) {
        Presence::KnownMissing
    } else {
        Presence::Absent
    }
}

/// The extension of `file`, which must have one.
pub fn get_extension_str(file: &str) -> (r: Result<String, MediaError>)
    ensures
        r matches Ok(x) ==> extension_of(file@) == Some(x@),
        r matches Err(e) ==> extension_of(file@) is None && e@ == (ErrorKind::NoExtension, file@),
{
    match extension(file) {
        Some(x) => Ok(x),
        None => Err(media_error(ErrorKind::NoExtension, file)),
    }
}

pub open spec fn simple_view(
    path: Seq<char>,
    t: JsonFileInfoTypes,
    meta: Option<Seq<char>>,
) -> FileItemView {
    FileItemView {
        file_path: path,
        file_type: t.file_type,
        item_type: t.item_type,
        part_count: None,
        part_num: None,
        metadata_file: meta,
    }
}

pub open spec fn part_view(
    path: Seq<char>,
    t: JsonFileInfoTypes,
    count: u8,
    num: u8,
    meta: Option<Seq<char>>,
) -> FileItemView {
    FileItemView {
        file_path: path,
        file_type: t.file_type,
        item_type: t.item_type,
        part_count: Some(count),
        part_num: Some(num),
        metadata_file: meta,
    }
}

/// A single-file record; never one of a video item.
pub open spec fn simple_result(
    path: Seq<char>,
    t: JsonFileInfoTypes,
    meta: Option<Seq<char>>,
) -> Result<FileItemView, (ErrorKind, Seq<char>)> {
    if t.item_type == ItemType::ItemVideo {
        Err((ErrorKind::SimpleVideoItem, path))
    } else {
        Ok(simple_view(path, t, meta))
    }
}

pub open spec fn simple_maybe(
    path: Seq<char>,
    t: JsonFileInfoTypes,
    meta: Option<Seq<char>>,
) -> Result<Option<FileItemView>, (ErrorKind, Seq<char>)> {
    match simple_result(path, t, meta) {
        Ok(v) => Ok(Some(v)),
        Err(e) => Err(e),
    }
}

fn create_simple_file_unchecked(
    file_path: String,
    json_file_info: JsonFileInfoTypes,
    metadata_file: Option<String>,
) -> (r: FileItem)
    ensures
        r@ == simple_view(file_path@, json_file_info, opt_str_view(metadata_file)),
{
    FileItem {
        file_path,
        file_type: json_file_info.file_type,
        item_type: json_file_info.item_type,
        part_count: None,
        part_num: None,
        metadata_file,
    }
}

/// The record of a file that is a whole item by itself.
pub fn create_simple_file(
    file_path: String,
    json_file_info: JsonFileInfoTypes,
    metadata_file: Option<String>,
) -> (r: Result<FileItem, MediaError>)
    ensures
        item_view(r) == simple_result(file_path@, json_file_info, opt_str_view(metadata_file)),
{
    if json_file_info.item_type == ItemType::ItemVideo {
        return Err(media_error(ErrorKind::SimpleVideoItem, file_path.as_str()));
    }
    Ok(create_simple_file_unchecked(file_path, json_file_info, metadata_file))
}

/// The record of one numbered part of an item.
pub fn create_part_file(
    file_path: String,
    json_file_info: JsonFileInfoTypes,
    part_count: u8,
    part_num: u8,
    metadata_file: Option<String>,
) -> (r: FileItem)
    ensures
        r@ == part_view(
            file_path@,
            json_file_info,
            part_count,
            part_num,
            opt_str_view(metadata_file),
        ),
{
    let mut ret = create_simple_file_unchecked(file_path, json_file_info, None);
    ret.part_count = Some(part_count);
    ret.part_num = Some(part_num);
    ret.metadata_file = metadata_file;
    ret
}

/// The single-file record of `file_path`, where it exists.
pub fn create_simple_file_if_exists(
    disk: &Snapshot,
    file_path: &str,
    json_file_info: JsonFileInfoTypes,
    metadata_file: Option<String>,
) -> (r: Result<Option<FileItem>, MediaError>)
    ensures
        maybe_view(r) == (if on_disk(*disk, file_path@) {
            simple_maybe(file_path@, json_file_info, opt_str_view(metadata_file))
        } else {
            Ok(None)
        }),
{
    if disk.contains(file_path) {
        match create_simple_file(String::from_str(file_path), json_file_info, metadata_file) {
            Ok(item) => Ok(Some(item)),
            Err(e) => Err(e),
        }
    } else {
        Ok(None)
    }
}

/// The part record of `file_path`, where it exists.
pub fn create_part_file_if_exists(
    disk: &Snapshot,
    file_path: &str,
    json_file_info: JsonFileInfoTypes,
    part_count: u8,
    part_num: u8,
    metadata_file: Option<String>,
) -> (r: Option<FileItem>)
    ensures
        on_disk(*disk, file_path@) <==> r is Some,
        r matches Some(i) ==> i@ == part_view(
            file_path@,
            json_file_info,
            part_count,
            part_num,
            opt_str_view(metadata_file),
        ),
{
    if disk.contains(file_path) {
        Some(
            create_part_file(
                String::from_str(file_path),
                json_file_info,
                part_count,
                part_num,
                metadata_file,
            ),
        )
    } else {
        None
    }
}

/// The part record of `file_path`, which must exist unless it is known to be missing.
pub fn create_part_file_that_exists(
    disk: &Snapshot,
    file_path: &str,
    json_file_info: JsonFileInfoTypes,
    part_count: u8,
    part_num: u8,
    metadata_file: Option<String>,
    known_missing_files: &Vec<String>,
) -> (r: Result<Option<FileItem>, MediaError>)
    ensures
        maybe_view(r) == match presence_of(*disk, known_missing_files@, file_path@) {
            Presence::Present => Ok(
                Some(
                    part_view(
                        file_path@,
                        json_file_info,
                        part_count,
                        part_num,
                        opt_str_view(metadata_file),
                    ),
                ),
            ),
            Presence::KnownMissing => Ok(None),
            Presence::Absent => Err((ErrorKind::ExpectedToExist, file_path@)),
        },
{
    match resolve(disk, known_missing_files, file_path) {
        Presence::Present => Ok(
            Some(
                create_part_file(
                    String::from_str(file_path),
                    json_file_info,
                    part_count,
                    part_num,
                    metadata_file,
                ),
            ),
        ),
        Presence::KnownMissing => Ok(None),
        Presence::Absent => Err(media_error(ErrorKind::ExpectedToExist, file_path)),
    }
}

/// One entry of a directory, as the walker hands it to a filter.
pub struct DirEntry {
    pub path: String,
    pub file_name: String,
    pub ext: Option<String>,
}

pub struct DirEntryView {
    pub path: Seq<char>,
    pub file_name: Seq<char>,
    pub ext: Option<Seq<char>>,
}

impl View for DirEntry {
    type V = DirEntryView;

    open spec fn view(&self) -> DirEntryView {
        DirEntryView { path: self.path@, file_name: self.file_name@, ext: opt_str_view(self.ext) }
    }
}

/// What a filter makes of one directory entry.
pub type EntryRule = spec_fn(DirEntryView) -> Result<
    Option<FileItemView>,
    (ErrorKind, Seq<char>),
>;

/// The records that `rule` makes of the children of `dir` among `entries`, in
/// order; the first failure, of the rule or of an entry without a file name,
/// ends the scan.
pub open spec fn filter_entries(entries: Seq<DiskEntry>, dir: Seq<char>, rule: EntryRule) -> Result<
    Seq<FileItemView>,
    (ErrorKind, Seq<char>),
>
    decreases entries.len(),
{
    if entries.len() == 0 {
        Ok(seq![])
    } else {
        match filter_entries(entries.drop_last(), dir, rule) {
            Err(e) => Err(e),
            Ok(items) => {
                let p = entries.last().path@;
                if parent_of(p) != Some(dir) {
                    Ok(items)
                } else {
                    match file_name_of(p) {
                        None => Err((ErrorKind::NoFileName, p)),
                        Some(n) => match rule(DirEntryView { path: p, file_name: n, ext: extension_of(p) }) {
                            Err(e) => Err(e),
                            Ok(None) => Ok(items),
                            Ok(Some(it)) => Ok(items.push(it)),
                        },
                    }
                }
            },
        }
    }
}

/// Once the scan of a prefix of the entries fails, the scan of all of them
/// fails the same way.
pub proof fn lemma_filter_failure_persists(
    entries: Seq<DiskEntry>,
    k: int,
    dir: Seq<char>,
    rule: EntryRule,
)
    requires
        0 <= k <= entries.len(),
        filter_entries(entries.subrange(0, k), dir, rule) is Err,
    ensures
        filter_entries(entries, dir, rule) == filter_entries(entries.subrange(0, k), dir, rule),
    decreases entries.len() - k,
{
    if k < entries.len() {
        let next = entries.subrange(0, k + 1);
        assert(next.drop_last() == entries.subrange(0, k));
        assert(next.subrange(0, k) == entries.subrange(0, k));
        lemma_filter_failure_persists(entries, k + 1, dir, rule);
    } else {
        assert(entries.subrange(0, k) == entries);
    }
}

/// The records that `rule` makes of the direct children of `dir`.
pub open spec fn filter_dir_spec(disk: Snapshot, dir: Seq<char>, rule: EntryRule) -> Result<
    Seq<FileItemView>,
    (ErrorKind, Seq<char>),
> {
    if !dir_on_disk(disk, dir) {
        Err((ErrorKind::DirUnreadable, dir))
    } else {
        filter_entries(disk.entries@, dir, rule)
    }
}

/// Walks the direct children of `dir` in snapshot order and collects what
/// `filter` makes of each; a failure of `filter` ends the walk.
pub fn filter_dir<F: Fn(&DirEntry) -> Result<Option<FileItem>, MediaError>>(
    disk: &Snapshot,
    dir: &str,
    filter: F,
    Ghost(rule): Ghost<EntryRule>,
) -> (r: Result<Vec<FileItem>, MediaError>)
    requires
        forall|e: &DirEntry| #[trigger] filter.requires((e,)),
        forall|e: &DirEntry, o: Result<Option<FileItem>, MediaError>|
            #[trigger] filter.ensures((e,), o) ==> maybe_view(o) == rule(e@),
    ensures
        list_view(r) == filter_dir_spec(*disk, dir@, rule),
{
    if !disk.is_dir(dir) {
        return Err(media_error(ErrorKind::DirUnreadable, dir));
    }
    let mut items: Vec<FileItem> = Vec::new();
    let mut i: usize = 0;
    assert(items_view(items@) == Seq::<FileItemView>::empty());
    assert(disk.entries@.subrange(0, 0).len() == 0);
    while i < disk.entries.len()
        invariant
            i <= disk.entries@.len(),
            dir_on_disk(*disk, dir@),
            forall|e: &DirEntry| #[trigger] filter.requires((e,)),
            forall|e: &DirEntry, o: Result<Option<FileItem>, MediaError>|
                #[trigger] filter.ensures((e,), o) ==> maybe_view(o) == rule(e@),
            filter_entries(disk.entries@.subrange(0, i as int), dir@, rule) == Ok::<
                Seq<FileItemView>,
                (ErrorKind, Seq<char>),
            >(items_view(items@)),
        decreases disk.entries@.len() - i,
    {
        let ghost prefix = disk.entries@.subrange(0, i + 1);
        assert(prefix.drop_last() == disk.entries@.subrange(0, i as int));
        let p = disk.entries[i].path.as_str();
        match parent(p) {
            Some(pp) if str_eq(pp.as_str(), dir) => {
                match file_name(p) {
                    None => {
                        proof {
                            lemma_filter_failure_persists(disk.entries@, i + 1, dir@, rule);
                        }
                        return Err(media_error(ErrorKind::NoFileName, p));
                    },
                    Some(n) => {
                        let entry = DirEntry { path: String::from_str(p), file_name: n, ext: extension(p) };
                        match filter(&entry) {
                            Err(e) => {
                                proof {
                                    lemma_filter_failure_persists(disk.entries@, i + 1, dir@, rule);
                                }
                                return Err(e);
                            },
                            Ok(None) => {},
                            Ok(Some(it)) => {
                                let ghost before = items@;
                                items.push(it);
                                assert(items_view(items@) == items_view(before).push(it@));
                            },
                        }
                    },
                }
            },
            _ => {},
        }
        i = i + 1;
    }
    assert(disk.entries@.subrange(0, i as int) == disk.entries@);
    Ok(items)
}

} // verus!
