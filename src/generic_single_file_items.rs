//! Devices whose every item is a single file, typed by its extension alone.
use vstd::prelude::*;
use crate::path::{extension_of, str_eq};
use crate::helpers::{
    create_part_file, create_simple_file, filter_dir, filter_dir_spec, get_extension_str,
    items_view, list_view, lower_of, lowercase, maybe_view, media_error, part_view, simple_result, DirEntry,
    DirEntryView, EntryRule, ErrorKind, FileItem, FileItemView, FileType, ItemType,
    JsonFileInfoTypes, MediaError, Snapshot,
};

verus! {

/// The kinds of a file by its lowercase extension.
pub open spec fn generic_types(lower: Seq<char>) -> Option<JsonFileInfoTypes> {
    if lower == "jpg"@ || lower == "png"@ {
        Some(JsonFileInfoTypes { file_type: FileType::FileImage, item_type: ItemType::ItemImage })
    } else if lower == "mp4"@ {
        Some(JsonFileInfoTypes { file_type: FileType::FileVideo, item_type: ItemType::ItemVideo })
    } else if lower == "wav"@ || lower == "3gpp"@ {
        Some(JsonFileInfoTypes { file_type: FileType::FileAudio, item_type: ItemType::ItemAudio })
    } else {
        None
    }
}

/// The record of the file `path` of kinds `t`: videos and audio recordings as
/// their own single part, images as single files.
pub open spec fn generic_record(path: Seq<char>, t: JsonFileInfoTypes) -> Result<
    FileItemView,
    (ErrorKind, Seq<char>),
> {
    if t.file_type == FileType::FileVideo || t.file_type == FileType::FileAudio {
        Ok(part_view(path, t, 1, 1, None))
    } else if t.file_type == FileType::FileImage {
        simple_result(path, t, None)
    } else {
        Err((ErrorKind::UnexpectedFile, path))
    }
}

/// The record of the file `path` with extension `ext`.
pub open spec fn generic_file(path: Seq<char>, ext: Seq<char>) -> Result<
    FileItemView,
    (ErrorKind, Seq<char>),
> {
    match generic_types(lower_of(ext)) {
        None => Err((ErrorKind::UnknownExtension, ext)),
        Some(t) => generic_record(path, t),
    }
}

/// What a listing makes of one file of the card: every file is an item.
pub open spec fn generic_rule(e: DirEntryView) -> Result<
    Option<FileItemView>,
    (ErrorKind, Seq<char>),
> {
    match e.ext {
        None => Err((ErrorKind::NoExtension, e.path)),
        Some(x) => match generic_file(e.path, x) {
            Err(er) => Err(er),
            Ok(v) => Ok(Some(v)),
        },
    }
}

pub open spec fn generic_rules() -> EntryRule {
    |e: DirEntryView| generic_rule(e)
}

/// The listing of a card at the lowest fidelity.
pub open spec fn generic_thumbnails(disk: Snapshot, card: Seq<char>) -> Result<
    Seq<FileItemView>,
    (ErrorKind, Seq<char>),
> {
    filter_dir_spec(disk, card, generic_rules())
}

/// The listing of a card at the highest fidelity.
pub open spec fn generic_high_quality(disk: Snapshot, card: Seq<char>) -> Result<
    Seq<FileItemView>,
    (ErrorKind, Seq<char>),
> {
    filter_dir_spec(disk, card, generic_rules())
}

/// The items of `file`: the file itself.
pub open spec fn generic_related(file: Seq<char>) -> Result<
    Seq<FileItemView>,
    (ErrorKind, Seq<char>),
> {
    match extension_of(file) {
        None => Err((ErrorKind::NoExtension, file)),
        Some(x) => match generic_file(file, x) {
            Err(er) => Err(er),
            Ok(v) => Ok(seq![v]),
        },
    }
}

/// The kinds of a file by its lowercase extension.
pub fn generic_filetype(lower: &str) -> (r: Option<JsonFileInfoTypes>)
    ensures
        r == generic_types(lower@),
{
    if str_eq(lower, "jpg") || str_eq(lower, "png") {
        Some(JsonFileInfoTypes { file_type: FileType::FileImage, item_type: ItemType::ItemImage })
    } else if str_eq(lower, "mp4") {
        Some(JsonFileInfoTypes { file_type: FileType::FileVideo, item_type: ItemType::ItemVideo })
    } else if str_eq(lower, "wav") || str_eq(lower, "3gpp") {
        Some(JsonFileInfoTypes { file_type: FileType::FileAudio, item_type: ItemType::ItemAudio })
    } else {
        None
    }
}

/// The kinds of a file by its extension, in any case.
fn filetype(ext: &str) -> (r: Result<JsonFileInfoTypes, MediaError>)
    ensures
        match generic_types(lower_of(ext@)) {
            Some(t) => r == Ok::<JsonFileInfoTypes, MediaError>(t),
            None => r matches Err(e) && e@ == (ErrorKind::UnknownExtension, ext@),
        },
{
    let lower = lowercase(ext);
    match generic_filetype(lower.as_str()) {
        Some(t) => Ok(t),
        None => Err(media_error(ErrorKind::UnknownExtension, ext)),
    }
}

/// The record of `path` of kinds `t`.
pub fn generic_item(path: &str, t: JsonFileInfoTypes) -> (r: Result<FileItem, MediaError>)
    ensures
        match generic_record(path@, t) {
            Ok(v) => r matches Ok(i) && i@ == v,
            Err(e) => r matches Err(x) && x@ == e,
        },
{
    match t.file_type {
        FileType::FileVideo | FileType::FileAudio => Ok(
            create_part_file(String::from_str(path), t, 1, 1, None),
        ),
        FileType::FileImage => create_simple_file(String::from_str(path), t, None),
        _ => Err(media_error(ErrorKind::UnexpectedFile, path)),
    }
}

fn generic_entry(e: &DirEntry) -> (r: Result<Option<FileItem>, MediaError>)
    ensures
        maybe_view(r) == generic_rule(e@),
{
    let ext = match &e.ext {
        None => {
            return Err(media_error(ErrorKind::NoExtension, e.path.as_str()));
        },
        Some(x) => x.as_str(),
    };
    let t = match filetype(ext) {
        Ok(t) => t,
        Err(er) => {
            return Err(er);
        },
    };
    match generic_item(e.path.as_str(), t) {
        Ok(item) => Ok(Some(item)),
        Err(er) => Err(er),
    }
}

/// The handler of devices that store each item as one file.
pub struct GenericSingleFileItem;

impl GenericSingleFileItem {
    /// Every file of the card, typed by its extension.
    pub fn list_thumbnail(
        &self,
        _source_media_location: &str,
        source_media_card: &str,
        _known_missing_files: &Vec<String>,
        disk: &Snapshot,
    ) -> (r: Result<Vec<FileItem>, MediaError>)
        ensures
            list_view(r) == generic_thumbnails(*disk, source_media_card@),
    {
        let ghost rule = generic_rules();
        filter_dir(
            disk,
            source_media_card,
            (|e: &DirEntry| -> (r: Result<Option<FileItem>, MediaError>)
                ensures
                    maybe_view(r) == rule(e@),
                { generic_entry(e) }),
            Ghost(rule),
        )
    }

    /// The same as the thumbnail listing: these devices keep one fidelity.
    pub fn list_high_quality(
        &self,
        source_media_location: &str,
        source_media_card: &str,
        known_missing_files: &Vec<String>,
        disk: &Snapshot,
    ) -> (r: Result<Vec<FileItem>, MediaError>)
        ensures
            list_view(r) == generic_high_quality(*disk, source_media_card@),
    {
        self.list_thumbnail(source_media_location, source_media_card, known_missing_files, disk)
    }

    /// The file itself, typed by its extension.
    pub fn get_related(
        &self,
        _source_media_location: &str,
        source_media_file: &str,
        _known_missing_files: &Vec<String>,
        _disk: &Snapshot,
    ) -> (r: Result<Vec<FileItem>, MediaError>)
        ensures
            list_view(r) == generic_related(source_media_file@),
    {
        let ext = match get_extension_str(source_media_file) {
            Ok(x) => x,
            Err(e) => {
                return Err(e);
            },
        };
        let t = match filetype(ext.as_str()) {
            Ok(t) => t,
            Err(e) => {
                return Err(e);
            },
        };
        match generic_item(source_media_file, t) {
            Ok(item) => {
                let ghost iv = item@;
                let v = vec![item];
                assert(items_view(v@) =~= seq![iv]);
                Ok(v)
            },
            Err(e) => Err(e),
        }
    }

    /// The name under which this handler is configured.
    pub fn name(&self) -> (r: &'static str)
        ensures
            r@ == "Generic-Single-File-Items"@,
    {
        "Generic-Single-File-Items"
    }
}

/// The two listings of a card agree: these devices keep a single fidelity.
pub proof fn lemma_generic_listings_agree(disk: Snapshot, card: Seq<char>)
    ensures
        generic_thumbnails(disk, card) == generic_high_quality(disk, card),
{
}


/// The item of a file is symmetric: asking again for the item of any file
/// returned for `f` returns `f` once more.
pub proof fn lemma_generic_related_round_trip(f: Seq<char>)
    ensures
        generic_related(f) matches Ok(items) ==> forall|i: int|
            0 <= i < items.len() ==> (generic_related(#[trigger] items[i].file_path) matches Ok(
                back,
            ) && exists|j: int| 0 <= j < back.len() && back[j].file_path == f),
{
    if let Ok(items) = generic_related(f) {
        assert forall|i: int| 0 <= i < items.len() implies (generic_related(
            #[trigger] items[i].file_path,
        ) matches Ok(back) && exists|j: int| 0 <= j < back.len() && back[j].file_path == f) by {
            assert(items[i].file_path == f);
            let back = generic_related(f)->Ok_0;
            assert(back[0].file_path == f);
        }
    }
}

} // verus!
