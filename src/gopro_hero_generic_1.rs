//! GoPro Hero style cameras, which lay every file out in the card's top
//! directory and group a recording's files by name.
//!
//! A video file is named `{prefix}{part:02}{media_id}.{ext}`: `GL` marks the
//! low-bitrate preview (`LRV`), `GH` the H.264 recording and its thumbnail,
//! `GX` the H.265 recording, its thumbnail and the audio (`WAV`). A photo is a
//! `JPG`, possibly with a raw `GPR` of the same name.
use vstd::prelude::*;
use vstd::string::*;
use crate::path::{
    lemma_file_name_plain,
    lemma_last_index_absent, lemma_last_index_concat, plain_extension,
    extension_of, file_name, file_name_of, join, join_of, last_index_of, lemma_last_index_bounds,
    parent, parent_of, rfind_char, str_eq, with_extension, with_extension_of,
};
use crate::helpers::{
    is_ascii_char,
    create_part_file, create_simple_file, filter_dir, filter_dir_spec, get_extension_str,
    is_known_missing, known_missing, list_view, maybe_view, media_error, on_disk, part_view,
    presence_of, resolve, simple_maybe, simple_view, items_view, text_view, DirEntry, DirEntryView, EntryRule, ErrorKind, FileItem,
    FileItemView, FileType, ItemType, JsonFileInfoTypes, MediaError, Presence, Snapshot,
};

verus! {

/// The six files a video part may have.
#[derive(Clone, Copy, Debug, PartialEq, Eq, Structural)]
pub enum GoProVideoFileType {
    LowBitrateVideo,
    HighBitrateH265Video,
    HighBitrateH264Video,
    WavAudio,
    ThumbnailPhotoOfH264Video,
    ThumbnailPhotoOfH265Video,
}

/// The two files a photo may have.
#[derive(Clone, Copy, Debug, PartialEq, Eq, Structural)]
pub enum GoProPhotoFileType {
    JpegPhoto,
    RawPhoto,
}

pub open spec fn video_prefix(k: GoProVideoFileType) -> Seq<char> {
    match k {
        GoProVideoFileType::LowBitrateVideo => "GL"@,
        GoProVideoFileType::HighBitrateH264Video => "GH"@,
        GoProVideoFileType::HighBitrateH265Video => "GX"@,
        GoProVideoFileType::WavAudio => "GX"@,
        GoProVideoFileType::ThumbnailPhotoOfH264Video => "GH"@,
        GoProVideoFileType::ThumbnailPhotoOfH265Video => "GX"@,
    }
}

pub open spec fn video_ext(k: GoProVideoFileType) -> Seq<char> {
    match k {
        GoProVideoFileType::LowBitrateVideo => "LRV"@,
        GoProVideoFileType::HighBitrateH264Video => "MP4"@,
        GoProVideoFileType::HighBitrateH265Video => "MP4"@,
        GoProVideoFileType::WavAudio => "WAV"@,
        GoProVideoFileType::ThumbnailPhotoOfH264Video => "THM"@,
        GoProVideoFileType::ThumbnailPhotoOfH265Video => "THM"@,
    }
}

/// The kinds of the files of a video part, by role.
pub open spec fn video_types(k: GoProVideoFileType) -> JsonFileInfoTypes {
    match k {
        GoProVideoFileType::LowBitrateVideo => JsonFileInfoTypes {
            file_type: FileType::FileVideoPreview,
            item_type: ItemType::ItemVideo,
        },
        GoProVideoFileType::HighBitrateH264Video => JsonFileInfoTypes {
            file_type: FileType::FileVideo,
            item_type: ItemType::ItemVideo,
        },
        GoProVideoFileType::HighBitrateH265Video => JsonFileInfoTypes {
            file_type: FileType::FileVideo,
            item_type: ItemType::ItemVideo,
        },
        GoProVideoFileType::WavAudio => JsonFileInfoTypes {
            file_type: FileType::FileAudio,
            item_type: ItemType::ItemVideo,
        },
        GoProVideoFileType::ThumbnailPhotoOfH264Video => JsonFileInfoTypes {
            file_type: FileType::FileImagePreview,
            item_type: ItemType::ItemVideo,
        },
        GoProVideoFileType::ThumbnailPhotoOfH265Video => JsonFileInfoTypes {
            file_type: FileType::FileImagePreview,
            item_type: ItemType::ItemVideo,
        },
    }
}

pub open spec fn photo_ext(k: GoProPhotoFileType) -> Seq<char> {
    match k {
        GoProPhotoFileType::JpegPhoto => "JPG"@,
        GoProPhotoFileType::RawPhoto => "GPR"@,
    }
}

pub open spec fn photo_types(k: GoProPhotoFileType) -> JsonFileInfoTypes {
    match k {
        GoProPhotoFileType::JpegPhoto => JsonFileInfoTypes {
            file_type: FileType::FileImage,
            item_type: ItemType::ItemImage,
        },
        GoProPhotoFileType::RawPhoto => JsonFileInfoTypes {
            file_type: FileType::FileImageRaw,
            item_type: ItemType::ItemImage,
        },
    }
}

pub open spec fn is_digit(c: char) -> bool {
    '0' <= c && c <= '9'
}

pub open spec fn digit_value(c: char) -> int {
    c as int - '0' as int
}

/// The part number that a video file name carries in its third and fourth
/// characters, read as an unsigned decimal (a leading `+` allowed).
pub open spec fn gopro_part_id(name: Seq<char>) -> Option<u8> {
    if name.len() < 4 || !is_ascii_char(name[0]) || !is_ascii_char(name[1]) {
        None
    } else if name[2] == '+' && is_digit(name[3]) {
        Some(digit_value(name[3]) as u8)
    } else if is_digit(name[2]) && is_digit(name[3]) {
        Some((10 * digit_value(name[2]) + digit_value(name[3])) as u8)
    } else {
        None
    }
}

/// A file name up to its last dot.
pub open spec fn stem_before_dot(n: Seq<char>) -> Seq<char> {
    n.subrange(0, last_index_of(n, '.'))
}

/// Why the name of `p` cannot be taken apart as a video file name, if it cannot.
pub open spec fn video_name_error(p: Seq<char>) -> Option<(ErrorKind, Seq<char>)> {
    match file_name_of(p) {
        None => Some((ErrorKind::NoFileName, p)),
        Some(n) => {
            let stem = stem_before_dot(n);
            if last_index_of(n, '.') < 0 {
                Some((ErrorKind::NoExtension, n))
            } else if stem.len() < 5 {
                Some((ErrorKind::NameTooShort, stem))
            } else if !(is_ascii_char(stem[0]) && is_ascii_char(stem[1]) && is_ascii_char(stem[2])
                && is_ascii_char(stem[3])) {
                Some((ErrorKind::BadFileName, stem))
            } else if parent_of(p) is None {
                Some((ErrorKind::NoParent, p))
            } else {
                None
            }
        },
    }
}

pub open spec fn digit_text(d: int) -> Seq<char> {
    if d == 0 {
        "0"@
    } else if d == 1 {
        "1"@
    } else if d == 2 {
        "2"@
    } else if d == 3 {
        "3"@
    } else if d == 4 {
        "4"@
    } else if d == 5 {
        "5"@
    } else if d == 6 {
        "6"@
    } else if d == 7 {
        "7"@
    } else if d == 8 {
        "8"@
    } else {
        "9"@
    }
}

/// A part number in two decimal digits.
pub open spec fn two_digits(n: u8) -> Seq<char> {
    digit_text(n as int / 10) + digit_text(n as int % 10)
}

/// The file of kind `k` of part `part` of the recording that `p` belongs to.
pub open spec fn video_file(p: Seq<char>, part: u8, k: GoProVideoFileType) -> Seq<char> {
    let stem = stem_before_dot(file_name_of(p).unwrap());
    join_of(
        parent_of(p).unwrap(),
        video_prefix(k) + two_digits(part) + stem.subrange(4, stem.len() as int) + "."@
            + video_ext(k),
    )
}

pub open spec fn video_path(p: Seq<char>, part: u8, k: GoProVideoFileType) -> Result<
    Seq<char>,
    (ErrorKind, Seq<char>),
> {
    match video_name_error(p) {
        Some(e) => Err(e),
        None => Ok(video_file(p, part, k)),
    }
}

/// Why the name of `p` cannot be taken apart as a photo file name, if it cannot.
pub open spec fn photo_name_error(p: Seq<char>) -> Option<(ErrorKind, Seq<char>)> {
    match file_name_of(p) {
        None => Some((ErrorKind::NoFileName, p)),
        Some(n) => {
            if last_index_of(n, '.') < 0 {
                Some((ErrorKind::NoExtension, n))
            } else if stem_before_dot(n).len() < 2 {
                Some((ErrorKind::NameTooShort, stem_before_dot(n)))
            } else if parent_of(p) is None {
                Some((ErrorKind::NoParent, p))
            } else {
                None
            }
        },
    }
}

/// The photo file of kind `k` with the same name as `p`.
pub open spec fn photo_path(p: Seq<char>, k: GoProPhotoFileType) -> Result<
    Seq<char>,
    (ErrorKind, Seq<char>),
> {
    match photo_name_error(p) {
        Some(e) => Err(e),
        None => Ok(
            join_of(
                parent_of(p).unwrap(),
                stem_before_dot(file_name_of(p).unwrap()) + "."@ + photo_ext(k),
            ),
        ),
    }
}

fn digit_str(d: u8) -> (r: &'static str)
    requires
        d <= 9,
    ensures
        r@ == digit_text(d as int),
{
    if d == 0 {
        "0"
    } else if d == 1 {
        "1"
    } else if d == 2 {
        "2"
    } else if d == 3 {
        "3"
    } else if d == 4 {
        "4"
    } else if d == 5 {
        "5"
    } else if d == 6 {
        "6"
    } else if d == 7 {
        "7"
    } else if d == 8 {
        "8"
    } else {
        "9"
    }
}

fn video_prefix_str(k: GoProVideoFileType) -> (r: &'static str)
    ensures
        r@ == video_prefix(k),
{
    match k {
        GoProVideoFileType::LowBitrateVideo => "GL",
        GoProVideoFileType::HighBitrateH264Video => "GH",
        GoProVideoFileType::HighBitrateH265Video => "GX",
        GoProVideoFileType::WavAudio => "GX",
        GoProVideoFileType::ThumbnailPhotoOfH264Video => "GH",
        GoProVideoFileType::ThumbnailPhotoOfH265Video => "GX",
    }
}

fn video_ext_str(k: GoProVideoFileType) -> (r: &'static str)
    ensures
        r@ == video_ext(k),
{
    match k {
        GoProVideoFileType::LowBitrateVideo => "LRV",
        GoProVideoFileType::HighBitrateH264Video => "MP4",
        GoProVideoFileType::HighBitrateH265Video => "MP4",
        GoProVideoFileType::WavAudio => "WAV",
        GoProVideoFileType::ThumbnailPhotoOfH264Video => "THM",
        GoProVideoFileType::ThumbnailPhotoOfH265Video => "THM",
    }
}

fn video_types_of(k: GoProVideoFileType) -> (r: JsonFileInfoTypes)
    ensures
        r == video_types(k),
{
    match k {
        GoProVideoFileType::LowBitrateVideo => JsonFileInfoTypes {
            file_type: FileType::FileVideoPreview,
            item_type: ItemType::ItemVideo,
        },
        GoProVideoFileType::HighBitrateH264Video => JsonFileInfoTypes {
            file_type: FileType::FileVideo,
            item_type: ItemType::ItemVideo,
        },
        GoProVideoFileType::HighBitrateH265Video => JsonFileInfoTypes {
            file_type: FileType::FileVideo,
            item_type: ItemType::ItemVideo,
        },
        GoProVideoFileType::WavAudio => JsonFileInfoTypes {
            file_type: FileType::FileAudio,
            item_type: ItemType::ItemVideo,
        },
        GoProVideoFileType::ThumbnailPhotoOfH264Video => JsonFileInfoTypes {
            file_type: FileType::FileImagePreview,
            item_type: ItemType::ItemVideo,
        },
        GoProVideoFileType::ThumbnailPhotoOfH265Video => JsonFileInfoTypes {
            file_type: FileType::FileImagePreview,
            item_type: ItemType::ItemVideo,
        },
    }
}

/// The part number carried by a video file name.
pub fn get_gopro_video_part_id(filename: &str) -> (r: Result<u8, MediaError>)
    ensures
        r matches Ok(id) ==> gopro_part_id(filename@) == Some(id),
        r matches Err(e) ==> gopro_part_id(filename@) is None && e@ == (
            ErrorKind::BadPartId,
            filename@,
        ),
{
    let n = filename.unicode_len();
    if n < 4 {
        return Err(media_error(ErrorKind::BadPartId, filename));
    }
    let c0 = filename.get_char(0);
    let c1 = filename.get_char(1);
    let c2 = filename.get_char(2);
    let c3 = filename.get_char(3);
    if (c0 as u32) >= 128 || (c1 as u32) >= 128 {
        return Err(media_error(ErrorKind::BadPartId, filename));
    }
    if c2 == '+' && '0' <= c3 && c3 <= '9' {
        Ok(((c3 as u32) - ('0' as u32)) as u8)
    } else if '0' <= c2 && c2 <= '9' && '0' <= c3 && c3 <= '9' {
        Ok((10 * ((c2 as u32) - ('0' as u32)) + ((c3 as u32) - ('0' as u32))) as u8)
    } else {
        Err(media_error(ErrorKind::BadPartId, filename))
    }
}


fn photo_ext_str(k: GoProPhotoFileType) -> (r: &'static str)
    ensures
        r@ == photo_ext(k),
{
    match k {
        GoProPhotoFileType::JpegPhoto => "JPG",
        GoProPhotoFileType::RawPhoto => "GPR",
    }
}

fn photo_types_of(k: GoProPhotoFileType) -> (r: JsonFileInfoTypes)
    ensures
        r == photo_types(k),
{
    match k {
        GoProPhotoFileType::JpegPhoto => JsonFileInfoTypes {
            file_type: FileType::FileImage,
            item_type: ItemType::ItemImage,
        },
        GoProPhotoFileType::RawPhoto => JsonFileInfoTypes {
            file_type: FileType::FileImageRaw,
            item_type: ItemType::ItemImage,
        },
    }
}

/// The photo file of kind `file_type` with the same name as `input_file`.
pub fn create_gopro_photo_file(input_file: &str, file_type: GoProPhotoFileType) -> (r: Result<
    String,
    MediaError,
>)
    ensures
        text_view(r) == photo_path(input_file@, file_type),
{
    let name = match file_name(input_file) {
        None => {
            return Err(media_error(ErrorKind::NoFileName, input_file));
        },
        Some(n) => n,
    };
    let d = match rfind_char(name.as_str(), '.') {
        None => {
            return Err(media_error(ErrorKind::NoExtension, name.as_str()));
        },
        Some(d) => d,
    };
    let stem = name.as_str().substring_char(0, d);
    if stem.unicode_len() < 2 {
        return Err(media_error(ErrorKind::NameTooShort, stem));
    }
    let dir = match parent(input_file) {
        None => {
            return Err(media_error(ErrorKind::NoParent, input_file));
        },
        Some(dir) => dir,
    };
    let new_name = String::from_str(stem).concat(".").concat(photo_ext_str(file_type));
    Ok(join(dir.as_str(), new_name.as_str()))
}

/// The file of kind `file_type` of part `part` of the recording that
/// `input_file` belongs to.
pub fn create_gopro_video_file(input_file: &str, part: u8, file_type: GoProVideoFileType) -> (r:
    Result<String, MediaError>)
    requires
        part <= 99,
    ensures
        text_view(r) == video_path(input_file@, part, file_type),
{
    let name = match file_name(input_file) {
        None => {
            return Err(media_error(ErrorKind::NoFileName, input_file));
        },
        Some(n) => n,
    };
    let d = match rfind_char(name.as_str(), '.') {
        None => {
            return Err(media_error(ErrorKind::NoExtension, name.as_str()));
        },
        Some(d) => d,
    };
    let stem = name.as_str().substring_char(0, d);
    let len = stem.unicode_len();
    if len < 5 {
        return Err(media_error(ErrorKind::NameTooShort, stem));
    }
    if (stem.get_char(0) as u32) >= 128 || (stem.get_char(1) as u32) >= 128 || (stem.get_char(2)
        as u32) >= 128 || (stem.get_char(3) as u32) >= 128 {
        return Err(media_error(ErrorKind::BadFileName, stem));
    }
    let media_id = stem.substring_char(4, len);
    let dir = match parent(input_file) {
        None => {
            return Err(media_error(ErrorKind::NoParent, input_file));
        },
        Some(dir) => dir,
    };
    let digits = String::from_str(digit_str(part / 10)).concat(digit_str(part % 10));
    let new_name = String::from_str(video_prefix_str(file_type)).concat(digits.as_str()).concat(
        media_id,
    ).concat(".").concat(video_ext_str(file_type));
    Ok(join(dir.as_str(), new_name.as_str()))
}

/// How many parts of a recording there are.
#[derive(Clone, Copy, Debug, PartialEq, Eq)]
pub struct PartCount {
    /// Parts with a file on disk.
    pub existing_parts_count: u8,
    /// Parts with a file on disk or declared missing.
    pub all_parts_count: u8,
}

/// Whether part `part` of the recording of `p` has a high-bitrate file on
/// disk, has one declared missing, or has neither.
pub open spec fn part_state(disk: Snapshot, km: Seq<String>, p: Seq<char>, part: u8) -> Presence {
    let h264 = video_file(p, part, GoProVideoFileType::HighBitrateH264Video);
    let h265 = video_file(p, part, GoProVideoFileType::HighBitrateH265Video);
    if on_disk(disk, h264) || on_disk(disk, h265) {
        Presence::Present
    } else if known_missing(km, h264) || known_missing(km, h265) {
        Presence::KnownMissing
    } else {
        Presence::Absent
    }
}

/// The (existing, all) parts counted from part `part` on, up to the first
/// part that is neither on disk nor declared missing, and at most to part 99.
pub open spec fn parts_from(disk: Snapshot, km: Seq<String>, p: Seq<char>, part: int) -> (int, int)
    decreases 100 - part,
{
    if part < 1 || part > 99 {
        (0, 0)
    } else {
        let rest = parts_from(disk, km, p, part + 1);
        match part_state(disk, km, p, part as u8) {
            Presence::Absent => (0, 0),
            Presence::KnownMissing => (rest.0, rest.1 + 1),
            Presence::Present => (rest.0 + 1, rest.1 + 1),
        }
    }
}

/// The part counts of the recording of `p`; its first part must be on disk or
/// declared missing.
pub open spec fn count_parts(disk: Snapshot, km: Seq<String>, p: Seq<char>) -> Result<
    (int, int),
    (ErrorKind, Seq<char>),
> {
    match video_name_error(p) {
        Some(e) => Err(e),
        None => if part_state(disk, km, p, 1) == Presence::Absent {
            Err(
                (
                    ErrorKind::InitialPartMissing,
                    video_file(p, 1, GoProVideoFileType::HighBitrateH264Video),
                ),
            )
        } else {
            Ok(parts_from(disk, km, p, 1))
        },
    }
}

pub proof fn lemma_parts_bounds(disk: Snapshot, km: Seq<String>, p: Seq<char>, part: int)
    requires
        1 <= part <= 100,
    ensures
        0 <= parts_from(disk, km, p, part).0 <= parts_from(disk, km, p, part).1 <= 100 - part,
    decreases 100 - part,
{
    if part <= 99 {
        lemma_parts_bounds(disk, km, p, part + 1);
    }
}

/// Counts the parts of the recording that `base_file` belongs to: from part 1
/// on, each part with an H.264 or H.265 file on disk counts as existing, one
/// with either declared missing counts in the total only, and the first part
/// with neither ends the count.
pub fn count_gopro_parts(base_file: &str, known_missing_files: &Vec<String>, disk: &Snapshot) -> (r:
    Result<PartCount, MediaError>)
    ensures
        match count_parts(*disk, known_missing_files@, base_file@) {
            Ok(c) => r matches Ok(pc) && pc.existing_parts_count == c.0 && pc.all_parts_count
                == c.1,
            Err(e) => r matches Err(x) && x@ == e,
        },
{
    let ghost km = known_missing_files@;
    let mut existing: u8 = 0;
    let mut all: u8 = 0;
    let mut part: u8 = 1;
    let mut done = false;
    while part <= 99 && !done
        invariant
            1 <= part <= 100,
            part > 1 ==> video_name_error(base_file@) is None,
            part > 1 ==> part_state(*disk, km, base_file@, 1) != Presence::Absent,
            all == part - 1,
            existing <= all,
            km == known_missing_files@,
            done ==> parts_from(*disk, km, base_file@, part as int) == (0int, 0int) && part > 1,
            parts_from(*disk, km, base_file@, 1).0 == existing + parts_from(
                *disk,
                km,
                base_file@,
                part as int,
            ).0,
            parts_from(*disk, km, base_file@, 1).1 == all + parts_from(
                *disk,
                km,
                base_file@,
                part as int,
            ).1,
        decreases (100 - part) * 2 + (if done { 0int } else { 1int }),
    {
        let file_h265 = match create_gopro_video_file(
            base_file,
            part,
            GoProVideoFileType::HighBitrateH265Video,
        ) {
            Ok(f) => f,
            Err(e) => {
                return Err(e);
            },
        };
        let file_h264 = match create_gopro_video_file(
            base_file,
            part,
            GoProVideoFileType::HighBitrateH264Video,
        ) {
            Ok(f) => f,
            Err(e) => {
                return Err(e);
            },
        };
        if disk.contains(file_h264.as_str()) || disk.contains(file_h265.as_str()) {
            existing = existing + 1;
            all = all + 1;
            part = part + 1;
        } else if is_known_missing(known_missing_files, file_h264.as_str()) || is_known_missing(
            known_missing_files,
            file_h265.as_str(),
        ) {
            all = all + 1;
            part = part + 1;
        } else if part == 1 {
            return Err(media_error(ErrorKind::InitialPartMissing, file_h264.as_str()));
        } else {
            done = true;
        }
    }
    assert(parts_from(*disk, km, base_file@, part as int) == (0int, 0int));
    Ok(PartCount { existing_parts_count: existing, all_parts_count: all })
}


/// The kinds under which a thumbnail stands for its video in a listing: a
/// single-file record is never one of a video item.
pub open spec fn listed_thumbnail_types() -> JsonFileInfoTypes {
    JsonFileInfoTypes { file_type: FileType::FileImagePreview, item_type: ItemType::ItemImage }
}

/// Every part before `id` has its low-bitrate preview declared missing.
pub open spec fn earlier_previews_missing(km: Seq<String>, p: Seq<char>, id: u8) -> bool {
    forall|n: u8|
        1 <= n < id ==> known_missing(
            km,
            #[trigger] video_file(p, n, GoProVideoFileType::LowBitrateVideo),
        )
}

/// Every part before `id` has its H.264 or its H.265 recording declared missing.
pub open spec fn earlier_recordings_missing(km: Seq<String>, p: Seq<char>, id: u8) -> bool {
    forall|n: u8|
        1 <= n < id ==> known_missing(
            km,
            #[trigger] video_file(p, n, GoProVideoFileType::HighBitrateH264Video),
        ) || known_missing(km, video_file(p, n, GoProVideoFileType::HighBitrateH265Video))
}

/// What the thumbnail listing makes of one file of the card.
pub open spec fn gopro_thumbnail_rule(disk: Snapshot, km: Seq<String>, e: DirEntryView) -> Result<
    Option<FileItemView>,
    (ErrorKind, Seq<char>),
> {
    match e.ext {
        None => Err((ErrorKind::NoExtension, e.path)),
        Some(x) => if x == "THM"@ {
            match gopro_part_id(e.file_name) {
                None => Err((ErrorKind::BadPartId, e.file_name)),
                Some(id) => if id > 1 && video_name_error(e.path) is Some {
                    Err(video_name_error(e.path).unwrap())
                } else if id > 1 && !earlier_previews_missing(km, e.path, id) {
                    Ok(None)
                } else {
                    simple_maybe(
                        e.path,
                        listed_thumbnail_types(),
                        Some(with_extension_of(e.path, "MP4"@)),
                    )
                },
            }
        } else if x == "JPG"@ {
            simple_maybe(e.path, photo_types(GoProPhotoFileType::JpegPhoto), None)
        } else if x == "MP4"@ || x == "GPR"@ || x == "LRV"@ || x == "WAV"@ {
            Ok(None)
        } else {
            Err((ErrorKind::UnexpectedFile, e.path))
        },
    }
}

/// What the high-quality listing makes of one file of the card.
pub open spec fn gopro_high_quality_rule(
    disk: Snapshot,
    km: Seq<String>,
    e: DirEntryView,
) -> Result<Option<FileItemView>, (ErrorKind, Seq<char>)> {
    match e.ext {
        None => Err((ErrorKind::NoExtension, e.path)),
        Some(x) => if x == "MP4"@ {
            match gopro_part_id(e.file_name) {
                None => Err((ErrorKind::BadPartId, e.file_name)),
                Some(id) => if id > 1 && video_name_error(e.path) is Some {
                    Err(video_name_error(e.path).unwrap())
                } else if id > 1 && !earlier_recordings_missing(km, e.path, id) {
                    Ok(None)
                } else {
                    match count_parts(disk, km, e.path) {
                        Err(er) => Err(er),
                        Ok(c) => Ok(
                            Some(
                                part_view(
                                    e.path,
                                    video_types(GoProVideoFileType::HighBitrateH264Video),
                                    c.0 as u8,
                                    1,
                                    Some(e.path),
                                ),
                            ),
                        ),
                    }
                },
            }
        } else if x == "GPR"@ {
            simple_maybe(e.path, photo_types(GoProPhotoFileType::RawPhoto), None)
        } else if x == "JPG"@ {
            match photo_path(e.path, GoProPhotoFileType::RawPhoto) {
                Err(er) => Err(er),
                Ok(raw) => if on_disk(disk, raw) {
                    Ok(None)
                } else {
                    simple_maybe(e.path, photo_types(GoProPhotoFileType::JpegPhoto), None)
                },
            }
        } else if x == "THM"@ || x == "LRV"@ || x == "WAV"@ {
            Ok(None)
        } else {
            Err((ErrorKind::UnexpectedFile, e.path))
        },
    }
}

pub open spec fn gopro_thumbnail_rules(disk: Snapshot, km: Seq<String>) -> EntryRule {
    |e: DirEntryView| gopro_thumbnail_rule(disk, km, e)
}

pub open spec fn gopro_high_quality_rules(disk: Snapshot, km: Seq<String>) -> EntryRule {
    |e: DirEntryView| gopro_high_quality_rule(disk, km, e)
}

/// Whether every part before `id` has its preview declared missing.
fn previews_before_missing(km: &Vec<String>, path: &str, id: u8) -> (r: Result<bool, MediaError>)
    requires
        id <= 99,
    ensures
        id > 1 && video_name_error(path@) is Some ==> (r matches Err(e) && Some(e@)
            == video_name_error(path@)),
        !(id > 1 && video_name_error(path@) is Some) ==> r == Ok::<bool, MediaError>(
            earlier_previews_missing(km@, path@, id),
        ),
{
    let mut n: u8 = 1;
    while n < id
        invariant
            1 <= n,
            id <= 99,
            n > 1 ==> video_name_error(path@) is None,
            forall|q: u8|
                1 <= q < n ==> known_missing(
                    km@,
                    #[trigger] video_file(path@, q, GoProVideoFileType::LowBitrateVideo),
                ),
        decreases id - n,
    {
        let f = match create_gopro_video_file(path, n, GoProVideoFileType::LowBitrateVideo) {
            Ok(f) => f,
            Err(e) => {
                return Err(e);
            },
        };
        if !is_known_missing(km, f.as_str()) {
            return Ok(false);
        }
        n = n + 1;
    }
    Ok(true)
}

/// Whether every part before `id` has its H.264 or H.265 recording declared missing.
fn recordings_before_missing(km: &Vec<String>, path: &str, id: u8) -> (r: Result<
    bool,
    MediaError,
>)
    requires
        id <= 99,
    ensures
        id > 1 && video_name_error(path@) is Some ==> (r matches Err(e) && Some(e@)
            == video_name_error(path@)),
        !(id > 1 && video_name_error(path@) is Some) ==> r == Ok::<bool, MediaError>(
            earlier_recordings_missing(km@, path@, id),
        ),
{
    let mut n: u8 = 1;
    while n < id
        invariant
            1 <= n,
            id <= 99,
            n > 1 ==> video_name_error(path@) is None,
            forall|q: u8|
                1 <= q < n ==> known_missing(
                    km@,
                    #[trigger] video_file(path@, q, GoProVideoFileType::HighBitrateH264Video),
                ) || known_missing(
                    km@,
                    video_file(path@, q, GoProVideoFileType::HighBitrateH265Video),
                ),
        decreases id - n,
    {
        let h264 = match create_gopro_video_file(
            path,
            n,
            GoProVideoFileType::HighBitrateH264Video,
        ) {
            Ok(f) => f,
            Err(e) => {
                return Err(e);
            },
        };
        let h265 = match create_gopro_video_file(
            path,
            n,
            GoProVideoFileType::HighBitrateH265Video,
        ) {
            Ok(f) => f,
            Err(e) => {
                return Err(e);
            },
        };
        if !is_known_missing(km, h264.as_str()) && !is_known_missing(km, h265.as_str()) {
            return Ok(false);
        }
        n = n + 1;
    }
    Ok(true)
}

fn thumbnail_entry(disk: &Snapshot, km: &Vec<String>, e: &DirEntry) -> (r: Result<
    Option<FileItem>,
    MediaError,
>)
    ensures
        maybe_view(r) == gopro_thumbnail_rule(*disk, km@, e@),
{
    let ext = match &e.ext {
        None => {
            return Err(media_error(ErrorKind::NoExtension, e.path.as_str()));
        },
        Some(x) => x.as_str(),
    };
    if str_eq(ext, "THM") {
        let part_id = match get_gopro_video_part_id(e.file_name.as_str()) {
            Ok(id) => id,
            Err(er) => {
                return Err(er);
            },
        };
        if part_id > 1 {
            match previews_before_missing(km, e.path.as_str(), part_id) {
                Err(er) => {
                    return Err(er);
                },
                Ok(false) => {
                    return Ok(None);
                },
                Ok(true) => {},
            }
        }
        let types = JsonFileInfoTypes {
            file_type: FileType::FileImagePreview,
            item_type: ItemType::ItemImage,
        };
        let meta = with_extension(e.path.as_str(), "MP4");
        match create_simple_file(e.path.clone(), types, Some(meta)) {
            Ok(item) => Ok(Some(item)),
            Err(er) => Err(er),
        }
    } else if str_eq(ext, "JPG") {
        match create_simple_file(
            e.path.clone(),
            photo_types_of(GoProPhotoFileType::JpegPhoto),
            None,
        ) {
            Ok(item) => Ok(Some(item)),
            Err(er) => Err(er),
        }
    } else if str_eq(ext, "MP4") || str_eq(ext, "GPR") || str_eq(ext, "LRV") || str_eq(ext, "WAV") {
        Ok(None)
    } else {
        Err(media_error(ErrorKind::UnexpectedFile, e.path.as_str()))
    }
}


fn high_quality_entry(disk: &Snapshot, km: &Vec<String>, e: &DirEntry) -> (r: Result<
    Option<FileItem>,
    MediaError,
>)
    ensures
        maybe_view(r) == gopro_high_quality_rule(*disk, km@, e@),
{
    let ext = match &e.ext {
        None => {
            return Err(media_error(ErrorKind::NoExtension, e.path.as_str()));
        },
        Some(x) => x.as_str(),
    };
    if str_eq(ext, "MP4") {
        let part_id = match get_gopro_video_part_id(e.file_name.as_str()) {
            Ok(id) => id,
            Err(er) => {
                return Err(er);
            },
        };
        if part_id > 1 {
            match recordings_before_missing(km, e.path.as_str(), part_id) {
                Err(er) => {
                    return Err(er);
                },
                Ok(false) => {
                    return Ok(None);
                },
                Ok(true) => {},
            }
        }
        let part_count = match count_gopro_parts(e.path.as_str(), km, disk) {
            Ok(c) => c,
            Err(er) => {
                return Err(er);
            },
        };
        Ok(
            Some(
                create_part_file(
                    e.path.clone(),
                    video_types_of(GoProVideoFileType::HighBitrateH264Video),
                    part_count.existing_parts_count,
                    1,
                    Some(e.path.clone()),
                ),
            ),
        )
    } else if str_eq(ext, "GPR") || str_eq(ext, "JPG") {
        let is_raw = str_eq(ext, "GPR");
        if !is_raw {
            let raw = match create_gopro_photo_file(e.path.as_str(), GoProPhotoFileType::RawPhoto) {
                Ok(f) => f,
                Err(er) => {
                    return Err(er);
                },
            };
            if disk.contains(raw.as_str()) {
                return Ok(None);
            }
        }
        let types = if is_raw {
            photo_types_of(GoProPhotoFileType::RawPhoto)
        } else {
            photo_types_of(GoProPhotoFileType::JpegPhoto)
        };
        match create_simple_file(e.path.clone(), types, None) {
            Ok(item) => Ok(Some(item)),
            Err(er) => Err(er),
        }
    } else if str_eq(ext, "THM") || str_eq(ext, "LRV") || str_eq(ext, "WAV") {
        Ok(None)
    } else {
        Err(media_error(ErrorKind::UnexpectedFile, e.path.as_str()))
    }
}

/// The record of the file of kind `k` of a part, where it is on disk.
pub open spec fn kind_item(
    disk: Snapshot,
    p: Seq<char>,
    part: u8,
    k: GoProVideoFileType,
    count: u8,
    num: u8,
) -> Seq<FileItemView> {
    let f = video_file(p, part, k);
    if on_disk(disk, f) {
        seq![part_view(f, video_types(k), count, num, None)]
    } else {
        seq![]
    }
}

/// The records of the files of one part that are on disk, in a fixed order of kinds.
pub open spec fn part_items(
    disk: Snapshot,
    p: Seq<char>,
    part: u8,
    count: u8,
    num: u8,
) -> Seq<FileItemView> {
    kind_item(disk, p, part, GoProVideoFileType::HighBitrateH264Video, count, num) + kind_item(
        disk,
        p,
        part,
        GoProVideoFileType::HighBitrateH265Video,
        count,
        num,
    ) + kind_item(disk, p, part, GoProVideoFileType::LowBitrateVideo, count, num) + kind_item(
        disk,
        p,
        part,
        GoProVideoFileType::ThumbnailPhotoOfH265Video,
        count,
        num,
    ) + kind_item(disk, p, part, GoProVideoFileType::ThumbnailPhotoOfH264Video, count, num)
        + kind_item(disk, p, part, GoProVideoFileType::WavAudio, count, num)
}

/// The file of kind `k` of a part is on disk or declared missing.
pub open spec fn accounted(
    disk: Snapshot,
    km: Seq<String>,
    p: Seq<char>,
    part: u8,
    k: GoProVideoFileType,
) -> bool {
    presence_of(disk, km, video_file(p, part, k)) != Presence::Absent
}

/// The rule a part breaks, if any: exactly one of the two recordings, exactly
/// one of the two thumbnails, and the preview must be accounted for.
pub open spec fn part_error(disk: Snapshot, km: Seq<String>, p: Seq<char>, part: u8) -> Option<
    (ErrorKind, Seq<char>),
> {
    if accounted(disk, km, p, part, GoProVideoFileType::HighBitrateH264Video) == accounted(
        disk,
        km,
        p,
        part,
        GoProVideoFileType::HighBitrateH265Video,
    ) {
        Some(
            (
                ErrorKind::VideoCodecConflict,
                video_file(p, part, GoProVideoFileType::HighBitrateH264Video),
            ),
        )
    } else if accounted(disk, km, p, part, GoProVideoFileType::ThumbnailPhotoOfH264Video)
        == accounted(disk, km, p, part, GoProVideoFileType::ThumbnailPhotoOfH265Video) {
        Some(
            (
                ErrorKind::ThumbnailCodecConflict,
                video_file(p, part, GoProVideoFileType::ThumbnailPhotoOfH264Video),
            ),
        )
    } else if !accounted(disk, km, p, part, GoProVideoFileType::LowBitrateVideo) {
        Some(
            (ErrorKind::MissingPreview, video_file(p, part, GoProVideoFileType::LowBitrateVideo)),
        )
    } else {
        None
    }
}

/// The records of parts `part..=all`, numbered from `num` on; a part with no
/// file on disk takes no number.
pub open spec fn related_parts(
    disk: Snapshot,
    km: Seq<String>,
    p: Seq<char>,
    count: u8,
    part: int,
    all: int,
    num: u8,
) -> Result<Seq<FileItemView>, (ErrorKind, Seq<char>)>
    decreases all + 1 - part,
{
    if part < 1 || part > all || part > 99 {
        Ok(seq![])
    } else {
        match part_error(disk, km, p, part as u8) {
            Some(e) => Err(e),
            None => {
                let items = part_items(disk, p, part as u8, count, num);
                let next = if items.len() > 0 {
                    (num + 1) as u8
                } else {
                    num
                };
                match related_parts(disk, km, p, count, part + 1, all, next) {
                    Err(e) => Err(e),
                    Ok(rest) => Ok(items + rest),
                }
            },
        }
    }
}

/// The files of the recording of `p`, or of the photo `p`.
pub open spec fn gopro_related(disk: Snapshot, km: Seq<String>, p: Seq<char>) -> Result<
    Seq<FileItemView>,
    (ErrorKind, Seq<char>),
> {
    match extension_of(p) {
        None => Err((ErrorKind::NoExtension, p)),
        Some(x) => if x == "THM"@ || x == "MP4"@ || x == "WAV"@ || x == "LRV"@ {
            match count_parts(disk, km, p) {
                Err(e) => Err(e),
                Ok(c) => related_parts(disk, km, p, c.0 as u8, 1, c.1, 1),
            }
        } else if x == "JPG"@ || x == "GPR"@ {
            match photo_name_error(p) {
                Some(e) => Err(e),
                None => Ok(
                    photo_item(disk, p, GoProPhotoFileType::JpegPhoto) + photo_item(
                        disk,
                        p,
                        GoProPhotoFileType::RawPhoto,
                    ),
                ),
            }
        } else {
            Err((ErrorKind::UnexpectedFile, p))
        },
    }
}

/// The record of the photo file of kind `k` named as `p`, where it is on disk.
pub open spec fn photo_item(disk: Snapshot, p: Seq<char>, k: GoProPhotoFileType) -> Seq<
    FileItemView,
> {
    match photo_path(p, k) {
        Ok(f) => if on_disk(disk, f) {
            seq![simple_view(f, photo_types(k), None)]
        } else {
            seq![]
        },
        Err(_) => seq![],
    }
}

/// Adds the record of the file of kind `k` of a part, where it is on disk, and
/// says whether that file is accounted for.
fn add_kind_file(
    disk: &Snapshot,
    km: &Vec<String>,
    p: &str,
    part: u8,
    k: GoProVideoFileType,
    count: u8,
    num: u8,
    items: &mut Vec<FileItem>,
) -> (r: bool)
    requires
        1 <= part <= 99,
        video_name_error(p@) is None,
    ensures
        items_view(final(items)@) == items_view(old(items)@) + kind_item(
            *disk,
            p@,
            part,
            k,
            count,
            num,
        ),
        r == accounted(*disk, km@, p@, part, k),
{
    let ghost before = items@;
    let file = match create_gopro_video_file(p, part, k) {
        Ok(f) => f,
        // the name of `p` was checked by the caller
        Err(_) => {
            return false;
        },
    };
    match resolve(disk, km, file.as_str()) {
        Presence::Present => {
            items.push(create_part_file(file, video_types_of(k), count, num, None));
            assert(items_view(items@) == items_view(before) + kind_item(
                *disk,
                p@,
                part,
                k,
                count,
                num,
            ));
            true
        },
        Presence::KnownMissing => {
            assert(items_view(items@) == items_view(before) + kind_item(
                *disk,
                p@,
                part,
                k,
                count,
                num,
            ));
            true
        },
        Presence::Absent => {
            assert(items_view(items@) == items_view(before) + kind_item(
                *disk,
                p@,
                part,
                k,
                count,
                num,
            ));
            false
        },
    }
}


/// The records of the files of one part, checked against the rules of a part.
fn part_files(
    disk: &Snapshot,
    km: &Vec<String>,
    p: &str,
    part: u8,
    count: u8,
    num: u8,
) -> (r: Result<Vec<FileItem>, MediaError>)
    requires
        1 <= part <= 99,
        video_name_error(p@) is None,
    ensures
        list_view(r) == match part_error(*disk, km@, p@, part) {
            Some(e) => Err(e),
            None => Ok(part_items(*disk, p@, part, count, num)),
        },
{
    let mut items: Vec<FileItem> = Vec::new();
    assert(items_view(items@) == Seq::<FileItemView>::empty());
    let h264 = add_kind_file(
        disk,
        km,
        p,
        part,
        GoProVideoFileType::HighBitrateH264Video,
        count,
        num,
        &mut items,
    );
    let h265 = add_kind_file(
        disk,
        km,
        p,
        part,
        GoProVideoFileType::HighBitrateH265Video,
        count,
        num,
        &mut items,
    );
    let lrv = add_kind_file(
        disk,
        km,
        p,
        part,
        GoProVideoFileType::LowBitrateVideo,
        count,
        num,
        &mut items,
    );
    let thm265 = add_kind_file(
        disk,
        km,
        p,
        part,
        GoProVideoFileType::ThumbnailPhotoOfH265Video,
        count,
        num,
        &mut items,
    );
    let thm264 = add_kind_file(
        disk,
        km,
        p,
        part,
        GoProVideoFileType::ThumbnailPhotoOfH264Video,
        count,
        num,
        &mut items,
    );
    add_kind_file(disk, km, p, part, GoProVideoFileType::WavAudio, count, num, &mut items);
    assert(items_view(items@) =~= part_items(*disk, p@, part, count, num));
    if h264 == h265 {
        let f = match create_gopro_video_file(p, part, GoProVideoFileType::HighBitrateH264Video) {
            Ok(f) => f,
            Err(e) => {
                return Err(e);
            },
        };
        return Err(media_error(ErrorKind::VideoCodecConflict, f.as_str()));
    }
    if thm264 == thm265 {
        let f = match create_gopro_video_file(
            p,
            part,
            GoProVideoFileType::ThumbnailPhotoOfH264Video,
        ) {
            Ok(f) => f,
            Err(e) => {
                return Err(e);
            },
        };
        return Err(media_error(ErrorKind::ThumbnailCodecConflict, f.as_str()));
    }
    if !lrv {
        let f = match create_gopro_video_file(p, part, GoProVideoFileType::LowBitrateVideo) {
            Ok(f) => f,
            Err(e) => {
                return Err(e);
            },
        };
        return Err(media_error(ErrorKind::MissingPreview, f.as_str()));
    }
    Ok(items)
}

/// The files of every part of the recording that `p` belongs to.
fn related_video_files(disk: &Snapshot, km: &Vec<String>, p: &str) -> (r: Result<
    Vec<FileItem>,
    MediaError,
>)
    ensures
        list_view(r) == match count_parts(*disk, km@, p@) {
            Err(e) => Err(e),
            Ok(c) => related_parts(*disk, km@, p@, c.0 as u8, 1, c.1, 1),
        },
{
    let part_count = match count_gopro_parts(p, km, disk) {
        Ok(c) => c,
        Err(e) => {
            return Err(e);
        },
    };
    proof {
        lemma_parts_bounds(*disk, km@, p@, 1);
    }
    let count = part_count.existing_parts_count;
    let all = part_count.all_parts_count;
    let ghost whole = related_parts(*disk, km@, p@, count, 1, all as int, 1);
    let mut items: Vec<FileItem> = Vec::new();
    let mut num: u8 = 1;
    let mut part: u8 = 1;
    assert(items_view(items@) == Seq::<FileItemView>::empty());
    assert(whole == match related_parts(*disk, km@, p@, count, 1, all as int, 1) {
        Err(e) => Err(e),
        Ok(rest) => Ok(items_view(items@) + rest),
    }) by {
        match related_parts(*disk, km@, p@, count, 1, all as int, 1) {
            Err(e) => {},
            Ok(rest) => {
                assert(items_view(items@) + rest =~= rest);
            },
        }
    }
    while part <= all
        invariant
            1 <= part <= all + 1,
            all <= 99,
            1 <= num <= part,
            video_name_error(p@) is None,
            whole == related_parts(*disk, km@, p@, count, 1, all as int, 1),
            count_parts(*disk, km@, p@) == Ok::<(int, int), (ErrorKind, Seq<char>)>(
                (count as int, all as int),
            ),
            whole == match related_parts(*disk, km@, p@, count, part as int, all as int, num) {
                Err(e) => Err(e),
                Ok(rest) => Ok(items_view(items@) + rest),
            },
        decreases all + 1 - part,
    {
        let mut files = match part_files(disk, km, p, part, count, num) {
            Ok(v) => v,
            Err(e) => {
                assert(related_parts(*disk, km@, p@, count, part as int, all as int, num) == Err::<
                    Seq<FileItemView>,
                    (ErrorKind, Seq<char>),
                >(e@));
                return Err(e);
            },
        };
        let ghost before = items@;
        let ghost num_before = num;
        let emitted = files.len() > 0;
        assert(items_view(files@).len() == files@.len());
        items.append(&mut files);
        assert(items_view(items@) =~= items_view(before) + part_items(
            *disk,
            p@,
            part,
            count,
            num,
        ));
        if emitted {
            num = num + 1;
        }
        proof {
            match related_parts(*disk, km@, p@, count, part + 1, all as int, num) {
                Err(e) => {},
                Ok(rest) => {
                    assert(items_view(before) + (part_items(*disk, p@, part, count, num_before) + rest)
                        =~= items_view(items@) + rest);
                },
            }
        }
        part = part + 1;
    }
    assert(related_parts(*disk, km@, p@, count, part as int, all as int, num) == Ok::<
        Seq<FileItemView>,
        (ErrorKind, Seq<char>),
    >(Seq::empty()));
    assert(items_view(items@) + Seq::<FileItemView>::empty() =~= items_view(items@));
    Ok(items)
}


/// The files of the photo `p`: its JPEG and its raw file, where on disk.
fn related_photo_files(disk: &Snapshot, p: &str) -> (r: Result<Vec<FileItem>, MediaError>)
    ensures
        list_view(r) == match photo_name_error(p@) {
            Some(e) => Err(e),
            None => Ok(
                photo_item(*disk, p@, GoProPhotoFileType::JpegPhoto) + photo_item(
                    *disk,
                    p@,
                    GoProPhotoFileType::RawPhoto,
                ),
            ),
        },
{
    let mut items: Vec<FileItem> = Vec::new();
    let jpg = match create_gopro_photo_file(p, GoProPhotoFileType::JpegPhoto) {
        Ok(f) => f,
        Err(e) => {
            return Err(e);
        },
    };
    let raw = match create_gopro_photo_file(p, GoProPhotoFileType::RawPhoto) {
        Ok(f) => f,
        Err(e) => {
            return Err(e);
        },
    };
    if disk.contains(jpg.as_str()) {
        match create_simple_file(jpg, photo_types_of(GoProPhotoFileType::JpegPhoto), None) {
            Ok(item) => items.push(item),
            Err(e) => {
                return Err(e);
            },
        }
    }
    let ghost mid = items@;
    if disk.contains(raw.as_str()) {
        match create_simple_file(raw, photo_types_of(GoProPhotoFileType::RawPhoto), None) {
            Ok(item) => items.push(item),
            Err(e) => {
                return Err(e);
            },
        }
    }
    assert(items_view(mid) =~= photo_item(*disk, p@, GoProPhotoFileType::JpegPhoto));
    assert(items_view(items@) =~= photo_item(*disk, p@, GoProPhotoFileType::JpegPhoto)
        + photo_item(*disk, p@, GoProPhotoFileType::RawPhoto));
    Ok(items)
}

/// The handler of GoPro Hero style cameras.
pub struct GoProInterface;

impl GoProInterface {
    /// One record per item at the lowest fidelity: the thumbnail of the first
    /// part of each video that still has its preview (earlier parts whose
    /// previews are declared missing are passed over), and each JPEG photo.
    pub fn list_thumbnail(
        &self,
        _source_media_location: &str,
        source_media_card: &str,
        known_missing_files: &Vec<String>,
        disk: &Snapshot,
    ) -> (r: Result<Vec<FileItem>, MediaError>)
        ensures
            list_view(r) == filter_dir_spec(
                *disk,
                source_media_card@,
                gopro_thumbnail_rules(*disk, known_missing_files@),
            ),
    {
        let ghost rule = gopro_thumbnail_rules(*disk, known_missing_files@);
        filter_dir(
            disk,
            source_media_card,
            (|e: &DirEntry| -> (r: Result<Option<FileItem>, MediaError>)
                ensures
                    maybe_view(r) == rule(e@),
                { thumbnail_entry(disk, known_missing_files, e) }),
            Ghost(rule),
        )
    }

    /// One record per item at the highest fidelity: the first recorded part of
    /// each video, with the number of parts on disk, and each photo, raw where
    /// there is a raw file.
    pub fn list_high_quality(
        &self,
        _source_media_location: &str,
        source_media_card: &str,
        known_missing_files: &Vec<String>,
        disk: &Snapshot,
    ) -> (r: Result<Vec<FileItem>, MediaError>)
        ensures
            list_view(r) == filter_dir_spec(
                *disk,
                source_media_card@,
                gopro_high_quality_rules(*disk, known_missing_files@),
            ),
    {
        let ghost rule = gopro_high_quality_rules(*disk, known_missing_files@);
        filter_dir(
            disk,
            source_media_card,
            (|e: &DirEntry| -> (r: Result<Option<FileItem>, MediaError>)
                ensures
                    maybe_view(r) == rule(e@),
                { high_quality_entry(disk, known_missing_files, e) }),
            Ghost(rule),
        )
    }

    /// Every file of the item that `source_media_file` belongs to.
    pub fn get_related(
        &self,
        _source_media_location: &str,
        source_media_file: &str,
        known_missing_files: &Vec<String>,
        disk: &Snapshot,
    ) -> (r: Result<Vec<FileItem>, MediaError>)
        ensures
            list_view(r) == gopro_related(*disk, known_missing_files@, source_media_file@),
    {
        let ext = match get_extension_str(source_media_file) {
            Ok(x) => x,
            Err(e) => {
                return Err(e);
            },
        };
        let x = ext.as_str();
        if str_eq(x, "THM") || str_eq(x, "MP4") || str_eq(x, "WAV") || str_eq(x, "LRV") {
            related_video_files(disk, known_missing_files, source_media_file)
        } else if str_eq(x, "JPG") || str_eq(x, "GPR") {
            related_photo_files(disk, source_media_file)
        } else {
            Err(media_error(ErrorKind::UnexpectedFile, source_media_file))
        }
    }

    /// The name under which this handler is configured.
    pub fn name(&self) -> (r: &'static str)
        ensures
            r@ == "GoPro-Hero-Generic-1"@,
    {
        "GoPro-Hero-Generic-1"
    }
}


/// A recording whose first part has both an H.264 and an H.265 file on disk
/// breaks the rule of one codec per part: gathering its files fails.
pub proof fn lemma_both_codecs_fail(disk: Snapshot, km: Seq<String>, p: Seq<char>)
    requires
        video_name_error(p) is None,
        extension_of(p) matches Some(x) && (x == "THM"@ || x == "MP4"@ || x == "WAV"@ || x
            == "LRV"@),
        on_disk(disk, video_file(p, 1, GoProVideoFileType::HighBitrateH264Video)),
        on_disk(disk, video_file(p, 1, GoProVideoFileType::HighBitrateH265Video)),
    ensures
        gopro_related(disk, km, p) == Err::<Seq<FileItemView>, (ErrorKind, Seq<char>)>(
            (
                ErrorKind::VideoCodecConflict,
                video_file(p, 1, GoProVideoFileType::HighBitrateH264Video),
            ),
        ),
{
    let c = parts_from(disk, km, p, 1);
    lemma_parts_bounds(disk, km, p, 2);
    assert(count_parts(disk, km, p) == Ok::<(int, int), (ErrorKind, Seq<char>)>(c));
    assert(c.1 >= 1);
    assert(part_error(disk, km, p, 1) == Some(
        (
            ErrorKind::VideoCodecConflict,
            video_file(p, 1, GoProVideoFileType::HighBitrateH264Video),
        ),
    ));
}


proof fn lemma_name_literals()
    ensures
        forall|k: GoProVideoFileType|
            #![trigger video_prefix(k)]
            video_prefix(k).len() == 2 && is_ascii_char(video_prefix(k)[0]) && is_ascii_char(
                video_prefix(k)[1],
            ) && video_prefix(k)[0] != '/' && video_prefix(k)[1] != '/',
        forall|k: GoProVideoFileType| #![trigger video_ext(k)] plain_extension(video_ext(k)),
        forall|d: int|
            #![trigger digit_text(d)]
            digit_text(d).len() == 1 && is_ascii_char(digit_text(d)[0]) && digit_text(d)[0] != '/',
        "."@ == seq!['.'],
{
    reveal_strlit(".");
    reveal_strlit("GL");
    reveal_strlit("GH");
    reveal_strlit("GX");
    reveal_strlit("LRV");
    reveal_strlit("MP4");
    reveal_strlit("WAV");
    reveal_strlit("THM");
    reveal_strlit("0");
    reveal_strlit("1");
    reveal_strlit("2");
    reveal_strlit("3");
    reveal_strlit("4");
    reveal_strlit("5");
    reveal_strlit("6");
    reveal_strlit("7");
    reveal_strlit("8");
    reveal_strlit("9");
    reveal_with_fuel(last_index_of, 4);
}

/// A path whose parent is the root or does not end in a separator.
pub open spec fn plain_parent(p: Seq<char>) -> bool {
    parent_of(p) matches Some(d) && (d == seq!['/'] || d.last() != '/')
}

/// A file derived from a video file name is itself a well-formed video file
/// name of the same recording, in the same directory.
proof fn lemma_video_file_of_video_file(p: Seq<char>, part: u8, k: GoProVideoFileType)
    requires
        video_name_error(p) is None,
        plain_parent(p),
    ensures
        video_name_error(video_file(p, part, k)) is None,
        plain_parent(video_file(p, part, k)),
        extension_of(video_file(p, part, k)) == Some(video_ext(k)),
        forall|q: u8, k2: GoProVideoFileType|
            #[trigger] video_file(video_file(p, part, k), q, k2) == video_file(p, q, k2),
{
    lemma_name_literals();
    let ks = last_index_of(p, '/');
    lemma_last_index_bounds(p, '/');
    let n = file_name_of(p).unwrap();
    assert(forall|j: int| 0 <= j < n.len() ==> n[j] == p[ks + 1 + j]);
    let d = last_index_of(n, '.');
    lemma_last_index_bounds(n, '.');
    let stem = stem_before_dot(n);
    let media = stem.subrange(4, stem.len() as int);
    assert(forall|j: int| 0 <= j < media.len() ==> media[j] == n[4 + j]);
    let dir = parent_of(p).unwrap();
    let pre = video_prefix(k);
    let dd = two_digits(part);
    let ext = video_ext(k);
    let head = pre + dd + media;
    let name = head + "."@ + ext;
    assert(head.len() == 4 + media.len());
    assert forall|j: int| 0 <= j < head.len() implies head[j] != '/' by {
        if j >= 4 {
            assert(head[j] == media[j - 4]);
        }
    }
    lemma_last_index_absent(head, '/');
    lemma_last_index_concat(head, "."@, '/');
    lemma_last_index_concat(head + "."@, ext, '/');
    assert(last_index_of(seq!['.'], '/') == -1) by {
        assert(seq!['.'].drop_last().len() == 0);
        assert(last_index_of(seq!['.'].drop_last(), '/') == -1);
    }
    assert(last_index_of(name, '/') == -1);
    lemma_last_index_concat(head, "."@, '.');
    assert(last_index_of(seq!['.'], '.') == 0);
    lemma_last_index_concat(head + "."@, ext, '.');
    assert(last_index_of(name, '.') == head.len());
    let g = video_file(p, part, k);
    assert(g == join_of(dir, name));
    if dir == seq!['/'] {
        assert(g == dir + name);
        lemma_last_index_concat(dir, name, '/');
        assert(last_index_of(dir, '/') == 0) by {
            assert(dir.last() == '/');
        }
        assert(g.subrange(1, g.len() as int) == name);
    } else {
        assert(g == dir + seq!['/'] + name);
        lemma_last_index_concat(dir + seq!['/'], name, '/');
        lemma_last_index_concat(dir, seq!['/'], '/');
        assert(last_index_of(seq!['/'], '/') == 0);
        assert(g.subrange(dir.len() as int + 1, g.len() as int) == name);
        assert(g.subrange(0, dir.len() as int) == dir);
    }
    assert(file_name_of(g) == Some(name));
    assert(parent_of(g) == Some(dir));
    assert(stem_before_dot(name) == head);
    assert(head.subrange(4, head.len() as int) == media);
    assert(name.subrange(head.len() as int + 1, name.len() as int) == ext);
}

proof fn lemma_parts_from_same(disk: Snapshot, km: Seq<String>, p: Seq<char>, g: Seq<char>, part: int)
    requires
        forall|q: u8, k2: GoProVideoFileType| #[trigger] video_file(g, q, k2) == video_file(p, q, k2),
    ensures
        parts_from(disk, km, g, part) == parts_from(disk, km, p, part),
    decreases 100 - part,
{
    if 1 <= part <= 99 {
        lemma_parts_from_same(disk, km, p, g, part + 1);
        assert(video_file(g, part as u8, GoProVideoFileType::HighBitrateH264Video) == video_file(
            p,
            part as u8,
            GoProVideoFileType::HighBitrateH264Video,
        ));
        assert(video_file(g, part as u8, GoProVideoFileType::HighBitrateH265Video) == video_file(
            p,
            part as u8,
            GoProVideoFileType::HighBitrateH265Video,
        ));
    }
}

proof fn lemma_related_parts_same(
    disk: Snapshot,
    km: Seq<String>,
    p: Seq<char>,
    g: Seq<char>,
    count: u8,
    part: int,
    all: int,
    num: u8,
)
    requires
        forall|q: u8, k2: GoProVideoFileType| #[trigger] video_file(g, q, k2) == video_file(p, q, k2),
    ensures
        related_parts(disk, km, g, count, part, all, num) == related_parts(
            disk,
            km,
            p,
            count,
            part,
            all,
            num,
        ),
    decreases all + 1 - part,
{
    if 1 <= part <= all && part <= 99 {
        let q = part as u8;
        assert(part_error(disk, km, g, q) == part_error(disk, km, p, q)) by {
            assert(video_file(g, q, GoProVideoFileType::HighBitrateH264Video) == video_file(p, q, GoProVideoFileType::HighBitrateH264Video));
            assert(video_file(g, q, GoProVideoFileType::HighBitrateH265Video) == video_file(p, q, GoProVideoFileType::HighBitrateH265Video));
            assert(video_file(g, q, GoProVideoFileType::ThumbnailPhotoOfH264Video) == video_file(p, q, GoProVideoFileType::ThumbnailPhotoOfH264Video));
            assert(video_file(g, q, GoProVideoFileType::ThumbnailPhotoOfH265Video) == video_file(p, q, GoProVideoFileType::ThumbnailPhotoOfH265Video));
            assert(video_file(g, q, GoProVideoFileType::LowBitrateVideo) == video_file(p, q, GoProVideoFileType::LowBitrateVideo));
        }
        assert(part_items(disk, g, q, count, num) == part_items(disk, p, q, count, num)) by {
            assert(video_file(g, q, GoProVideoFileType::HighBitrateH264Video) == video_file(p, q, GoProVideoFileType::HighBitrateH264Video));
            assert(video_file(g, q, GoProVideoFileType::HighBitrateH265Video) == video_file(p, q, GoProVideoFileType::HighBitrateH265Video));
            assert(video_file(g, q, GoProVideoFileType::ThumbnailPhotoOfH264Video) == video_file(p, q, GoProVideoFileType::ThumbnailPhotoOfH264Video));
            assert(video_file(g, q, GoProVideoFileType::ThumbnailPhotoOfH265Video) == video_file(p, q, GoProVideoFileType::ThumbnailPhotoOfH265Video));
            assert(video_file(g, q, GoProVideoFileType::LowBitrateVideo) == video_file(p, q, GoProVideoFileType::LowBitrateVideo));
            assert(video_file(g, q, GoProVideoFileType::WavAudio) == video_file(p, q, GoProVideoFileType::WavAudio));
        }
        let items = part_items(disk, p, q, count, num);
        let next = if items.len() > 0 {
            (num + 1) as u8
        } else {
            num
        };
        lemma_related_parts_same(disk, km, p, g, count, part + 1, all, next);
    }
}

/// Within one recording the answer is the same from every file: each file
/// that a video file `p` derives for any part and kind (the files that
/// gathering `p`'s item returns among them) gets the same files as `p`.
pub proof fn lemma_gopro_related_same_from_derived_file(
    disk: Snapshot,
    km: Seq<String>,
    p: Seq<char>,
    part: u8,
    k: GoProVideoFileType,
)
    requires
        video_name_error(p) is None,
        plain_parent(p),
        extension_of(p) matches Some(x) && (x == "THM"@ || x == "MP4"@ || x == "WAV"@ || x
            == "LRV"@),
    ensures
        gopro_related(disk, km, video_file(p, part, k)) == gopro_related(disk, km, p),
{
    let g = video_file(p, part, k);
    lemma_video_file_of_video_file(p, part, k);
    assert(forall|q: u8, k2: GoProVideoFileType| #[trigger] video_file(g, q, k2) == video_file(p, q, k2));
    lemma_parts_from_same(disk, km, p, g, 1);
    assert(part_state(disk, km, g, 1) == part_state(disk, km, p, 1)) by {
        assert(video_file(g, 1, GoProVideoFileType::HighBitrateH264Video) == video_file(p, 1, GoProVideoFileType::HighBitrateH264Video));
        assert(video_file(g, 1, GoProVideoFileType::HighBitrateH265Video) == video_file(p, 1, GoProVideoFileType::HighBitrateH265Video));
    }
    assert(count_parts(disk, km, g) == count_parts(disk, km, p));
    match count_parts(disk, km, p) {
        Ok(c) => {
            lemma_related_parts_same(disk, km, p, g, c.0 as u8, 1, c.1, 1);
        },
        Err(_) => {},
    }
    assert(extension_of(g) == Some(video_ext(k)));
    match k {
        GoProVideoFileType::LowBitrateVideo => {},
        GoProVideoFileType::HighBitrateH265Video => {},
        GoProVideoFileType::HighBitrateH264Video => {},
        GoProVideoFileType::WavAudio => {},
        GoProVideoFileType::ThumbnailPhotoOfH264Video => {},
        GoProVideoFileType::ThumbnailPhotoOfH265Video => {},
    }
}


proof fn lemma_photo_literals()
    ensures
        forall|k: GoProPhotoFileType| #![trigger photo_ext(k)] plain_extension(photo_ext(k)),
        "."@ == seq!['.'],
        "JPG"@ != "GPR"@,
        "JPG"@ != "THM"@ && "JPG"@ != "MP4"@ && "JPG"@ != "WAV"@ && "JPG"@ != "LRV"@,
        "GPR"@ != "THM"@ && "GPR"@ != "MP4"@ && "GPR"@ != "WAV"@ && "GPR"@ != "LRV"@,
{
    reveal_strlit(".");
    reveal_strlit("JPG");
    reveal_strlit("GPR");
    reveal_strlit("THM");
    reveal_strlit("MP4");
    reveal_strlit("WAV");
    reveal_strlit("LRV");
    reveal_with_fuel(last_index_of, 4);
    assert("JPG"@[0] != "GPR"@[0]);
    assert("JPG"@[0] != "THM"@[0] && "JPG"@[0] != "MP4"@[0] && "JPG"@[0] != "WAV"@[0]
        && "JPG"@[0] != "LRV"@[0]);
    assert("GPR"@[0] != "THM"@[0] && "GPR"@[0] != "MP4"@[0] && "GPR"@[0] != "WAV"@[0]
        && "GPR"@[0] != "LRV"@[0]);
}

/// Within one photo the answer is the same from every file: its JPEG and its
/// raw file (the files that gathering the photo's item returns) get the same
/// files as the photo file `p`.
pub proof fn lemma_gopro_photo_related_same_from_sibling(
    disk: Snapshot,
    km: Seq<String>,
    p: Seq<char>,
    k: GoProPhotoFileType,
)
    requires
        photo_name_error(p) is None,
        plain_parent(p),
        extension_of(p) matches Some(x) && (x == "JPG"@ || x == "GPR"@),
    ensures
        photo_path(p, k) is Ok,
        gopro_related(disk, km, photo_path(p, k)->Ok_0) == gopro_related(disk, km, p),
{
    lemma_photo_literals();
    lemma_file_name_plain(p);
    lemma_last_index_bounds(p, '/');
    let n = file_name_of(p).unwrap();
    lemma_last_index_bounds(n, '.');
    lemma_last_index_bounds(n, '/');
    let stem = stem_before_dot(n);
    let dir = parent_of(p).unwrap();
    let ext = photo_ext(k);
    let name = stem + "."@ + ext;
    assert forall|j: int| 0 <= j < stem.len() implies stem[j] != '/' by {
        assert(stem[j] == n[j]);
    }
    lemma_last_index_absent(stem, '/');
    lemma_last_index_concat(stem, "."@, '/');
    lemma_last_index_concat(stem + "."@, ext, '/');
    assert(last_index_of(seq!['.'], '/') == -1) by {
        assert(seq!['.'].drop_last().len() == 0);
        assert(last_index_of(seq!['.'].drop_last(), '/') == -1);
    }
    assert(last_index_of(name, '/') == -1);
    lemma_last_index_concat(stem, "."@, '.');
    assert(last_index_of(seq!['.'], '.') == 0);
    lemma_last_index_concat(stem + "."@, ext, '.');
    assert(last_index_of(name, '.') == stem.len());
    let g = join_of(dir, name);
    assert(photo_path(p, k) == Ok::<Seq<char>, (ErrorKind, Seq<char>)>(g));
    if dir == seq!['/'] {
        assert(g == dir + name);
        lemma_last_index_concat(dir, name, '/');
        assert(last_index_of(dir, '/') == 0) by {
            assert(dir.last() == '/');
        }
        assert(g.subrange(1, g.len() as int) == name);
    } else {
        assert(g == dir + seq!['/'] + name);
        lemma_last_index_concat(dir + seq!['/'], name, '/');
        lemma_last_index_concat(dir, seq!['/'], '/');
        assert(last_index_of(seq!['/'], '/') == 0);
        assert(g.subrange(dir.len() as int + 1, g.len() as int) == name);
        assert(g.subrange(0, dir.len() as int) == dir);
    }
    assert(file_name_of(g) == Some(name));
    assert(parent_of(g) == Some(dir));
    assert(stem_before_dot(name) == stem);
    assert(name.subrange(stem.len() as int + 1, name.len() as int) == ext);
    assert(extension_of(g) == Some(ext));
    assert(photo_name_error(g) is None);
    assert(photo_path(g, GoProPhotoFileType::JpegPhoto) == photo_path(p, GoProPhotoFileType::JpegPhoto));
    assert(photo_path(g, GoProPhotoFileType::RawPhoto) == photo_path(p, GoProPhotoFileType::RawPhoto));
    match k {
        GoProPhotoFileType::JpegPhoto => {},
        GoProPhotoFileType::RawPhoto => {},
    }
}

} // verus!
