//! Sony ILCE-M4 cameras, whose files are typed by where they lie on the card:
//! photos under `DCIM/<album>MSDCF/`, videos under `PRIVATE/M4ROOT/CLIP/`
//! with their thumbnails under `PRIVATE/M4ROOT/THMBNL/`.
use vstd::prelude::*;
use vstd::string::*;
use crate::path::{
    lemma_with_extension_parts, lemma_with_extension_twice, plain_extension,
    last_index_of, lemma_file_name_plain, lemma_join_parts, lemma_last_index_absent,
    lemma_last_index_bounds,
    lemma_last_index_concat, name_extension,
    ends_with, extension, extension_of, file_name, file_name_of, join, join_of, parent, parent_of,
    str_eq, with_extension, with_extension_of,
};
use crate::helpers::{
    is_ascii_char,
    concat_results, create_part_file, create_part_file_that_exists, create_simple_file,
    dir_on_disk, filter_dir, filter_dir_spec, items_view, list_view, maybe_view, media_error,
    on_disk, part_view, presence_of, simple_maybe, simple_result, DirEntry, DirEntryView,
    DiskEntry, EntryRule, ErrorKind, FileItem, FileItemView, FileType, ItemType,
    JsonFileInfoTypes, MediaError, Presence, Snapshot,
};

verus! {

pub open spec fn types_of(f: FileType, i: ItemType) -> JsonFileInfoTypes {
    JsonFileInfoTypes { file_type: f, item_type: i }
}

/// The kinds of a photo file in `<base>/<card>/DCIM/<album>MSDCF/`, where it lies there.
pub open spec fn dcim_types(
    file: Seq<char>,
    ext: Seq<char>,
    par: Seq<char>,
    gp: Seq<char>,
    base: Seq<char>,
) -> Option<Result<JsonFileInfoTypes, (ErrorKind, Seq<char>)>> {
    match file_name_of(par) {
        None => Some(Err((ErrorKind::NoFileName, par))),
        Some(album) => match parent_of(gp) {
            None => Some(Err((ErrorKind::NoParent, gp))),
            Some(card) => match parent_of(card) {
                None => Some(Err((ErrorKind::NoParent, card))),
                Some(root) => if album.len() >= 5 && album.subrange(album.len() - 5, album.len() as int)
                    == "MSDCF"@ && root == base {
                    Some(
                        if ext == "JPG"@ {
                            Ok(types_of(FileType::FileImage, ItemType::ItemImage))
                        } else if ext == "ARW"@ {
                            Ok(types_of(FileType::FileImageRaw, ItemType::ItemImage))
                        } else {
                            Err((ErrorKind::UnknownExtension, file))
                        },
                    )
                } else {
                    None
                },
            },
        },
    }
}

/// The kinds of a video file in `<base>/<card>/PRIVATE/M4ROOT/<sub>/`, where it lies there.
pub open spec fn m4root_types(
    file: Seq<char>,
    ext: Seq<char>,
    par: Seq<char>,
    gp: Seq<char>,
    base: Seq<char>,
) -> Option<Result<JsonFileInfoTypes, (ErrorKind, Seq<char>)>> {
    match parent_of(gp) {
        None => Some(Err((ErrorKind::NoParent, gp))),
        Some(private) => match file_name_of(private) {
            None => Some(Err((ErrorKind::NoFileName, private))),
            Some(private_name) => match parent_of(private) {
                None => Some(Err((ErrorKind::NoParent, private))),
                Some(card) => match parent_of(card) {
                    None => Some(Err((ErrorKind::NoParent, card))),
                    Some(root) => if private_name == "PRIVATE"@ && root == base {
                        match file_name_of(par) {
                            None => Some(Err((ErrorKind::NoFileName, par))),
                            Some(sub) => Some(
                                if sub == "CLIP"@ {
                                    if ext == "MP4"@ {
                                        Ok(types_of(FileType::FileVideo, ItemType::ItemVideo))
                                    } else if ext == "XML"@ {
                                        Ok(types_of(FileType::FileMetadata, ItemType::ItemVideo))
                                    } else {
                                        Err((ErrorKind::UnknownExtension, file))
                                    }
                                } else if sub == "THMBNL"@ {
                                    if ext == "JPG"@ {
                                        Ok(types_of(FileType::FileImagePreview, ItemType::ItemVideo))
                                    } else {
                                        Err((ErrorKind::UnknownExtension, file))
                                    }
                                } else {
                                    Err((ErrorKind::NotInExpectedStructure, file))
                                },
                            ),
                        }
                    } else {
                        None
                    },
                },
            },
        },
    }
}

/// The kinds of `file` by its place under `base`: photos in
/// `<card>/DCIM/<album>MSDCF/`, videos and their metadata in
/// `<card>/PRIVATE/M4ROOT/CLIP/`, thumbnails in `<card>/PRIVATE/M4ROOT/THMBNL/`.
pub open spec fn sony_types(file: Seq<char>, base: Seq<char>) -> Result<
    JsonFileInfoTypes,
    (ErrorKind, Seq<char>),
> {
    match extension_of(file) {
        None => Err((ErrorKind::NoExtension, file)),
        Some(ext) => match parent_of(file) {
            None => Err((ErrorKind::NoParent, file)),
            Some(par) => match parent_of(par) {
                None => Err((ErrorKind::NoParent, par)),
                Some(gp) => match file_name_of(gp) {
                    None => Err((ErrorKind::NoFileName, gp)),
                    Some(gname) => {
                        let in_dcim = if gname == "DCIM"@ {
                            dcim_types(file, ext, par, gp, base)
                        } else {
                            None
                        };
                        let in_m4root = if gname == "M4ROOT"@ {
                            m4root_types(file, ext, par, gp, base)
                        } else {
                            None
                        };
                        match in_dcim {
                            Some(r) => r,
                            None => match in_m4root {
                                Some(r) => r,
                                None => Err((ErrorKind::NotInExpectedStructure, file)),
                            },
                        }
                    },
                },
            },
        },
    }
}

pub open spec fn types_view(r: Result<JsonFileInfoTypes, MediaError>) -> Result<
    JsonFileInfoTypes,
    (ErrorKind, Seq<char>),
> {
    match r {
        Ok(t) => Ok(t),
        Err(e) => Err(e@),
    }
}

fn dcim_filetype(file: &str, ext: &str, par: &str, gp: &str, base: &str) -> (r: Option<
    Result<JsonFileInfoTypes, MediaError>,
>)
    ensures
        match dcim_types(file@, ext@, par@, gp@, base@) {
            None => r is None,
            Some(x) => r matches Some(y) && types_view(y) == x,
        },
{
    let album = match file_name(par) {
        None => {
            return Some(Err(media_error(ErrorKind::NoFileName, par)));
        },
        Some(a) => a,
    };
    let card = match parent(gp) {
        None => {
            return Some(Err(media_error(ErrorKind::NoParent, gp)));
        },
        Some(c) => c,
    };
    let root = match parent(card.as_str()) {
        None => {
            return Some(Err(media_error(ErrorKind::NoParent, card.as_str())));
        },
        Some(r) => r,
    };
    proof {
        reveal_strlit("MSDCF");
    }
    if ends_with(album.as_str(), "MSDCF") && str_eq(root.as_str(), base) {
        if str_eq(ext, "JPG") {
            Some(Ok(JsonFileInfoTypes { file_type: FileType::FileImage, item_type: ItemType::ItemImage }))
        } else if str_eq(ext, "ARW") {
            Some(
                Ok(
                    JsonFileInfoTypes {
                        file_type: FileType::FileImageRaw,
                        item_type: ItemType::ItemImage,
                    },
                ),
            )
        } else {
            Some(Err(media_error(ErrorKind::UnknownExtension, file)))
        }
    } else {
        None
    }
}

fn m4root_filetype(file: &str, ext: &str, par: &str, gp: &str, base: &str) -> (r: Option<
    Result<JsonFileInfoTypes, MediaError>,
>)
    ensures
        match m4root_types(file@, ext@, par@, gp@, base@) {
            None => r is None,
            Some(x) => r matches Some(y) && types_view(y) == x,
        },
{
    let private = match parent(gp) {
        None => {
            return Some(Err(media_error(ErrorKind::NoParent, gp)));
        },
        Some(p) => p,
    };
    let private_name = match file_name(private.as_str()) {
        None => {
            return Some(Err(media_error(ErrorKind::NoFileName, private.as_str())));
        },
        Some(n) => n,
    };
    let card = match parent(private.as_str()) {
        None => {
            return Some(Err(media_error(ErrorKind::NoParent, private.as_str())));
        },
        Some(c) => c,
    };
    let root = match parent(card.as_str()) {
        None => {
            return Some(Err(media_error(ErrorKind::NoParent, card.as_str())));
        },
        Some(r) => r,
    };
    if !(str_eq(private_name.as_str(), "PRIVATE") && str_eq(root.as_str(), base)) {
        return None;
    }
    let sub = match file_name(par) {
        None => {
            return Some(Err(media_error(ErrorKind::NoFileName, par)));
        },
        Some(s) => s,
    };
    if str_eq(sub.as_str(), "CLIP") {
        if str_eq(ext, "MP4") {
            Some(Ok(JsonFileInfoTypes { file_type: FileType::FileVideo, item_type: ItemType::ItemVideo }))
        } else if str_eq(ext, "XML") {
            Some(
                Ok(
                    JsonFileInfoTypes {
                        file_type: FileType::FileMetadata,
                        item_type: ItemType::ItemVideo,
                    },
                ),
            )
        } else {
            Some(Err(media_error(ErrorKind::UnknownExtension, file)))
        }
    } else if str_eq(sub.as_str(), "THMBNL") {
        if str_eq(ext, "JPG") {
            Some(
                Ok(
                    JsonFileInfoTypes {
                        file_type: FileType::FileImagePreview,
                        item_type: ItemType::ItemVideo,
                    },
                ),
            )
        } else {
            Some(Err(media_error(ErrorKind::UnknownExtension, file)))
        }
    } else {
        Some(Err(media_error(ErrorKind::NotInExpectedStructure, file)))
    }
}

/// The kinds of `file`, by its place under `source_media_location`.
fn filetype(file: &str, source_media_location: &str) -> (r: Result<JsonFileInfoTypes, MediaError>)
    ensures
        types_view(r) == sony_types(file@, source_media_location@),
{
    let ext = match extension(file) {
        None => {
            return Err(media_error(ErrorKind::NoExtension, file));
        },
        Some(x) => x,
    };
    let par = match parent(file) {
        None => {
            return Err(media_error(ErrorKind::NoParent, file));
        },
        Some(p) => p,
    };
    let gp = match parent(par.as_str()) {
        None => {
            return Err(media_error(ErrorKind::NoParent, par.as_str()));
        },
        Some(g) => g,
    };
    let gname = match file_name(gp.as_str()) {
        None => {
            return Err(media_error(ErrorKind::NoFileName, gp.as_str()));
        },
        Some(n) => n,
    };
    if str_eq(gname.as_str(), "DCIM") {
        match dcim_filetype(file, ext.as_str(), par.as_str(), gp.as_str(), source_media_location) {
            Some(r) => {
                return r;
            },
            None => {},
        }
    }
    if str_eq(gname.as_str(), "M4ROOT") {
        match m4root_filetype(file, ext.as_str(), par.as_str(), gp.as_str(), source_media_location) {
            Some(r) => {
                return r;
            },
            None => {},
        }
    }
    Err(media_error(ErrorKind::NotInExpectedStructure, file))
}


/// The three files of a video.
#[derive(Clone, Copy, Debug, PartialEq, Eq, Structural)]
pub enum VideoFiles {
    Thumbnail,
    Video,
    Metadata,
}

/// The four-character id that a video file name carries after its first character.
pub open spec fn sony_video_id(file: Seq<char>) -> Result<Seq<char>, (ErrorKind, Seq<char>)> {
    match file_name_of(file) {
        None => Err((ErrorKind::NoFileName, file)),
        Some(n) => if n.len() >= 5 && forall|i: int| 0 <= i < 5 ==> is_ascii_char(#[trigger] n[i]) {
            Ok(n.subrange(1, 5))
        } else {
            Err((ErrorKind::BadFileName, n))
        },
    }
}

/// The file of kind `k` of the video with id `id`, beside `input` under `M4ROOT`.
pub open spec fn sony_video_path(input: Seq<char>, id: Seq<char>, k: VideoFiles) -> Result<
    Seq<char>,
    (ErrorKind, Seq<char>),
> {
    match parent_of(input) {
        None => Err((ErrorKind::NoParent, input)),
        Some(par) => match parent_of(par) {
            None => Err((ErrorKind::NoParent, par)),
            Some(m4root) => Ok(
                match k {
                    VideoFiles::Video => join_of(join_of(m4root, "CLIP"@), "C"@ + id + ".MP4"@),
                    VideoFiles::Metadata => join_of(
                        join_of(m4root, "CLIP"@),
                        "C"@ + id + "M01.XML"@,
                    ),
                    VideoFiles::Thumbnail => join_of(
                        join_of(m4root, "THMBNL"@),
                        "C"@ + id + "T01.JPG"@,
                    ),
                },
            ),
        },
    }
}

/// The id of the video that `file` belongs to.
pub fn get_video_id(file: &str) -> (r: Result<String, MediaError>)
    ensures
        match sony_video_id(file@) {
            Ok(id) => r matches Ok(x) && x@ == id,
            Err(e) => r matches Err(x) && x@ == e,
        },
{
    let name = match file_name(file) {
        None => {
            return Err(media_error(ErrorKind::NoFileName, file));
        },
        Some(n) => n,
    };
    let n = name.as_str();
    if n.unicode_len() < 5 {
        return Err(media_error(ErrorKind::BadFileName, n));
    }
    let mut i: usize = 0;
    while i < 5
        invariant
            i <= 5,
            n@.len() >= 5,
            file_name_of(file@) == Some(n@),
            forall|j: int| 0 <= j < i ==> is_ascii_char(#[trigger] n@[j]),
        decreases 5 - i,
    {
        if (n.get_char(i) as u32) >= 128 {
            assert(!is_ascii_char(n@[i as int]));
            return Err(media_error(ErrorKind::BadFileName, n));
        }
        i = i + 1;
    }
    Ok(String::from_str(n.substring_char(1, 5)))
}

/// The file of kind `file_type` of the video with id `id`, beside `input_file`.
pub fn create_video_file(input_file: &str, id: &str, file_type: VideoFiles) -> (r: Result<
    String,
    MediaError,
>)
    ensures
        match sony_video_path(input_file@, id@, file_type) {
            Ok(p) => r matches Ok(x) && x@ == p,
            Err(e) => r matches Err(x) && x@ == e,
        },
{
    let par = match parent(input_file) {
        None => {
            return Err(media_error(ErrorKind::NoParent, input_file));
        },
        Some(p) => p,
    };
    let m4root = match parent(par.as_str()) {
        None => {
            return Err(media_error(ErrorKind::NoParent, par.as_str()));
        },
        Some(m) => m,
    };
    let base_name = String::from_str("C").concat(id);
    match file_type {
        VideoFiles::Video => Ok(
            join(join(m4root.as_str(), "CLIP").as_str(), base_name.concat(".MP4").as_str()),
        ),
        VideoFiles::Metadata => Ok(
            join(join(m4root.as_str(), "CLIP").as_str(), base_name.concat("M01.XML").as_str()),
        ),
        VideoFiles::Thumbnail => Ok(
            join(join(m4root.as_str(), "THMBNL").as_str(), base_name.concat("T01.JPG").as_str()),
        ),
    }
}

/// A photo in an album: a `kept` file is listed, a `dropped_if_sibling` file
/// only where no `kept` file of the same name is on disk.
pub open spec fn album_rule(
    disk: Snapshot,
    base: Seq<char>,
    e: DirEntryView,
    kept: Seq<char>,
    dropped_if_sibling: Seq<char>,
) -> Result<Option<FileItemView>, (ErrorKind, Seq<char>)> {
    match e.ext {
        Some(x) => if x == dropped_if_sibling {
            if !on_disk(disk, with_extension_of(e.path, kept)) {
                match sony_types(e.path, base) {
                    Err(er) => Err(er),
                    Ok(t) => simple_maybe(e.path, t, None),
                }
            } else {
                Ok(None)
            }
        } else if x == kept {
            match sony_types(e.path, base) {
                Err(er) => Err(er),
                Ok(t) => simple_maybe(e.path, t, None),
            }
        } else {
            Err((ErrorKind::UnexpectedFile, e.path))
        },
        None => Err((ErrorKind::UnexpectedFile, e.path)),
    }
}

/// A file of a video directory: `wanted` files are listed as the single part
/// of their video, `ignored` ones are passed over.
pub open spec fn video_dir_rule(
    base: Seq<char>,
    e: DirEntryView,
    wanted: Seq<char>,
    ignored: Option<Seq<char>>,
) -> Result<Option<FileItemView>, (ErrorKind, Seq<char>)> {
    match e.ext {
        Some(x) => if x == wanted {
            match sony_types(e.path, base) {
                Err(er) => Err(er),
                Ok(t) => Ok(Some(part_view(e.path, t, 1, 1, None))),
            }
        } else if ignored == Some(x) {
            Ok(None)
        } else {
            Err((ErrorKind::UnexpectedFile, e.path))
        },
        None => Err((ErrorKind::UnexpectedFile, e.path)),
    }
}

pub open spec fn album_rules(disk: Snapshot, base: Seq<char>, kept: Seq<char>, dropped_if_sibling: Seq<char>) -> EntryRule {
    |e: DirEntryView| album_rule(disk, base, e, kept, dropped_if_sibling)
}

pub open spec fn video_dir_rules(base: Seq<char>, wanted: Seq<char>, ignored: Option<Seq<char>>) -> EntryRule {
    |e: DirEntryView| video_dir_rule(base, e, wanted, ignored)
}

fn album_entry(disk: &Snapshot, base: &str, e: &DirEntry, kept: &str, dropped_if_sibling: &str) -> (r: Result<
    Option<FileItem>,
    MediaError,
>)
    ensures
        maybe_view(r) == album_rule(*disk, base@, e@, kept@, dropped_if_sibling@),
{
    let x = match &e.ext {
        None => {
            return Err(media_error(ErrorKind::UnexpectedFile, e.path.as_str()));
        },
        Some(x) => x.as_str(),
    };
    if str_eq(x, dropped_if_sibling) {
        if disk.contains(with_extension(e.path.as_str(), kept).as_str()) {
            return Ok(None);
        }
    } else if !str_eq(x, kept) {
        return Err(media_error(ErrorKind::UnexpectedFile, e.path.as_str()));
    }
    let t = match filetype(e.path.as_str(), base) {
        Ok(t) => t,
        Err(er) => {
            return Err(er);
        },
    };
    match create_simple_file(e.path.clone(), t, None) {
        Ok(item) => Ok(Some(item)),
        Err(er) => Err(er),
    }
}

fn video_dir_entry(base: &str, e: &DirEntry, wanted: &str, ignored: Option<&str>) -> (r: Result<
    Option<FileItem>,
    MediaError,
>)
    ensures
        maybe_view(r) == video_dir_rule(
            base@,
            e@,
            wanted@,
            match ignored {
                Some(i) => Some(i@),
                None => None,
            },
        ),
{
    let x = match &e.ext {
        None => {
            return Err(media_error(ErrorKind::UnexpectedFile, e.path.as_str()));
        },
        Some(x) => x.as_str(),
    };
    if str_eq(x, wanted) {
        match filetype(e.path.as_str(), base) {
            Ok(t) => Ok(Some(create_part_file(e.path.clone(), t, 1, 1, None))),
            Err(er) => Err(er),
        }
    } else {
        match ignored {
            Some(i) => if str_eq(x, i) {
                return Ok(None);
            },
            None => {},
        }
        Err(media_error(ErrorKind::UnexpectedFile, e.path.as_str()))
    }
}


/// What `rule` makes of every album (child) of `dcim` among `entries`, album by album.
pub open spec fn albums_from(
    disk: Snapshot,
    entries: Seq<DiskEntry>,
    dcim: Seq<char>,
    rule: EntryRule,
) -> Result<Seq<FileItemView>, (ErrorKind, Seq<char>)>
    decreases entries.len(),
{
    if entries.len() == 0 {
        Ok(seq![])
    } else {
        concat_results(
            albums_from(disk, entries.drop_last(), dcim, rule),
            if parent_of(entries.last().path@) == Some(dcim) {
                filter_dir_spec(disk, entries.last().path@, rule)
            } else {
                Ok(seq![])
            },
        )
    }
}

pub proof fn lemma_albums_failure_persists(
    disk: Snapshot,
    entries: Seq<DiskEntry>,
    k: int,
    dcim: Seq<char>,
    rule: EntryRule,
)
    requires
        0 <= k <= entries.len(),
        albums_from(disk, entries.subrange(0, k), dcim, rule) is Err,
    ensures
        albums_from(disk, entries, dcim, rule) == albums_from(disk, entries.subrange(0, k), dcim, rule),
    decreases entries.len() - k,
{
    if k < entries.len() {
        let next = entries.subrange(0, k + 1);
        assert(next.drop_last() == entries.subrange(0, k));
        lemma_albums_failure_persists(disk, entries, k + 1, dcim, rule);
    } else {
        assert(entries.subrange(0, k) == entries);
    }
}

/// The photos of every album, then the files of the video directory `video_dir`
/// of the card.
pub open spec fn sony_listing(
    disk: Snapshot,
    card: Seq<char>,
    album: EntryRule,
    video_dir: Seq<char>,
    video: EntryRule,
) -> Result<Seq<FileItemView>, (ErrorKind, Seq<char>)> {
    let dcim = join_of(card, "DCIM"@);
    let photos = if !on_disk(disk, dcim) {
        Ok(seq![])
    } else if !dir_on_disk(disk, dcim) {
        Err((ErrorKind::DirUnreadable, dcim))
    } else {
        albums_from(disk, disk.entries@, dcim, album)
    };
    concat_results(photos, filter_dir_spec(disk, join_of(card, video_dir), video))
}

fn list_albums(disk: &Snapshot, base: &str, card: &str, kept: &str, dropped_if_sibling: &str) -> (r:
    Result<Vec<FileItem>, MediaError>)
    ensures
        ({
            let dcim = join_of(card@, "DCIM"@);
            let rule = album_rules(*disk, base@, kept@, dropped_if_sibling@);
            list_view(r) == if !on_disk(*disk, dcim) {
                Ok(seq![])
            } else if !dir_on_disk(*disk, dcim) {
                Err((ErrorKind::DirUnreadable, dcim))
            } else {
                albums_from(*disk, disk.entries@, dcim, rule)
            }
        }),
{
    let ghost rule = album_rules(*disk, base@, kept@, dropped_if_sibling@);
    let mut items: Vec<FileItem> = Vec::new();
    let dcim = join(card, "DCIM");
    assert(items_view(items@) == Seq::<FileItemView>::empty());
    if !disk.contains(dcim.as_str()) {
        return Ok(items);
    }
    if !disk.is_dir(dcim.as_str()) {
        return Err(media_error(ErrorKind::DirUnreadable, dcim.as_str()));
    }
    let mut i: usize = 0;
    assert(disk.entries@.subrange(0, 0).len() == 0);
    while i < disk.entries.len()
        invariant
            i <= disk.entries@.len(),
            rule == album_rules(*disk, base@, kept@, dropped_if_sibling@),
            dcim@ == join_of(card@, "DCIM"@),
            on_disk(*disk, dcim@),
            dir_on_disk(*disk, dcim@),
            albums_from(*disk, disk.entries@.subrange(0, i as int), dcim@, rule) == Ok::<
                Seq<FileItemView>,
                (ErrorKind, Seq<char>),
            >(items_view(items@)),
        decreases disk.entries@.len() - i,
    {
        let ghost prefix = disk.entries@.subrange(0, i + 1);
        assert(prefix.drop_last() == disk.entries@.subrange(0, i as int));
        let p = disk.entries[i].path.as_str();
        match parent(p) {
            Some(pp) if str_eq(pp.as_str(), dcim.as_str()) => {
                let mut found = match filter_dir(
                    disk,
                    p,
                    (|e: &DirEntry| -> (r: Result<Option<FileItem>, MediaError>)
                        ensures
                            maybe_view(r) == rule(e@),
                        { album_entry(disk, base, e, kept, dropped_if_sibling) }),
                    Ghost(rule),
                ) {
                    Ok(v) => v,
                    Err(e) => {
                        assert(prefix.last() == disk.entries@[i as int]);
                        assert(albums_from(*disk, prefix, dcim@, rule) is Err);
                        proof {
                            lemma_albums_failure_persists(*disk, disk.entries@, i + 1, dcim@, rule);
                        }
                        return Err(e);
                    },
                };
                let ghost before = items@;
                let ghost more = found@;
                items.append(&mut found);
                assert(items_view(items@) =~= items_view(before) + items_view(more));
            },
            _ => {
                assert(items_view(items@) + Seq::<FileItemView>::empty() =~= items_view(items@));
            },
        }
        i = i + 1;
    }
    assert(disk.entries@.subrange(0, i as int) == disk.entries@);
    Ok(items)
}

fn list_video_dir(disk: &Snapshot, base: &str, card: &str, sub: &str, wanted: &str, ignored: Option<&str>) -> (r: Result<Vec<FileItem>, MediaError>)
    ensures
        list_view(r) == filter_dir_spec(
            *disk,
            join_of(card@, sub@),
            video_dir_rules(
                base@,
                wanted@,
                match ignored {
                    Some(i) => Some(i@),
                    None => None,
                },
            ),
        ),
{
    let ghost rule = video_dir_rules(
        base@,
        wanted@,
        match ignored {
            Some(i) => Some(i@),
            None => None,
        },
    );
    let dir = join(card, sub);
    filter_dir(
        disk,
        dir.as_str(),
        (|e: &DirEntry| -> (r: Result<Option<FileItem>, MediaError>)
            ensures
                maybe_view(r) == rule(e@),
            { video_dir_entry(base, e, wanted, ignored) }),
        Ghost(rule),
    )
}

fn join_lists(a: Result<Vec<FileItem>, MediaError>, b: Result<Vec<FileItem>, MediaError>) -> (r: Result<Vec<FileItem>, MediaError>)
    ensures
        list_view(r) == concat_results(list_view(a), list_view(b)),
{
    match a {
        Err(e) => Err(e),
        Ok(mut x) => match b {
            Err(e) => Err(e),
            Ok(mut y) => {
                let ghost xv = x@;
                let ghost yv = y@;
                x.append(&mut y);
                assert(items_view(x@) =~= items_view(xv) + items_view(yv));
                Ok(x)
            },
        },
    }
}


/// The record of the photo file `f`, where it is on disk.
pub open spec fn photo_step(disk: Snapshot, base: Seq<char>, f: Seq<char>) -> Result<
    Seq<FileItemView>,
    (ErrorKind, Seq<char>),
> {
    match sony_types(f, base) {
        Err(e) => Err(e),
        Ok(t) => if on_disk(disk, f) {
            match simple_result(f, t, None) {
                Err(e) => Err(e),
                Ok(v) => Ok(seq![v]),
            }
        } else {
            Ok(seq![])
        },
    }
}

/// The record of the video file of kind `k`, which must be on disk unless it
/// is declared missing.
pub open spec fn video_step(
    disk: Snapshot,
    km: Seq<String>,
    base: Seq<char>,
    input: Seq<char>,
    id: Seq<char>,
    k: VideoFiles,
) -> Result<Seq<FileItemView>, (ErrorKind, Seq<char>)> {
    match sony_video_path(input, id, k) {
        Err(e) => Err(e),
        Ok(f) => match sony_types(f, base) {
            Err(e) => Err(e),
            Ok(t) => match presence_of(disk, km, f) {
                Presence::Present => Ok(seq![part_view(f, t, 1, 1, None)]),
                Presence::KnownMissing => Ok(seq![]),
                Presence::Absent => Err((ErrorKind::ExpectedToExist, f)),
            },
        },
    }
}

/// The files of the item that `file` belongs to: a photo's raw and JPEG files
/// where on disk; a video's metadata, recording and thumbnail.
pub open spec fn sony_related(disk: Snapshot, km: Seq<String>, base: Seq<char>, file: Seq<char>) -> Result<
    Seq<FileItemView>,
    (ErrorKind, Seq<char>),
> {
    match sony_types(file, base) {
        Err(e) => Err(e),
        Ok(t) => if t.item_type == ItemType::ItemImage {
            concat_results(
                photo_step(disk, base, with_extension_of(file, "ARW"@)),
                photo_step(disk, base, with_extension_of(file, "JPG"@)),
            )
        } else if t.item_type == ItemType::ItemVideo {
            match sony_video_id(file) {
                Err(e) => Err(e),
                Ok(id) => concat_results(
                    concat_results(
                        video_step(disk, km, base, file, id, VideoFiles::Metadata),
                        video_step(disk, km, base, file, id, VideoFiles::Video),
                    ),
                    video_step(disk, km, base, file, id, VideoFiles::Thumbnail),
                ),
            }
        } else {
            Err((ErrorKind::UnexpectedFile, file))
        },
    }
}

fn photo_file(disk: &Snapshot, base: &str, f: &str) -> (r: Result<Vec<FileItem>, MediaError>)
    ensures
        list_view(r) == photo_step(*disk, base@, f@),
{
    let t = match filetype(f, base) {
        Ok(t) => t,
        Err(e) => {
            return Err(e);
        },
    };
    let mut v: Vec<FileItem> = Vec::new();
    if disk.contains(f) {
        match create_simple_file(String::from_str(f), t, None) {
            Ok(item) => v.push(item),
            Err(e) => {
                return Err(e);
            },
        }
    }
    assert(items_view(v@) =~= photo_step(*disk, base@, f@)->Ok_0);
    Ok(v)
}

fn video_file(
    disk: &Snapshot,
    km: &Vec<String>,
    base: &str,
    input: &str,
    id: &str,
    k: VideoFiles,
) -> (r: Result<Vec<FileItem>, MediaError>)
    ensures
        list_view(r) == video_step(*disk, km@, base@, input@, id@, k),
{
    let f = match create_video_file(input, id, k) {
        Ok(f) => f,
        Err(e) => {
            return Err(e);
        },
    };
    let t = match filetype(f.as_str(), base) {
        Ok(t) => t,
        Err(e) => {
            return Err(e);
        },
    };
    let mut v: Vec<FileItem> = Vec::new();
    match create_part_file_that_exists(disk, f.as_str(), t, 1, 1, None, km) {
        Ok(Some(item)) => v.push(item),
        Ok(None) => {},
        Err(e) => {
            return Err(e);
        },
    }
    assert(items_view(v@) =~= video_step(*disk, km@, base@, input@, id@, k)->Ok_0);
    Ok(v)
}

/// The handler of Sony ILCE-M4 cameras.
pub struct SonyInterface;

impl SonyInterface {
    /// One record per item at the lowest fidelity: each JPEG photo (a raw
    /// photo only where it has no JPEG), then each video thumbnail.
    pub fn list_thumbnail(
        &self,
        source_media_location: &str,
        source_media_card: &str,
        _known_missing_files: &Vec<String>,
        disk: &Snapshot,
    ) -> (r: Result<Vec<FileItem>, MediaError>)
        ensures
            list_view(r) == sony_listing(
                *disk,
                source_media_card@,
                album_rules(*disk, source_media_location@, "JPG"@, "ARW"@),
                "PRIVATE/M4ROOT/THMBNL"@,
                video_dir_rules(source_media_location@, "JPG"@, None),
            ),
    {
        let photos = list_albums(disk, source_media_location, source_media_card, "JPG", "ARW");
        let videos = list_video_dir(
            disk,
            source_media_location,
            source_media_card,
            "PRIVATE/M4ROOT/THMBNL",
            "JPG",
            None,
        );
        join_lists(photos, videos)
    }

    /// One record per item at the highest fidelity: each raw photo (a JPEG
    /// only where it has no raw file), then each video recording.
    pub fn list_high_quality(
        &self,
        source_media_location: &str,
        source_media_card: &str,
        _known_missing_files: &Vec<String>,
        disk: &Snapshot,
    ) -> (r: Result<Vec<FileItem>, MediaError>)
        ensures
            list_view(r) == sony_listing(
                *disk,
                source_media_card@,
                album_rules(*disk, source_media_location@, "ARW"@, "JPG"@),
                "PRIVATE/M4ROOT/CLIP"@,
                video_dir_rules(source_media_location@, "MP4"@, Some("XML"@)),
            ),
    {
        let photos = list_albums(disk, source_media_location, source_media_card, "ARW", "JPG");
        let videos = list_video_dir(
            disk,
            source_media_location,
            source_media_card,
            "PRIVATE/M4ROOT/CLIP",
            "MP4",
            Some("XML"),
        );
        join_lists(photos, videos)
    }

    /// Every file of the item that `source_media_file` belongs to.
    pub fn get_related(
        &self,
        source_media_location: &str,
        source_media_file: &str,
        known_missing_files: &Vec<String>,
        disk: &Snapshot,
    ) -> (r: Result<Vec<FileItem>, MediaError>)
        ensures
            list_view(r) == sony_related(
                *disk,
                known_missing_files@,
                source_media_location@,
                source_media_file@,
            ),
    {
        let t = match filetype(source_media_file, source_media_location) {
            Ok(t) => t,
            Err(e) => {
                return Err(e);
            },
        };
        match t.item_type {
            ItemType::ItemImage => {
                let arw = with_extension(source_media_file, "ARW");
                let jpg = with_extension(source_media_file, "JPG");
                let a = photo_file(disk, source_media_location, arw.as_str());
                if a.is_err() {
                    return a;
                }
                join_lists(a, photo_file(disk, source_media_location, jpg.as_str()))
            },
            ItemType::ItemVideo => {
                let id = match get_video_id(source_media_file) {
                    Ok(id) => id,
                    Err(e) => {
                        return Err(e);
                    },
                };
                let m = video_file(
                    disk,
                    known_missing_files,
                    source_media_location,
                    source_media_file,
                    id.as_str(),
                    VideoFiles::Metadata,
                );
                let v = video_file(
                    disk,
                    known_missing_files,
                    source_media_location,
                    source_media_file,
                    id.as_str(),
                    VideoFiles::Video,
                );
                let th = video_file(
                    disk,
                    known_missing_files,
                    source_media_location,
                    source_media_file,
                    id.as_str(),
                    VideoFiles::Thumbnail,
                );
                join_lists(join_lists(m, v), th)
            },
            _ => Err(media_error(ErrorKind::UnexpectedFile, source_media_file)),
        }
    }

    /// The name under which this handler is configured.
    pub fn name(&self) -> (r: &'static str)
        ensures
            r@ == "Sony-ILCEM4-1"@,
    {
        "Sony-ILCEM4-1"
    }
}


pub open spec fn video_dir_name(k: VideoFiles) -> Seq<char> {
    match k {
        VideoFiles::Video => "CLIP"@,
        VideoFiles::Metadata => "CLIP"@,
        VideoFiles::Thumbnail => "THMBNL"@,
    }
}

pub open spec fn video_name_suffix(k: VideoFiles) -> Seq<char> {
    match k {
        VideoFiles::Video => ".MP4"@,
        VideoFiles::Metadata => "M01.XML"@,
        VideoFiles::Thumbnail => "T01.JPG"@,
    }
}

pub open spec fn video_file_ext(k: VideoFiles) -> Seq<char> {
    match k {
        VideoFiles::Video => "MP4"@,
        VideoFiles::Metadata => "XML"@,
        VideoFiles::Thumbnail => "JPG"@,
    }
}

proof fn lemma_video_literals(k: VideoFiles)
    ensures
        video_dir_name(k).len() > 0,
        last_index_of(video_dir_name(k), '/') == -1,
        file_name_of(video_dir_name(k)) == Some(video_dir_name(k)),
        video_name_suffix(k).len() >= 4,
        is_ascii_char(video_name_suffix(k)[0]),
        last_index_of(video_name_suffix(k), '/') == -1,
        last_index_of(video_name_suffix(k), '.') == video_name_suffix(k).len() - 4,
        video_name_suffix(k).subrange(
            video_name_suffix(k).len() - 3,
            video_name_suffix(k).len() as int,
        ) == video_file_ext(k),
        "C"@ == seq!['C'],
        "M4ROOT"@ != "DCIM"@,
        "THMBNL"@ != "CLIP"@,
        "XML"@ != "MP4"@,
        ".MP4"@ == "."@ + "MP4"@,
        "M01.XML"@ == "M01"@ + "."@ + "XML"@,
        "T01.JPG"@ == "T01"@ + "."@ + "JPG"@,
{
    reveal_strlit("C");
    reveal_strlit("CLIP");
    reveal_strlit("THMBNL");
    reveal_strlit(".MP4");
    reveal_strlit("M01.XML");
    reveal_strlit("T01.JPG");
    reveal_strlit("MP4");
    reveal_strlit("XML");
    reveal_strlit("JPG");
    reveal_strlit("M4ROOT");
    reveal_strlit("DCIM");
    reveal_strlit(".");
    reveal_strlit("M01");
    reveal_strlit("T01");
    reveal_with_fuel(last_index_of, 8);
    assert("M4ROOT"@[0] != "DCIM"@[0]);
    assert("THMBNL"@[0] != "CLIP"@[0]);
    assert("XML"@[0] != "MP4"@[0]);
    assert(".MP4"@ =~= "."@ + "MP4"@);
    assert("M01.XML"@ =~= "M01"@ + "."@ + "XML"@);
    assert("T01.JPG"@ =~= "T01"@ + "."@ + "JPG"@);
    assert(".MP4"@.subrange(1, 4) =~= "MP4"@);
    assert("M01.XML"@.subrange(4, 7) =~= "XML"@);
    assert("T01.JPG"@.subrange(4, 7) =~= "JPG"@);
}

/// Within one video the answer is the same from every file: each of the
/// three files that a video file `f` derives (the files that gathering `f`'s
/// item returns among them) gets the same files as `f`.
pub proof fn lemma_sony_video_related_same_from_derived_file(
    disk: Snapshot,
    km: Seq<String>,
    base: Seq<char>,
    f: Seq<char>,
    k: VideoFiles,
)
    requires
        sony_types(f, base) matches Ok(t) && t.item_type == ItemType::ItemVideo,
        sony_video_id(f) is Ok,
    ensures
        ({
            let g = sony_video_path(f, sony_video_id(f)->Ok_0, k)->Ok_0;
            sony_video_path(f, sony_video_id(f)->Ok_0, k) is Ok && sony_related(disk, km, base, g)
                == sony_related(disk, km, base, f)
        }),
{
    lemma_video_literals(k);
    let id = sony_video_id(f)->Ok_0;
    let par = parent_of(f).unwrap();
    let gp = parent_of(par).unwrap();
    assert(file_name_of(gp) == Some("M4ROOT"@));
    let n = file_name_of(f).unwrap();
    lemma_file_name_plain(f);
    assert forall|j: int| 0 <= j < id.len() implies id[j] != '/' by {
        assert(id[j] == n[1 + j]);
        lemma_last_index_bounds(n, '/');
    }
    lemma_last_index_absent(id, '/');
    let sub = video_dir_name(k);
    let par_g = join_of(gp, sub);
    lemma_join_parts(gp, sub);
    let name = "C"@ + id + video_name_suffix(k);
    assert(last_index_of("C"@, '/') == -1) by {
        assert(seq!['C'].drop_last().len() == 0);
        assert(last_index_of(seq!['C'].drop_last(), '/') == -1);
    }
    lemma_last_index_concat("C"@, id, '/');
    lemma_last_index_concat("C"@ + id, video_name_suffix(k), '/');
    let g = join_of(par_g, name);
    lemma_join_parts(par_g, name);
    assert(sony_video_path(f, id, k) == Ok::<Seq<char>, (ErrorKind, Seq<char>)>(g));
    // the file name of the derived file carries the same id and the extension of its kind
    lemma_last_index_concat("C"@ + id, video_name_suffix(k), '.');
    let dot = 5 + video_name_suffix(k).len() - 4;
    assert(last_index_of(name, '.') == dot);
    assert(name.subrange(dot + 1, name.len() as int) =~= video_file_ext(k));
    assert(name_extension(name) == Some(video_file_ext(k)));
    assert(extension_of(g) == Some(video_file_ext(k)));
    assert(name[0] == 'C');
    assert forall|i: int| 0 <= i < 5 implies is_ascii_char(#[trigger] name[i]) by {
        if 1 <= i < 5 {
            assert(name[i] == id[i - 1]);
            assert(id[i - 1] == n[i]);
        } else if i == 0 {
        }
    }
    assert(name[5] == video_name_suffix(k)[0]);
    assert(name.subrange(1, 5) =~= id);
    assert(sony_video_id(g) == Ok::<Seq<char>, (ErrorKind, Seq<char>)>(id));
    assert forall|k2: VideoFiles| #[trigger] sony_video_path(g, id, k2) == sony_video_path(f, id, k2) by {}
    assert(video_step(disk, km, base, g, id, VideoFiles::Metadata) == video_step(disk, km, base, f, id, VideoFiles::Metadata));
    assert(video_step(disk, km, base, g, id, VideoFiles::Video) == video_step(disk, km, base, f, id, VideoFiles::Video));
    assert(video_step(disk, km, base, g, id, VideoFiles::Thumbnail) == video_step(disk, km, base, f, id, VideoFiles::Thumbnail));
    assert(sony_types(g, base) matches Ok(t) && t.item_type == ItemType::ItemVideo);
}


proof fn lemma_photo_literals()
    ensures
        plain_extension("ARW"@),
        plain_extension("JPG"@),
        "ARW"@ != "JPG"@,
        "M4ROOT"@ != "DCIM"@,
{
    reveal_strlit("ARW");
    reveal_strlit("JPG");
    reveal_strlit("M4ROOT");
    reveal_strlit("DCIM");
    reveal_with_fuel(last_index_of, 4);
    assert("ARW"@[0] != "JPG"@[0]);
    assert("M4ROOT"@[0] != "DCIM"@[0]);
}

/// Within one photo the answer is the same from every file: its raw and its
/// JPEG file (the files that gathering the photo's item returns) get the same
/// files as the photo file `f`.
pub proof fn lemma_sony_photo_related_same_from_sibling(
    disk: Snapshot,
    km: Seq<String>,
    base: Seq<char>,
    f: Seq<char>,
    e: Seq<char>,
)
    requires
        sony_types(f, base) matches Ok(t) && t.item_type == ItemType::ItemImage,
        e == "ARW"@ || e == "JPG"@,
    ensures
        sony_related(disk, km, base, with_extension_of(f, e)) == sony_related(disk, km, base, f),
{
    lemma_photo_literals();
    let g = with_extension_of(f, e);
    assert(file_name_of(f) is Some);
    lemma_with_extension_parts(f, e);
    lemma_with_extension_twice(f, e, "ARW"@);
    lemma_with_extension_twice(f, e, "JPG"@);
    assert(sony_types(g, base) matches Ok(t) && t.item_type == ItemType::ItemImage);
}

} // verus!
