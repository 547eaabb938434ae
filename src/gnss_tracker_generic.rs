//! GNSS loggers, which may store one track in up to three formats under one
//! name: `gpx` (preferred), `kml`, then `txt`.
use vstd::prelude::*;
use crate::path::{
    extension_of, file_name_of, last_index_of, lemma_with_extension_twice,
    lemma_with_own_extension, plain_extension, str_eq, with_extension, with_extension_of,
};
use crate::helpers::{
    create_simple_file, create_simple_file_if_exists, filter_dir, filter_dir_spec, items_view,
    list_view, lower_of, lowercase, maybe_view, media_error, on_disk, simple_view, DirEntry,
    DirEntryView, EntryRule, ErrorKind, FileItem, FileItemView, FileType, ItemType,
    JsonFileInfoTypes, MediaError, Snapshot,
};

verus! {

pub open spec fn track_types() -> JsonFileInfoTypes {
    JsonFileInfoTypes { file_type: FileType::FileGNSSTrack, item_type: ItemType::ItemGNSSTrack }
}

/// Whether the track file `path`, whose extension lowercased is `lower`, is
/// listed: a `gpx` file always, a `kml` file where no `gpx` sibling is on disk,
/// a `txt` file where neither is; none for any other extension.
pub open spec fn track_listed(disk: Snapshot, path: Seq<char>, lower: Seq<char>) -> Option<bool> {
    let has_gpx = on_disk(disk, with_extension_of(path, "gpx"@));
    let has_kml = on_disk(disk, with_extension_of(path, "kml"@));
    if lower == "gpx"@ {
        Some(true)
    } else if lower == "kml"@ {
        Some(!has_gpx)
    } else if lower == "txt"@ {
        Some(!has_gpx && !has_kml)
    } else {
        None
    }
}

/// What a listing makes of one file of the card: a track is listed in its most
/// preferred format that is on disk.
pub open spec fn gnss_rule(disk: Snapshot, e: DirEntryView) -> Result<
    Option<FileItemView>,
    (ErrorKind, Seq<char>),
> {
    match e.ext {
        None => Err((ErrorKind::NoExtension, e.path)),
        Some(x) => match track_listed(disk, e.path, lower_of(x)) {
            None => Err((ErrorKind::UnknownExtension, e.path)),
            Some(true) => Ok(Some(simple_view(e.path, track_types(), None))),
            Some(false) => Ok(None),
        },
    }
}

pub open spec fn gnss_rules(disk: Snapshot) -> EntryRule {
    |e: DirEntryView| gnss_rule(disk, e)
}

/// The record of the track `p` in format `ext`, where that file is on disk.
pub open spec fn track_file(disk: Snapshot, p: Seq<char>, ext: Seq<char>) -> Seq<FileItemView> {
    let f = with_extension_of(p, ext);
    if on_disk(disk, f) {
        seq![simple_view(f, track_types(), None)]
    } else {
        seq![]
    }
}

/// Every format of the track `p` that is on disk, in order of preference.
pub open spec fn gnss_related(disk: Snapshot, p: Seq<char>) -> Seq<FileItemView> {
    track_file(disk, p, "gpx"@) + track_file(disk, p, "kml"@) + track_file(disk, p, "txt"@)
}

fn types() -> (r: JsonFileInfoTypes)
    ensures
        r == track_types(),
{
    JsonFileInfoTypes { file_type: FileType::FileGNSSTrack, item_type: ItemType::ItemGNSSTrack }
}

/// Whether the track file `path`, whose extension lowercased is `lower`, is listed.
pub fn is_track_listed(disk: &Snapshot, path: &str, lower: &str) -> (r: Option<bool>)
    ensures
        r == track_listed(*disk, path@, lower@),
{
    if str_eq(lower, "gpx") {
        Some(true)
    } else if str_eq(lower, "kml") {
        Some(!disk.contains(with_extension(path, "gpx").as_str()))
    } else if str_eq(lower, "txt") {
        Some(
            !disk.contains(with_extension(path, "gpx").as_str()) && !disk.contains(
                with_extension(path, "kml").as_str(),
            ),
        )
    } else {
        None
    }
}

fn gnss_entry(disk: &Snapshot, e: &DirEntry) -> (r: Result<Option<FileItem>, MediaError>)
    ensures
        maybe_view(r) == gnss_rule(*disk, e@),
{
    let ext = match &e.ext {
        None => {
            return Err(media_error(ErrorKind::NoExtension, e.path.as_str()));
        },
        Some(x) => x.as_str(),
    };
    let lower = lowercase(ext);
    let listed = match is_track_listed(disk, e.path.as_str(), lower.as_str()) {
        None => {
            return Err(media_error(ErrorKind::UnknownExtension, e.path.as_str()));
        },
        Some(l) => l,
    };
    if listed {
        match create_simple_file(e.path.clone(), types(), None) {
            Ok(item) => Ok(Some(item)),
            Err(er) => Err(er),
        }
    } else {
        Ok(None)
    }
}

/// Adds the record of the track `p` in format `ext`, where that file is on disk.
fn add_track_file(disk: &Snapshot, p: &str, ext: &str, items: &mut Vec<FileItem>)
    ensures
        items_view(final(items)@) == items_view(old(items)@) + track_file(*disk, p@, ext@),
{
    let ghost before = items@;
    let f = with_extension(p, ext);
    match create_simple_file_if_exists(disk, f.as_str(), types(), None) {
        Ok(Some(item)) => {
            items.push(item);
        },
        _ => {},
    }
    assert(items_view(items@) =~= items_view(before) + track_file(*disk, p@, ext@));
}

/// The handler of GNSS loggers.
pub struct GNSSTrackerGeneric;

impl GNSSTrackerGeneric {
    /// One record per track: its file in the most preferred format on disk.
    pub fn list_thumbnail(
        &self,
        _source_media_location: &str,
        source_media_card: &str,
        _known_missing_files: &Vec<String>,
        disk: &Snapshot,
    ) -> (r: Result<Vec<FileItem>, MediaError>)
        ensures
            list_view(r) == filter_dir_spec(*disk, source_media_card@, gnss_rules(*disk)),
    {
        let ghost rule = gnss_rules(*disk);
        filter_dir(
            disk,
            source_media_card,
            (|e: &DirEntry| -> (r: Result<Option<FileItem>, MediaError>)
                ensures
                    maybe_view(r) == rule(e@),
                { gnss_entry(disk, e) }),
            Ghost(rule),
        )
    }

    /// The same as the thumbnail listing.
    pub fn list_high_quality(
        &self,
        source_media_location: &str,
        source_media_card: &str,
        known_missing_files: &Vec<String>,
        disk: &Snapshot,
    ) -> (r: Result<Vec<FileItem>, MediaError>)
        ensures
            list_view(r) == filter_dir_spec(*disk, source_media_card@, gnss_rules(*disk)),
    {
        self.list_thumbnail(source_media_location, source_media_card, known_missing_files, disk)
    }

    /// Every format of the track that is on disk, `gpx`, `kml`, then `txt`;
    /// an absent format is no error.
    pub fn get_related(
        &self,
        _source_media_location: &str,
        source_media_file: &str,
        _known_missing_files: &Vec<String>,
        disk: &Snapshot,
    ) -> (r: Result<Vec<FileItem>, MediaError>)
        ensures
            list_view(r) == Ok::<Seq<FileItemView>, (ErrorKind, Seq<char>)>(
                gnss_related(*disk, source_media_file@),
            ),
    {
        let mut items: Vec<FileItem> = Vec::new();
        assert(items_view(items@) =~= Seq::<FileItemView>::empty());
        add_track_file(disk, source_media_file, "gpx", &mut items);
        add_track_file(disk, source_media_file, "kml", &mut items);
        add_track_file(disk, source_media_file, "txt", &mut items);
        assert(items_view(items@) =~= gnss_related(*disk, source_media_file@));
        Ok(items)
    }

    /// The name under which this handler is configured.
    pub fn name(&self) -> (r: &'static str)
        ensures
            r@ == "GNSS-Tracker-Generic"@,
    {
        "GNSS-Tracker-Generic"
    }
}

/// A track is listed in one format only: a `kml` file is passed over where its
/// `gpx` sibling is on disk, and listed where it is not; a `txt` file is passed
/// over where its `gpx` or `kml` sibling is on disk.
pub proof fn lemma_gnss_prefers_better_format(disk: Snapshot, e: DirEntryView, x: Seq<char>)
    requires
        e.ext == Some(x),
    ensures
        lower_of(x) == "kml"@ && on_disk(disk, with_extension_of(e.path, "gpx"@)) ==> gnss_rule(
            disk,
            e,
        ) == Ok::<Option<FileItemView>, (ErrorKind, Seq<char>)>(None),
        lower_of(x) == "kml"@ && !on_disk(disk, with_extension_of(e.path, "gpx"@)) ==> gnss_rule(
            disk,
            e,
        ) == Ok::<Option<FileItemView>, (ErrorKind, Seq<char>)>(
            Some(simple_view(e.path, track_types(), None)),
        ),
        lower_of(x) == "txt"@ && (on_disk(disk, with_extension_of(e.path, "gpx"@)) || on_disk(
            disk,
            with_extension_of(e.path, "kml"@),
        )) ==> gnss_rule(disk, e) == Ok::<Option<FileItemView>, (ErrorKind, Seq<char>)>(None),
        lower_of(x) == "gpx"@ ==> gnss_rule(disk, e) == Ok::<
            Option<FileItemView>,
            (ErrorKind, Seq<char>),
        >(Some(simple_view(e.path, track_types(), None))),
{
    reveal_strlit("gpx");
    reveal_strlit("kml");
    reveal_strlit("txt");
    assert("kml"@ != "gpx"@) by {
        assert("kml"@[0] != "gpx"@[0]);
    }
    assert("txt"@ != "gpx"@) by {
        assert("txt"@[0] != "gpx"@[0]);
    }
    assert("txt"@ != "kml"@) by {
        assert("txt"@[0] != "kml"@[0]);
    }
}


proof fn lemma_track_extensions_plain()
    ensures
        plain_extension("gpx"@),
        plain_extension("kml"@),
        plain_extension("txt"@),
{
    reveal_strlit("gpx");
    reveal_strlit("kml");
    reveal_strlit("txt");
    reveal_with_fuel(last_index_of, 4);
}

/// The track of a file is symmetric: asking again for the track of any file
/// returned for a track file `f` on disk returns the same files, `f` among them.
pub proof fn lemma_gnss_related_round_trip(disk: Snapshot, f: Seq<char>, x: Seq<char>)
    requires
        extension_of(f) == Some(x),
        x == "gpx"@ || x == "kml"@ || x == "txt"@,
        on_disk(disk, f),
    ensures
        forall|i: int|
            0 <= i < gnss_related(disk, f).len() ==> gnss_related(
                disk,
                #[trigger] gnss_related(disk, f)[i].file_path,
            ) == gnss_related(disk, f),
        exists|j: int| 0 <= j < gnss_related(disk, f).len() && gnss_related(disk, f)[j].file_path == f,
{
    lemma_track_extensions_plain();
    assert(file_name_of(f) is Some);
    lemma_with_own_extension(f, x);
    let exts = seq!["gpx"@, "kml"@, "txt"@];
    assert forall|a: int, b: int| 0 <= a < 3 && 0 <= b < 3 implies with_extension_of(
        with_extension_of(f, exts[a]),
        exts[b],
    ) == with_extension_of(f, exts[b]) by {
        lemma_with_extension_twice(f, exts[a], exts[b]);
    }
    let items = gnss_related(disk, f);
    assert forall|i: int| 0 <= i < items.len() implies gnss_related(
        disk,
        #[trigger] items[i].file_path,
    ) == items by {
        let g = items[i].file_path;
        assert(g == with_extension_of(f, exts[0]) || g == with_extension_of(f, exts[1]) || g
            == with_extension_of(f, exts[2]));
        let a = if g == with_extension_of(f, exts[0]) {
            0int
        } else if g == with_extension_of(f, exts[1]) {
            1int
        } else {
            2int
        };
        assert(with_extension_of(g, exts[0]) == with_extension_of(f, exts[0]));
        assert(with_extension_of(g, exts[1]) == with_extension_of(f, exts[1]));
        assert(with_extension_of(g, exts[2]) == with_extension_of(f, exts[2]));
    }
    let a = track_file(disk, f, "gpx"@);
    let b = track_file(disk, f, "kml"@);
    if x == "gpx"@ {
        assert(items[0].file_path == f);
    } else if x == "kml"@ {
        assert(items[a.len() as int].file_path == f);
    } else {
        assert(items[(a.len() + b.len()) as int].file_path == f);
    }
}

} // verus!
