//! The handlers, selected by the name under which a card is configured.
use vstd::prelude::*;
use crate::path::str_eq;
use crate::helpers::{
    filter_dir_spec, list_view, media_error, ErrorKind, FileItem, FileItemView, MediaError,
    Snapshot,
};
use crate::gopro_hero_generic_1::{
    gopro_high_quality_rules, gopro_related, gopro_thumbnail_rules, GoProInterface,
};
use crate::sony_ilcem4_1::{
    album_rules, sony_listing, sony_related, video_dir_rules, SonyInterface,
};
use crate::generic_single_file_items::{
    generic_high_quality, generic_related, generic_thumbnails, GenericSingleFileItem,
};
use crate::gnss_tracker_generic::{gnss_related, gnss_rules, GNSSTrackerGeneric};

verus! {

/// One of the device handlers.
pub enum Handler {
    GoPro(GoProInterface),
    Sony(SonyInterface),
    GenericSingleFile(GenericSingleFileItem),
    GnssTracker(GNSSTrackerGeneric),
}

/// The handler configured under `id`.
pub fn get_handler(id: &str) -> (r: Result<Handler, MediaError>)
    ensures
        r matches Ok(Handler::GoPro(_)) <==> id@ == "GoPro-Hero-Generic-1"@,
        r matches Ok(Handler::Sony(_)) <==> id@ == "Sony-ILCEM4-1"@,
        r matches Ok(Handler::GenericSingleFile(_)) <==> id@ == "Generic-Single-File-Items"@,
        r matches Ok(Handler::GnssTracker(_)) <==> id@ == "GNSS-Tracker-Generic"@,
        r matches Err(e) ==> e@ == (ErrorKind::UnknownHandler, id@),
{
    proof {
        reveal_strlit("GoPro-Hero-Generic-1");
        reveal_strlit("Sony-ILCEM4-1");
        reveal_strlit("Generic-Single-File-Items");
        reveal_strlit("GNSS-Tracker-Generic");
        assert("GoPro-Hero-Generic-1"@[0] != "Sony-ILCEM4-1"@[0]);
        assert("GoPro-Hero-Generic-1"@[1] != "Generic-Single-File-Items"@[1]);
        assert("GoPro-Hero-Generic-1"@[1] != "GNSS-Tracker-Generic"@[1]);
        assert("Sony-ILCEM4-1"@[0] != "Generic-Single-File-Items"@[0]);
        assert("Sony-ILCEM4-1"@[0] != "GNSS-Tracker-Generic"@[0]);
        assert("Generic-Single-File-Items"@[1] != "GNSS-Tracker-Generic"@[1]);
    }
    let gopro = GoProInterface;
    if str_eq(id, gopro.name()) {
        return Ok(Handler::GoPro(gopro));
    }
    let sony = SonyInterface;
    if str_eq(id, sony.name()) {
        return Ok(Handler::Sony(sony));
    }
    let generic = GenericSingleFileItem;
    if str_eq(id, generic.name()) {
        return Ok(Handler::GenericSingleFile(generic));
    }
    let gnss = GNSSTrackerGeneric;
    if str_eq(id, gnss.name()) {
        return Ok(Handler::GnssTracker(gnss));
    }
    Err(media_error(ErrorKind::UnknownHandler, id))
}

/// The thumbnail listing of `card` by handler `h`.
pub open spec fn thumbnails_by(
    h: Handler,
    base: Seq<char>,
    card: Seq<char>,
    km: Seq<String>,
    disk: Snapshot,
) -> Result<Seq<FileItemView>, (ErrorKind, Seq<char>)> {
    match h {
        Handler::GoPro(_) => filter_dir_spec(disk, card, gopro_thumbnail_rules(disk, km)),
        Handler::Sony(_) => sony_listing(
            disk,
            card,
            album_rules(disk, base, "JPG"@, "ARW"@),
            "PRIVATE/M4ROOT/THMBNL"@,
            video_dir_rules(base, "JPG"@, None),
        ),
        Handler::GenericSingleFile(_) => generic_thumbnails(disk, card),
        Handler::GnssTracker(_) => filter_dir_spec(disk, card, gnss_rules(disk)),
    }
}

/// The high-quality listing of `card` by handler `h`.
pub open spec fn high_quality_by(
    h: Handler,
    base: Seq<char>,
    card: Seq<char>,
    km: Seq<String>,
    disk: Snapshot,
) -> Result<Seq<FileItemView>, (ErrorKind, Seq<char>)> {
    match h {
        Handler::GoPro(_) => filter_dir_spec(disk, card, gopro_high_quality_rules(disk, km)),
        Handler::Sony(_) => sony_listing(
            disk,
            card,
            album_rules(disk, base, "ARW"@, "JPG"@),
            "PRIVATE/M4ROOT/CLIP"@,
            video_dir_rules(base, "MP4"@, Some("XML"@)),
        ),
        Handler::GenericSingleFile(_) => generic_high_quality(disk, card),
        Handler::GnssTracker(_) => filter_dir_spec(disk, card, gnss_rules(disk)),
    }
}

/// The files of the item of `file` by handler `h`.
pub open spec fn related_by(
    h: Handler,
    base: Seq<char>,
    file: Seq<char>,
    km: Seq<String>,
    disk: Snapshot,
) -> Result<Seq<FileItemView>, (ErrorKind, Seq<char>)> {
    match h {
        Handler::GoPro(_) => gopro_related(disk, km, file),
        Handler::Sony(_) => sony_related(disk, km, base, file),
        Handler::GenericSingleFile(_) => generic_related(file),
        Handler::GnssTracker(_) => Ok(gnss_related(disk, file)),
    }
}

impl Handler {
    /// One record per item of `source_media_card`, at the lowest fidelity.
    pub fn list_thumbnail(
        &self,
        source_media_location: &str,
        source_media_card: &str,
        known_missing_files: &Vec<String>,
        disk: &Snapshot,
    ) -> (r: Result<Vec<FileItem>, MediaError>)
        ensures
            list_view(r) == thumbnails_by(
                *self,
                source_media_location@,
                source_media_card@,
                known_missing_files@,
                *disk,
            ),
    {
        match self {
            Handler::GoPro(h) => h.list_thumbnail(
                source_media_location,
                source_media_card,
                known_missing_files,
                disk,
            ),
            Handler::Sony(h) => h.list_thumbnail(
                source_media_location,
                source_media_card,
                known_missing_files,
                disk,
            ),
            Handler::GenericSingleFile(h) => h.list_thumbnail(
                source_media_location,
                source_media_card,
                known_missing_files,
                disk,
            ),
            Handler::GnssTracker(h) => h.list_thumbnail(
                source_media_location,
                source_media_card,
                known_missing_files,
                disk,
            ),
        }
    }

    /// One record per item of `source_media_card`, at the highest fidelity.
    pub fn list_high_quality(
        &self,
        source_media_location: &str,
        source_media_card: &str,
        known_missing_files: &Vec<String>,
        disk: &Snapshot,
    ) -> (r: Result<Vec<FileItem>, MediaError>)
        ensures
            list_view(r) == high_quality_by(
                *self,
                source_media_location@,
                source_media_card@,
                known_missing_files@,
                *disk,
            ),
    {
        match self {
            Handler::GoPro(h) => h.list_high_quality(
                source_media_location,
                source_media_card,
                known_missing_files,
                disk,
            ),
            Handler::Sony(h) => h.list_high_quality(
                source_media_location,
                source_media_card,
                known_missing_files,
                disk,
            ),
            Handler::GenericSingleFile(h) => h.list_high_quality(
                source_media_location,
                source_media_card,
                known_missing_files,
                disk,
            ),
            Handler::GnssTracker(h) => h.list_high_quality(
                source_media_location,
                source_media_card,
                known_missing_files,
                disk,
            ),
        }
    }

    /// Every file of the item that `source_media_file` belongs to.
    pub fn get_related(
        &self,
        source_media_location: &str,
        source_media_file: &str,
        known_missing_files: &Vec<String>,
        disk: &Snapshot,
    ) -> (r: Result<Vec<FileItem>, MediaError>)
        ensures
            list_view(r) == related_by(
                *self,
                source_media_location@,
                source_media_file@,
                known_missing_files@,
                *disk,
            ),
    {
        match self {
            Handler::GoPro(h) => h.get_related(
                source_media_location,
                source_media_file,
                known_missing_files,
                disk,
            ),
            Handler::Sony(h) => h.get_related(
                source_media_location,
                source_media_file,
                known_missing_files,
                disk,
            ),
            Handler::GenericSingleFile(h) => h.get_related(
                source_media_location,
                source_media_file,
                known_missing_files,
                disk,
            ),
            Handler::GnssTracker(h) => h.get_related(
                source_media_location,
                source_media_file,
                known_missing_files,
                disk,
            ),
        }
    }

    /// The name under which this handler is configured.
    pub fn name(&self) -> (r: &'static str)
        ensures
            r@ == match *self {
                Handler::GoPro(_) => "GoPro-Hero-Generic-1"@,
                Handler::Sony(_) => "Sony-ILCEM4-1"@,
                Handler::GenericSingleFile(_) => "Generic-Single-File-Items"@,
                Handler::GnssTracker(_) => "GNSS-Tracker-Generic"@,
            },
    {
        match self {
            Handler::GoPro(h) => h.name(),
            Handler::Sony(h) => h.name(),
            Handler::GenericSingleFile(h) => h.name(),
            Handler::GnssTracker(h) => h.name(),
        }
    }
}

} // verus!
