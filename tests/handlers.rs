use media_interface::generic_single_file_items::{generic_filetype, GenericSingleFileItem};
use media_interface::gnss_tracker_generic::{is_track_listed, GNSSTrackerGeneric};
use media_interface::gopro_hero_generic_1::{
    count_gopro_parts, create_gopro_photo_file, create_gopro_video_file, get_gopro_video_part_id,
    GoProInterface, GoProPhotoFileType, GoProVideoFileType,
};
use media_interface::handler::{get_handler, Handler};
use media_interface::helpers::{
    resolve, DiskEntry, ErrorKind, FileItem, FileType, ItemType, Presence, Snapshot,
};
use media_interface::path::{extension, file_name, join, parent, with_extension};
use media_interface::sony_ilcem4_1::{create_video_file, get_video_id, SonyInterface, VideoFiles};

fn snapshot(root: &str, dirs: &[&str], files: &[&str]) -> Snapshot {
    let mut entries = Vec::new();
    for d in dirs {
        entries.push(DiskEntry { path: d.to_string(), is_dir: true });
    }
    for f in files {
        entries.push(DiskEntry { path: f.to_string(), is_dir: false });
    }
    Snapshot { root: root.to_string(), entries }
}

fn strings(v: &[&str]) -> Vec<String> {
    v.iter().map(|s| s.to_string()).collect()
}

fn paths(items: &[FileItem]) -> Vec<String> {
    items.iter().map(|i| i.file_path.clone()).collect()
}

#[test]
fn path_helpers() {
    assert_eq!(file_name("/a/b/c.txt"), Some("c.txt".to_string()));
    assert_eq!(file_name("/"), None);
    assert_eq!(parent("/a/b/c.txt"), Some("/a/b".to_string()));
    assert_eq!(parent("/a"), Some("/".to_string()));
    assert_eq!(parent("/"), None);
    assert_eq!(extension("/a/b/c.tar.gz"), Some("gz".to_string()));
    assert_eq!(extension("/a/.hidden"), None);
    assert_eq!(extension("/a/noext"), None);
    assert_eq!(with_extension("/a/x.kml", "gpx"), "/a/x.gpx");
    assert_eq!(with_extension("/a/x", "gpx"), "/a/x.gpx");
    assert_eq!(join("/a", "b"), "/a/b");
    assert_eq!(join("/a/", "b"), "/a/b");
}

#[test]
fn resolve_is_three_way() {
    let disk = snapshot("/m", &[], &["/m/a"]);
    let km = strings(&["/m/b"]);
    assert_eq!(resolve(&disk, &km, "/m/a"), Presence::Present);
    assert_eq!(resolve(&disk, &km, "/m/b"), Presence::KnownMissing);
    assert_eq!(resolve(&disk, &km, "/m/c"), Presence::Absent);
}

#[test]
fn handler_names_select_handlers() {
    assert!(matches!(get_handler("GoPro-Hero-Generic-1"), Ok(Handler::GoPro(_))));
    assert!(matches!(get_handler("Sony-ILCEM4-1"), Ok(Handler::Sony(_))));
    assert!(matches!(
        get_handler("Generic-Single-File-Items"),
        Ok(Handler::GenericSingleFile(_))
    ));
    assert!(matches!(get_handler("GNSS-Tracker-Generic"), Ok(Handler::GnssTracker(_))));
    let err = get_handler("Nope").err().unwrap();
    assert_eq!(err.kind, ErrorKind::UnknownHandler);
    assert_eq!(err.subject, "Nope");
    assert_eq!(get_handler("Sony-ILCEM4-1").ok().unwrap().name(), "Sony-ILCEM4-1");
}

#[test]
fn file_kind_names() {
    assert_eq!(FileType::FileVideoPreview.name(), "video-preview");
    assert_eq!(FileType::FileGNSSTrack.name(), "gnss-track");
    assert_eq!(ItemType::ItemGNSSTrack.name(), "gnss-track");
    assert_eq!(ItemType::ItemVideo.name(), "video");
}

// ---- generic single-file devices ----

fn generic_card() -> Snapshot {
    snapshot(
        "/m",
        &["/m/card"],
        &["/m/card/a.jpg", "/m/card/b.MP4", "/m/card/c.wav", "/m/card/d.3gpp"],
    )
}

#[test]
fn generic_listings_agree() {
    let disk = generic_card();
    let h = GenericSingleFileItem;
    let low = h.list_thumbnail("/m", "/m/card", &vec![], &disk).ok().unwrap();
    let high = h.list_high_quality("/m", "/m/card", &vec![], &disk).ok().unwrap();
    assert_eq!(low, high);
    assert_eq!(low.len(), 4);
    assert_eq!(low[0].file_type, FileType::FileImage);
    assert_eq!(low[0].part_count, None);
    // the extension is matched in any case
    assert_eq!(low[1].file_type, FileType::FileVideo);
    assert_eq!(low[1].item_type, ItemType::ItemVideo);
    assert_eq!(low[1].part_count, Some(1));
    assert_eq!(low[1].part_num, Some(1));
    assert_eq!(low[2].file_type, FileType::FileAudio);
    assert_eq!(low[3].item_type, ItemType::ItemAudio);
}

#[test]
fn generic_unknown_extension_is_fatal() {
    let disk = snapshot("/m", &["/m/card"], &["/m/card/a.jpg", "/m/card/x.doc"]);
    let err = GenericSingleFileItem.list_thumbnail("/m", "/m/card", &vec![], &disk).err().unwrap();
    assert_eq!(err.kind, ErrorKind::UnknownExtension);
    assert_eq!(err.subject, "doc");
}

#[test]
fn generic_missing_card_is_fatal() {
    let disk = snapshot("/m", &[], &[]);
    let err = GenericSingleFileItem.list_thumbnail("/m", "/m/card", &vec![], &disk).err().unwrap();
    assert_eq!(err.kind, ErrorKind::DirUnreadable);
}

#[test]
fn generic_related_is_the_file_itself() {
    let disk = generic_card();
    let r = GenericSingleFileItem.get_related("/m", "/m/card/a.jpg", &vec![], &disk).ok().unwrap();
    assert_eq!(paths(&r), strings(&["/m/card/a.jpg"]));
    let again = GenericSingleFileItem.get_related("/m", &r[0].file_path, &vec![], &disk).ok().unwrap();
    assert_eq!(paths(&again), strings(&["/m/card/a.jpg"]));
    let err = GenericSingleFileItem.get_related("/m", "/m/card/noext", &vec![], &disk).err().unwrap();
    assert_eq!(err.kind, ErrorKind::NoExtension);
}

#[test]
fn generic_filetype_table() {
    assert_eq!(generic_filetype("png").unwrap().file_type, FileType::FileImage);
    assert_eq!(generic_filetype("3gpp").unwrap().item_type, ItemType::ItemAudio);
    assert!(generic_filetype("PNG").is_none());
}

// ---- GNSS loggers ----

#[test]
fn gnss_lists_preferred_format() {
    let disk = snapshot(
        "/m",
        &["/m/card"],
        &["/m/card/t1.gpx", "/m/card/t1.kml", "/m/card/t2.kml", "/m/card/t2.txt", "/m/card/t3.txt"],
    );
    let low = GNSSTrackerGeneric.list_thumbnail("/m", "/m/card", &vec![], &disk).ok().unwrap();
    assert_eq!(paths(&low), strings(&["/m/card/t1.gpx", "/m/card/t2.kml", "/m/card/t3.txt"]));
    assert!(low.iter().all(|i| i.file_type == FileType::FileGNSSTrack
        && i.item_type == ItemType::ItemGNSSTrack));
    let high = GNSSTrackerGeneric.list_high_quality("/m", "/m/card", &vec![], &disk).ok().unwrap();
    assert_eq!(low, high);
}

#[test]
fn gnss_extension_in_any_case() {
    let disk = snapshot("/m", &["/m/card"], &["/m/card/T.GPX"]);
    let low = GNSSTrackerGeneric.list_thumbnail("/m", "/m/card", &vec![], &disk).ok().unwrap();
    assert_eq!(paths(&low), strings(&["/m/card/T.GPX"]));
}

#[test]
fn gnss_unknown_extension_is_fatal() {
    let disk = snapshot("/m", &["/m/card"], &["/m/card/t.csv"]);
    let err = GNSSTrackerGeneric.list_thumbnail("/m", "/m/card", &vec![], &disk).err().unwrap();
    assert_eq!(err.kind, ErrorKind::UnknownExtension);
    assert_eq!(err.subject, "/m/card/t.csv");
}

#[test]
fn gnss_related_lists_every_format() {
    let disk = snapshot("/m", &["/m/card"], &["/m/card/t1.gpx", "/m/card/t1.txt"]);
    let r = GNSSTrackerGeneric.get_related("/m", "/m/card/t1.txt", &vec![], &disk).ok().unwrap();
    assert_eq!(paths(&r), strings(&["/m/card/t1.gpx", "/m/card/t1.txt"]));
    for f in paths(&r) {
        let back = GNSSTrackerGeneric.get_related("/m", &f, &vec![], &disk).ok().unwrap();
        assert!(paths(&back).contains(&"/m/card/t1.txt".to_string()));
    }
}

// ---- GoPro ----

#[test]
fn gopro_names() {
    assert_eq!(get_gopro_video_part_id("GH03XYZ.MP4").ok(), Some(3));
    assert_eq!(get_gopro_video_part_id("GH+7XYZ.MP4").ok(), Some(7));
    assert_eq!(get_gopro_video_part_id("GHxxXYZ.MP4").err().unwrap().kind, ErrorKind::BadPartId);
    assert_eq!(
        create_gopro_video_file("/c/GH01XYZ.MP4", 12, GoProVideoFileType::LowBitrateVideo).ok(),
        Some("/c/GL12XYZ.LRV".to_string())
    );
    assert_eq!(
        create_gopro_video_file("/c/GX01XYZ.MP4", 2, GoProVideoFileType::ThumbnailPhotoOfH265Video).ok(),
        Some("/c/GX02XYZ.THM".to_string())
    );
    assert_eq!(
        create_gopro_video_file("/c/GH01.MP4", 1, GoProVideoFileType::WavAudio).err().unwrap().kind,
        ErrorKind::NameTooShort
    );
    assert_eq!(
        create_gopro_photo_file("/c/GOPR0001.JPG", GoProPhotoFileType::RawPhoto).ok(),
        Some("/c/GOPR0001.GPR".to_string())
    );
}

#[test]
fn gopro_counts_parts() {
    let disk = snapshot("/m", &["/m/card"], &["/m/card/GH01XYZ.MP4", "/m/card/GX02XYZ.MP4"]);
    let km = strings(&["/m/card/GH03XYZ.MP4", "/m/card/GX03XYZ.MP4"]);
    let c = count_gopro_parts("/m/card/GH01XYZ.MP4", &km, &disk).ok().unwrap();
    assert_eq!(c.existing_parts_count, 2);
    assert_eq!(c.all_parts_count, 3);
}

#[test]
fn gopro_count_needs_first_part() {
    let disk = snapshot("/m", &["/m/card"], &["/m/card/GH02XYZ.MP4"]);
    let err = count_gopro_parts("/m/card/GH02XYZ.MP4", &vec![], &disk).err().unwrap();
    assert_eq!(err.kind, ErrorKind::InitialPartMissing);
    assert_eq!(err.subject, "/m/card/GH01XYZ.MP4");
}

#[test]
fn gopro_both_codecs_is_fatal() {
    let disk = snapshot(
        "/m",
        &["/m/card"],
        &["/m/card/GH01XYZ.MP4", "/m/card/GX01XYZ.MP4", "/m/card/GL01XYZ.LRV", "/m/card/GH01XYZ.THM"],
    );
    let err = GoProInterface.get_related("/m", "/m/card/GH01XYZ.MP4", &vec![], &disk).err().unwrap();
    assert_eq!(err.kind, ErrorKind::VideoCodecConflict);
}

#[test]
fn gopro_missing_preview_is_fatal() {
    let disk = snapshot("/m", &["/m/card"], &["/m/card/GH01XYZ.MP4", "/m/card/GH01XYZ.THM"]);
    let err = GoProInterface.get_related("/m", "/m/card/GH01XYZ.MP4", &vec![], &disk).err().unwrap();
    assert_eq!(err.kind, ErrorKind::MissingPreview);
    assert_eq!(err.subject, "/m/card/GL01XYZ.LRV");
}

#[test]
fn gopro_thumbnail_codec_conflict_is_fatal() {
    let disk = snapshot("/m", &["/m/card"], &["/m/card/GH01XYZ.MP4", "/m/card/GL01XYZ.LRV"]);
    let err = GoProInterface.get_related("/m", "/m/card/GH01XYZ.MP4", &vec![], &disk).err().unwrap();
    assert_eq!(err.kind, ErrorKind::ThumbnailCodecConflict);
}

#[test]
fn gopro_later_thumbnail_stands_in_for_missing_parts() {
    let disk = snapshot("/m", &["/m/card"], &["/m/card/GH03XYZ.THM", "/m/card/GH03XYZ.MP4"]);
    let km = strings(&["/m/card/GL01XYZ.LRV", "/m/card/GL02XYZ.LRV"]);
    let low = GoProInterface.list_thumbnail("/m", "/m/card", &km, &disk).ok().unwrap();
    assert_eq!(paths(&low), strings(&["/m/card/GH03XYZ.THM"]));
    assert_eq!(low[0].file_type, FileType::FileImagePreview);
    assert_eq!(low[0].part_count, None);
    assert_eq!(low[0].metadata_file, Some("/m/card/GH03XYZ.MP4".to_string()));

    let km = strings(&["/m/card/GL02XYZ.LRV"]);
    let low = GoProInterface.list_thumbnail("/m", "/m/card", &km, &disk).ok().unwrap();
    assert!(low.is_empty());
}

#[test]
fn gopro_thumbnail_listing() {
    let disk = snapshot(
        "/m",
        &["/m/card"],
        &[
            "/m/card/GH01XYZ.MP4",
            "/m/card/GL01XYZ.LRV",
            "/m/card/GH01XYZ.THM",
            "/m/card/GH02XYZ.THM",
            "/m/card/GOPR0001.JPG",
            "/m/card/GOPR0001.GPR",
            "/m/card/GX01ABC.WAV",
        ],
    );
    let low = GoProInterface.list_thumbnail("/m", "/m/card", &vec![], &disk).ok().unwrap();
    assert_eq!(paths(&low), strings(&["/m/card/GH01XYZ.THM", "/m/card/GOPR0001.JPG"]));
    assert_eq!(low[1].file_type, FileType::FileImage);
}

#[test]
fn gopro_unexpected_file_is_fatal() {
    let disk = snapshot("/m", &["/m/card"], &["/m/card/notes.txt"]);
    let err = GoProInterface.list_thumbnail("/m", "/m/card", &vec![], &disk).err().unwrap();
    assert_eq!(err.kind, ErrorKind::UnexpectedFile);
    let err = GoProInterface.list_high_quality("/m", "/m/card", &vec![], &disk).err().unwrap();
    assert_eq!(err.kind, ErrorKind::UnexpectedFile);
}

#[test]
fn gopro_high_quality_listing() {
    let disk = snapshot(
        "/m",
        &["/m/card"],
        &[
            "/m/card/GH01XYZ.MP4",
            "/m/card/GH02XYZ.MP4",
            "/m/card/GOPR0001.JPG",
            "/m/card/GOPR0001.GPR",
            "/m/card/GOPR0002.JPG",
        ],
    );
    let high = GoProInterface.list_high_quality("/m", "/m/card", &vec![], &disk).ok().unwrap();
    assert_eq!(
        paths(&high),
        strings(&["/m/card/GH01XYZ.MP4", "/m/card/GOPR0001.GPR", "/m/card/GOPR0002.JPG"])
    );
    assert_eq!(high[0].part_count, Some(2));
    assert_eq!(high[0].part_num, Some(1));
    assert_eq!(high[0].metadata_file, Some("/m/card/GH01XYZ.MP4".to_string()));
    assert_eq!(high[1].file_type, FileType::FileImageRaw);
}

#[test]
fn gopro_high_quality_later_part_with_earlier_declared_missing() {
    let disk = snapshot("/m", &["/m/card"], &["/m/card/GX02XYZ.MP4"]);
    let km = strings(&["/m/card/GX01XYZ.MP4"]);
    let high = GoProInterface.list_high_quality("/m", "/m/card", &km, &disk).ok().unwrap();
    assert_eq!(paths(&high), strings(&["/m/card/GX02XYZ.MP4"]));
    assert_eq!(high[0].part_count, Some(1));
    let high = GoProInterface.list_high_quality("/m", "/m/card", &vec![], &disk).ok().unwrap();
    assert!(high.is_empty());
}

#[test]
fn gopro_single_part_video_related() {
    let disk = snapshot(
        "/m",
        &["/m/card"],
        &["/m/card/GH01XYZ.MP4", "/m/card/GL01XYZ.LRV", "/m/card/GH01XYZ.THM"],
    );
    let r = GoProInterface.get_related("/m", "/m/card/GH01XYZ.MP4", &vec![], &disk).ok().unwrap();
    assert_eq!(
        paths(&r),
        strings(&["/m/card/GH01XYZ.MP4", "/m/card/GL01XYZ.LRV", "/m/card/GH01XYZ.THM"])
    );
    assert_eq!(r[0].file_type, FileType::FileVideo);
    assert_eq!(r[1].file_type, FileType::FileVideoPreview);
    assert_eq!(r[2].file_type, FileType::FileImagePreview);
    for item in &r {
        assert_eq!(item.item_type, ItemType::ItemVideo);
        assert_eq!(item.part_count, Some(1));
        assert_eq!(item.part_num, Some(1));
    }
    for f in paths(&r) {
        let back = GoProInterface.get_related("/m", &f, &vec![], &disk).ok().unwrap();
        assert!(paths(&back).contains(&"/m/card/GH01XYZ.MP4".to_string()));
    }
}

#[test]
fn gopro_multi_part_numbering_skips_declared_parts() {
    let disk = snapshot(
        "/m",
        &["/m/card"],
        &[
            "/m/card/GX01XYZ.MP4",
            "/m/card/GL01XYZ.LRV",
            "/m/card/GX01XYZ.THM",
            "/m/card/GX01XYZ.WAV",
            "/m/card/GX03XYZ.MP4",
            "/m/card/GL03XYZ.LRV",
            "/m/card/GX03XYZ.THM",
        ],
    );
    let km = strings(&["/m/card/GX02XYZ.MP4", "/m/card/GL02XYZ.LRV", "/m/card/GX02XYZ.THM"]);
    let r = GoProInterface.get_related("/m", "/m/card/GX03XYZ.THM", &km, &disk).ok().unwrap();
    assert_eq!(r.len(), 7);
    assert_eq!(r[3].file_path, "/m/card/GX01XYZ.WAV");
    assert_eq!(r[3].file_type, FileType::FileAudio);
    assert!(r[..4].iter().all(|i| i.part_num == Some(1) && i.part_count == Some(2)));
    assert!(r[4..].iter().all(|i| i.part_num == Some(2) && i.part_count == Some(2)));
}

#[test]
fn gopro_photo_related() {
    let disk = snapshot("/m", &["/m/card"], &["/m/card/GOPR0001.JPG", "/m/card/GOPR0001.GPR"]);
    let r = GoProInterface.get_related("/m", "/m/card/GOPR0001.GPR", &vec![], &disk).ok().unwrap();
    assert_eq!(paths(&r), strings(&["/m/card/GOPR0001.JPG", "/m/card/GOPR0001.GPR"]));
    assert_eq!(r[0].item_type, ItemType::ItemImage);
    let err = GoProInterface.get_related("/m", "/m/card/x.txt", &vec![], &disk).err().unwrap();
    assert_eq!(err.kind, ErrorKind::UnexpectedFile);
}

// ---- Sony ----

fn sony_card(extra: &[&str]) -> Snapshot {
    let mut files = vec![
        "/m/card/DCIM/100MSDCF/IMG001.ARW",
        "/m/card/DCIM/100MSDCF/IMG001.JPG",
        "/m/card/DCIM/100MSDCF/IMG002.ARW",
        "/m/card/PRIVATE/M4ROOT/CLIP/C0001.MP4",
        "/m/card/PRIVATE/M4ROOT/CLIP/C0001M01.XML",
    ];
    files.extend_from_slice(extra);
    snapshot(
        "/m",
        &[
            "/m/card",
            "/m/card/DCIM",
            "/m/card/DCIM/100MSDCF",
            "/m/card/PRIVATE",
            "/m/card/PRIVATE/M4ROOT",
            "/m/card/PRIVATE/M4ROOT/CLIP",
            "/m/card/PRIVATE/M4ROOT/THMBNL",
        ],
        &files,
    )
}

#[test]
fn sony_raw_preference_by_fidelity() {
    let disk = sony_card(&["/m/card/PRIVATE/M4ROOT/THMBNL/C0001T01.JPG"]);
    let low = SonyInterface.list_thumbnail("/m", "/m/card", &vec![], &disk).ok().unwrap();
    assert_eq!(
        paths(&low),
        strings(&[
            "/m/card/DCIM/100MSDCF/IMG001.JPG",
            "/m/card/DCIM/100MSDCF/IMG002.ARW",
            "/m/card/PRIVATE/M4ROOT/THMBNL/C0001T01.JPG",
        ])
    );
    assert_eq!(low[2].file_type, FileType::FileImagePreview);
    assert_eq!(low[2].part_num, Some(1));
    let high = SonyInterface.list_high_quality("/m", "/m/card", &vec![], &disk).ok().unwrap();
    assert_eq!(
        paths(&high),
        strings(&[
            "/m/card/DCIM/100MSDCF/IMG001.ARW",
            "/m/card/DCIM/100MSDCF/IMG002.ARW",
            "/m/card/PRIVATE/M4ROOT/CLIP/C0001.MP4",
        ])
    );
    assert_eq!(high[0].file_type, FileType::FileImageRaw);
    assert_eq!(high[2].file_type, FileType::FileVideo);
}

#[test]
fn sony_path_outside_base_is_rejected() {
    let disk = sony_card(&[]);
    let err = SonyInterface
        .get_related("/other", "/m/card/DCIM/100MSDCF/IMG001.ARW", &vec![], &disk)
        .err()
        .unwrap();
    assert_eq!(err.kind, ErrorKind::NotInExpectedStructure);
    let err = SonyInterface
        .get_related("/m", "/m/card/DCIM/100ABCDE/IMG001.ARW", &vec![], &disk)
        .err()
        .unwrap();
    assert_eq!(err.kind, ErrorKind::NotInExpectedStructure);
}

#[test]
fn sony_photo_related() {
    let disk = sony_card(&[]);
    let r = SonyInterface
        .get_related("/m", "/m/card/DCIM/100MSDCF/IMG001.JPG", &vec![], &disk)
        .ok()
        .unwrap();
    assert_eq!(
        paths(&r),
        strings(&["/m/card/DCIM/100MSDCF/IMG001.ARW", "/m/card/DCIM/100MSDCF/IMG001.JPG"])
    );
}

#[test]
fn sony_video_related() {
    let disk = sony_card(&["/m/card/PRIVATE/M4ROOT/THMBNL/C0001T01.JPG"]);
    let r = SonyInterface
        .get_related("/m", "/m/card/PRIVATE/M4ROOT/THMBNL/C0001T01.JPG", &vec![], &disk)
        .ok()
        .unwrap();
    assert_eq!(
        paths(&r),
        strings(&[
            "/m/card/PRIVATE/M4ROOT/CLIP/C0001M01.XML",
            "/m/card/PRIVATE/M4ROOT/CLIP/C0001.MP4",
            "/m/card/PRIVATE/M4ROOT/THMBNL/C0001T01.JPG",
        ])
    );
    assert_eq!(r[0].file_type, FileType::FileMetadata);
    for f in paths(&r) {
        let back = SonyInterface.get_related("/m", &f, &vec![], &disk).ok().unwrap();
        assert_eq!(paths(&back), paths(&r));
    }
}

#[test]
fn sony_video_missing_thumbnail() {
    let disk = sony_card(&[]);
    let err = SonyInterface
        .get_related("/m", "/m/card/PRIVATE/M4ROOT/CLIP/C0001.MP4", &vec![], &disk)
        .err()
        .unwrap();
    assert_eq!(err.kind, ErrorKind::ExpectedToExist);
    assert_eq!(err.subject, "/m/card/PRIVATE/M4ROOT/THMBNL/C0001T01.JPG");
    let km = strings(&["/m/card/PRIVATE/M4ROOT/THMBNL/C0001T01.JPG"]);
    let r = SonyInterface
        .get_related("/m", "/m/card/PRIVATE/M4ROOT/CLIP/C0001.MP4", &km, &disk)
        .ok()
        .unwrap();
    assert_eq!(r.len(), 2);
}

#[test]
fn sony_names() {
    assert_eq!(get_video_id("/m/card/PRIVATE/M4ROOT/CLIP/C0042.MP4").ok(), Some("0042".to_string()));
    assert_eq!(
        create_video_file("/m/card/PRIVATE/M4ROOT/CLIP/C0042.MP4", "0042", VideoFiles::Thumbnail).ok(),
        Some("/m/card/PRIVATE/M4ROOT/THMBNL/C0042T01.JPG".to_string())
    );
}

#[test]
fn dispatch_matches_handlers() {
    let disk = generic_card();
    let h = get_handler("Generic-Single-File-Items").ok().unwrap();
    let a = h.list_thumbnail("/m", "/m/card", &vec![], &disk).ok().unwrap();
    let b = GenericSingleFileItem.list_thumbnail("/m", "/m/card", &vec![], &disk).ok().unwrap();
    assert_eq!(a, b);
}

#[test]
fn gnss_listing_decision() {
    let disk = snapshot("/m", &["/m/card"], &["/m/card/t.gpx", "/m/card/t.kml", "/m/card/u.kml"]);
    assert_eq!(is_track_listed(&disk, "/m/card/t.kml", "kml"), Some(false));
    assert_eq!(is_track_listed(&disk, "/m/card/u.kml", "kml"), Some(true));
    assert_eq!(is_track_listed(&disk, "/m/card/t.txt", "txt"), Some(false));
    assert_eq!(is_track_listed(&disk, "/m/card/t.gpx", "gpx"), Some(true));
    assert_eq!(is_track_listed(&disk, "/m/card/t.GPX", "GPX"), None);
}
