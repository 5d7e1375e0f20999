use quicktag::record::QuickTag;
use quicktag::record::QuickTagFile;
use quicktag::record::ScanEntry;
use quicktag::tag::AudioFileFormat;
use quicktag::tag::Field;
use quicktag::tag::Tag;
use quicktag::tag::TagData;

fn strings(values: &[&str]) -> Vec<String> {
    values.iter().map(|s| s.to_string()).collect()
}

fn data_with_fields(fields: Vec<(Field, Vec<String>)>) -> TagData {
    TagData { fields, rating: None, date: None, tag_entries: Vec::new() }
}

fn tag_with_fields(fields: Vec<(Field, Vec<String>)>) -> Tag {
    Tag { format: AudioFileFormat::Mp3, data: Some(data_with_fields(fields)) }
}

fn minimal_tag() -> Tag {
    tag_with_fields(vec![
        (Field::Title, strings(&["Song"])),
        (Field::Artist, strings(&[])),
    ])
}

#[test]
fn full_record_is_mapped() {
    let mut data = data_with_fields(vec![
        (Field::Title, strings(&["Song", "Alt Title"])),
        (Field::Artist, strings(&["A", "B"])),
        (Field::Genre, strings(&["House"])),
        (Field::BPM, strings(&["128"])),
    ]);
    data.rating = Some(4);
    data.date = Some("2001-02-03".to_string());
    data.tag_entries = vec![("TIT2".to_string(), strings(&["Song"]))];
    let tag = Tag { format: AudioFileFormat::Flac, data: Some(data) };
    let q = QuickTagFile::from_tag("/music/a.flac", &tag).expect("record");
    assert_eq!(q.path, "/music/a.flac");
    assert_eq!(q.format, AudioFileFormat::Flac);
    assert_eq!(q.title, "Song");
    assert_eq!(q.artists, strings(&["A", "B"]));
    assert_eq!(q.genres, strings(&["House"]));
    assert_eq!(q.release_date, Some("2001-02-03".to_string()));
    assert_eq!(q.bpm, Some(128));
    assert_eq!(q.rating, 4);
    assert_eq!(q.tags, vec![("TIT2".to_string(), strings(&["Song"]))]);
}

#[test]
fn no_tag_data_gives_no_record() {
    let tag = Tag { format: AudioFileFormat::Mp3, data: None };
    assert!(QuickTagFile::from_tag("a.mp3", &tag).is_none());
}

#[test]
fn missing_title_gives_no_record() {
    let tag = tag_with_fields(vec![(Field::Artist, strings(&["A"]))]);
    assert!(QuickTagFile::from_tag("a.mp3", &tag).is_none());
}

#[test]
fn empty_title_gives_no_record() {
    let tag = tag_with_fields(vec![
        (Field::Title, strings(&[])),
        (Field::Artist, strings(&["A"])),
    ]);
    assert!(QuickTagFile::from_tag("a.mp3", &tag).is_none());
}

#[test]
fn missing_artist_gives_no_record() {
    let tag = tag_with_fields(vec![(Field::Title, strings(&["Song"]))]);
    assert!(QuickTagFile::from_tag("a.mp3", &tag).is_none());
}

#[test]
fn minimal_fields_give_record_with_defaults() {
    let q = QuickTagFile::from_tag("a.mp3", &minimal_tag()).expect("record");
    assert_eq!(q.title, "Song");
    assert_eq!(q.artists, Vec::<String>::new());
    assert_eq!(q.genres, Vec::<String>::new());
    assert_eq!(q.bpm, None);
    assert_eq!(q.rating, 0);
    assert_eq!(q.release_date, None);
    assert_eq!(q.tags, Vec::new());
}

#[test]
fn unparseable_bpm_is_absent() {
    let tag = tag_with_fields(vec![
        (Field::Title, strings(&["Song"])),
        (Field::Artist, strings(&["A"])),
        (Field::BPM, strings(&["abc"])),
    ]);
    let q = QuickTagFile::from_tag("a.mp3", &tag).expect("record");
    assert_eq!(q.bpm, None);
}

#[test]
fn numeric_bpm_is_parsed() {
    let tag = tag_with_fields(vec![
        (Field::Title, strings(&["Song"])),
        (Field::Artist, strings(&["A"])),
        (Field::BPM, strings(&["128"])),
    ]);
    let q = QuickTagFile::from_tag("a.mp3", &tag).expect("record");
    assert_eq!(q.bpm, Some(128));
}

#[test]
fn bpm_with_no_values_is_absent() {
    let tag = tag_with_fields(vec![
        (Field::Title, strings(&["Song"])),
        (Field::Artist, strings(&["A"])),
        (Field::BPM, strings(&[])),
    ]);
    let q = QuickTagFile::from_tag("a.mp3", &tag).expect("record");
    assert_eq!(q.bpm, None);
}

#[test]
fn first_field_entry_wins() {
    let tag = tag_with_fields(vec![
        (Field::Title, strings(&["First"])),
        (Field::Title, strings(&["Second"])),
        (Field::Artist, strings(&["A"])),
    ]);
    let q = QuickTagFile::from_tag("a.mp3", &tag).expect("record");
    assert_eq!(q.title, "First");
}

#[test]
fn tags_reflect_full_raw_map() {
    let raw = vec![
        ("TIT2".to_string(), strings(&["Song"])),
        ("TPE1".to_string(), strings(&["A", "B"])),
        ("COMM".to_string(), strings(&[])),
    ];
    let mut data = data_with_fields(vec![
        (Field::Title, strings(&["Song"])),
        (Field::Artist, strings(&["A", "B"])),
    ]);
    data.tag_entries = raw.clone();
    let tag = Tag { format: AudioFileFormat::Ogg, data: Some(data) };
    let q = QuickTagFile::from_tag("a.ogg", &tag).expect("record");
    assert_eq!(q.tags, raw);
}

#[test]
fn from_path_without_decode_gives_no_record() {
    assert!(QuickTagFile::from_path("broken.mp3", None).is_none());
}

#[test]
fn from_path_maps_decoded_tag() {
    let tag = minimal_tag();
    let q = QuickTagFile::from_path("a.mp3", Some(&tag)).expect("record");
    assert_eq!(q.path, "a.mp3");
    assert_eq!(q.title, "Song");
}

#[test]
fn directories_only_scan_is_empty() {
    let entries = vec![ScanEntry::Directory, ScanEntry::Directory];
    let (records, failures) = QuickTag::load_files(&entries);
    assert!(records.is_empty());
    assert!(failures.is_empty());
}

#[test]
fn empty_directory_scan_is_empty() {
    let (records, failures) = QuickTag::load_files(&Vec::new());
    assert!(records.is_empty());
    assert!(failures.is_empty());
}

#[test]
fn unreadable_entries_are_skipped_silently() {
    let entries = vec![
        ScanEntry::Unreadable,
        ScanEntry::File { path: "a.mp3".to_string(), decoded: Some(minimal_tag()) },
        ScanEntry::Unreadable,
    ];
    let (records, failures) = QuickTag::load_files(&entries);
    assert_eq!(records.len(), 1);
    assert!(failures.is_empty());
}

#[test]
fn failing_files_are_reported_not_fatal() {
    let entries = vec![
        ScanEntry::File { path: "good.mp3".to_string(), decoded: Some(minimal_tag()) },
        ScanEntry::File { path: "bad.mp3".to_string(), decoded: None },
        ScanEntry::Directory,
        ScanEntry::File {
            path: "untitled.mp3".to_string(),
            decoded: Some(tag_with_fields(vec![(Field::Artist, strings(&["A"]))])),
        },
    ];
    let (records, failures) = QuickTag::load_files(&entries);
    assert_eq!(records.len(), 1);
    assert_eq!(records[0].path, "good.mp3");
    assert_eq!(failures, strings(&["bad.mp3", "untitled.mp3"]));
}

#[test]
fn all_files_converting_report_no_failures() {
    let entries = vec![
        ScanEntry::File { path: "a.mp3".to_string(), decoded: Some(minimal_tag()) },
        ScanEntry::File { path: "b.mp3".to_string(), decoded: Some(minimal_tag()) },
        ScanEntry::File { path: "c.mp3".to_string(), decoded: Some(minimal_tag()) },
    ];
    let (records, failures) = QuickTag::load_files(&entries);
    assert_eq!(records.len(), 3);
    assert_eq!(failures.len(), 0);
    let paths: Vec<String> = records.iter().map(|r| r.path.clone()).collect();
    assert_eq!(paths, strings(&["a.mp3", "b.mp3", "c.mp3"]));
}

#[test]
fn all_files_failing_report_all_failures() {
    let entries = vec![
        ScanEntry::File { path: "a.mp3".to_string(), decoded: None },
        ScanEntry::File { path: "b.mp3".to_string(), decoded: None },
    ];
    let (records, failures) = QuickTag::load_files(&entries);
    assert_eq!(records.len(), 0);
    assert_eq!(failures, strings(&["a.mp3", "b.mp3"]));
}

#[test]
fn get_field_returns_values_and_rating_date_default() {
    let mut data = data_with_fields(vec![(Field::Genre, strings(&["House", "Techno"]))]);
    data.rating = Some(3);
    data.date = Some("1999".to_string());
    assert_eq!(data.get_field(Field::Genre), Some(strings(&["House", "Techno"])));
    assert_eq!(data.get_field(Field::Title), None);
    assert_eq!(data.get_rating(), Some(3));
    assert_eq!(data.get_date(), Some("1999".to_string()));
    assert_eq!(data.all_tags(), Vec::new());
}
