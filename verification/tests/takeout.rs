use immich::takeout::file::Filename;
use immich::takeout::media::{Media, MediaStore};
use immich::takeout::metadata::Metadata;
use immich::takeout::{ArchiveEntry, HandleEdited, Record, Takeout, TakeoutAlbums};
use immich::DateTime;

fn entry(path: &str) -> ArchiveEntry {
    ArchiveEntry { path: path.to_string(), mtime: None, sidecar: None }
}

fn sidecar(path: &str, timestamp: &str) -> ArchiveEntry {
    ArchiveEntry {
        path: path.to_string(),
        mtime: None,
        sidecar: Some(Metadata::new(timestamp.to_string())),
    }
}

fn archive() -> Vec<ArchiveEntry> {
    vec![
        entry("Album1/a.jpg"),
        sidecar("Album1/a.jpg.json", "1370762069"),
        entry("Album1/a-edited.jpg"),
        entry("Album2/a.jpg"),
    ]
}

fn emitted(takeout: &Takeout) -> Vec<usize> {
    let mut iter = takeout.records();
    let mut out = Vec::new();
    while let Some(k) = iter.next() {
        out.push(k);
    }
    assert_eq!(iter.next(), None);
    out
}

#[test]
fn an_archive_with_an_edited_photo_in_two_albums() {
    let takeout = Takeout::new(archive());
    assert_eq!(takeout.len(), 1);
    assert!(!takeout.is_empty());
    assert_eq!(*takeout.edited_files(), HandleEdited::PreferEdited);
    assert_eq!(emitted(&takeout), vec![2]);
    let mut record = takeout.record(2, vec![1, 2, 3]).unwrap();
    assert_eq!(record.name(), "a.jpg");
    assert!(record.edited());
    assert!(record.original());
    assert_eq!(record.date_taken().unwrap().to_string(), "2013-06-09T07:14:29.000Z");
    assert_eq!(record.albums().to_vec(), vec!["Album1", "Album1", "Album1", "Album2"]);
    assert_eq!(record.data(), vec![1, 2, 3]);
    assert_eq!(record.data(), Vec::<u8>::new());
}

#[test]
fn the_albums_of_a_photo_without_metadata() {
    let takeout = Takeout::new(vec![
        entry("Album1/a.jpg"),
        entry("Album1/a-edited.jpg"),
        entry("Album2/a.jpg"),
    ]);
    let record = takeout.record(1, vec![]).unwrap();
    assert_eq!(record.albums().to_vec(), vec!["Album1", "Album1", "Album2"]);
    assert!(record.date_taken().is_none());
    assert!(record.date_modified().is_none());
}

#[test]
fn both_versions_are_used_where_asked() {
    let takeout = Takeout::with_rules(archive(), HandleEdited::UseBoth);
    assert_eq!(emitted(&takeout), vec![0, 2, 3]);
    assert_eq!(takeout.len(), 1);
}

#[test]
fn only_originals_are_used_where_asked() {
    let takeout = Takeout::with_rules(archive(), HandleEdited::PreferOriginal);
    assert_eq!(emitted(&takeout), vec![0, 3]);
    let record = takeout.record(0, vec![]).unwrap();
    assert!(!record.edited());
    assert!(record.original());
    assert_eq!(record.albums().to_vec(), vec!["Album1", "Album1", "Album2"]);
    assert!(takeout.record(2, vec![]).is_some());
    assert!(takeout.record(4, vec![]).is_none());
}

#[test]
fn an_original_without_an_edited_version_is_used() {
    let takeout = Takeout::new(vec![
        entry("A/one.png"),
        entry("A/notes.txt"),
        entry("A/README"),
        entry("two.png"),
        sidecar("A/only-metadata.jpg.json", "5"),
        sidecar("A/one.png.json", "not a number"),
    ]);
    assert_eq!(emitted(&takeout), vec![0]);
    assert_eq!(takeout.len(), 2);
    let media = takeout.media();
    let record = media.get("only-metadata.jpg").unwrap();
    assert!(!record.original() && !record.edited());
    assert_eq!(record.date_taken().unwrap().unix_timestamp(), 5);
    assert!(media.get("one.png").unwrap().date_taken().is_none());
    assert!(media.get("two.png").is_none());
    assert!(takeout.record(1, vec![]).is_none());
    assert!(takeout.record(2, vec![]).is_none());
}

#[test]
fn an_empty_archive() {
    let takeout = Takeout::new(vec![]);
    assert!(takeout.is_empty());
    assert_eq!(takeout.len(), 0);
    assert_eq!(emitted(&takeout), Vec::<usize>::new());
    assert_eq!(takeout.albums().len(), 0);
    assert!(takeout.entries().is_empty());
}

#[test]
fn the_policies() {
    assert!(HandleEdited::PreferEdited.use_edited());
    assert!(!HandleEdited::PreferEdited.use_original());
    assert!(HandleEdited::UseBoth.use_edited());
    assert!(HandleEdited::UseBoth.use_original());
    assert!(!HandleEdited::PreferOriginal.use_edited());
    assert!(HandleEdited::PreferOriginal.use_original());
    assert_eq!(HandleEdited::default(), HandleEdited::PreferEdited);
}

#[test]
fn the_albums_of_an_archive() {
    let takeout = Takeout::new(vec![
        entry("X/a.jpg"),
        entry("X/b.jpg"),
        entry("Y/b.jpg"),
        entry("Y/c.jpg"),
    ]);
    let albums = takeout.albums();
    let lists: Vec<(String, Vec<String>)> =
        albums.iter().iter().map(|l| (l.name().to_string(), l.members().clone())).collect();
    assert_eq!(
        lists,
        vec![
            ("X".to_string(), vec!["a.jpg".to_string(), "b.jpg".to_string()]),
            ("Y".to_string(), vec!["b.jpg".to_string(), "c.jpg".to_string()]),
        ]
    );
}

#[test]
fn albums_are_kept_in_the_order_in_which_they_were_met() {
    let mut albums = TakeoutAlbums::default();
    albums.entry("B", "1");
    albums.entry("A", "2");
    albums.entry("B", "3");
    albums.entry("B", "3");
    assert_eq!(albums.len(), 2);
    assert_eq!(albums.iter()[0].name(), "B");
    assert_eq!(albums.iter()[0].members().clone(), vec!["1", "3", "3"]);
    assert_eq!(albums.iter()[1].name(), "A");
    assert_eq!(albums.iter()[1].members().clone(), vec!["2"]);
}

#[test]
fn the_store_marks_and_appends() {
    let mut store = MediaStore::default();
    assert!(store.is_empty());
    let file = Filename::try_from("A/a.jpg").unwrap();
    let edited = Filename::try_from("B/a-edited.jpg").unwrap();
    let other = Filename::try_from("B/b.jpg.json").unwrap();
    store.add_original(&file);
    store.add_edited(&edited);
    store.add_metadata(&other, DateTime::from_unix_timestamp(1).unwrap());
    store.add_metadata(&other, DateTime::from_unix_timestamp(2).unwrap());
    store.add_original(&file);
    assert_eq!(store.len(), 2);
    let a = store.get("a.jpg").unwrap();
    assert!(a.original() && a.edited());
    assert!(a.date_taken().is_none());
    assert_eq!(a.albums().to_vec(), vec!["A", "B", "A"]);
    let b = store.get("b.jpg").unwrap();
    assert!(!b.original() && !b.edited());
    assert_eq!(b.date_taken().unwrap().unix_timestamp(), 2);
    assert_eq!(b.albums().to_vec(), vec!["B", "B"]);
    assert!(store.get("c.jpg").is_none());
    let names: Vec<&str> = store.values().iter().map(|m| m.name()).collect();
    assert_eq!(names, vec!["a.jpg", "b.jpg"]);
}

#[test]
fn a_record_of_one_kind() {
    let mut m = Media::from_edited("n".to_string(), "A".to_string());
    assert!(m.edited() && !m.original() && m.date_taken().is_none());
    m.add_original();
    m.add_album("B");
    m.set_date_taken(DateTime::from_unix_timestamp(9).unwrap());
    assert!(m.original());
    assert_eq!(m.albums().to_vec(), vec!["A", "B"]);
    assert_eq!(m.date_taken().unwrap().unix_timestamp(), 9);
    let m = Media::from_metadata("n".to_string(), "A".to_string(), DateTime::default());
    assert!(!m.edited() && !m.original());
    assert_eq!(m.date_taken().unwrap().unix_timestamp(), 654_955_200);
    let mut m = Media::from_original("n".to_string(), "A".to_string());
    assert!(!m.edited() && m.original());
    m.add_edited();
    assert!(m.edited());
    assert_eq!(m.name(), "n");
}

#[test]
fn a_record_was_changed_when_it_or_its_entry_was() {
    let taken = DateTime::from_unix_timestamp(100).unwrap();
    let media = Media::from_metadata("a.jpg".to_string(), "A".to_string(), taken);
    let later = Record::new(&media, DateTime::from_unix_timestamp(200), vec![]);
    assert_eq!(later.date_modified().unwrap().unix_timestamp(), 200);
    let earlier = Record::new(&media, DateTime::from_unix_timestamp(50), vec![]);
    assert_eq!(earlier.date_modified().unwrap().unix_timestamp(), 100);
    let same = Record::new(&media, DateTime::from_unix_timestamp(100), vec![]);
    assert_eq!(same.date_modified().unwrap().unix_timestamp(), 100);
    let unknown = Record::new(&media, None, vec![]);
    assert_eq!(unknown.date_modified().unwrap().unix_timestamp(), 100);
    let undated = Media::from_original("a.jpg".to_string(), "A".to_string());
    let record = Record::new(&undated, DateTime::from_unix_timestamp(200), vec![]);
    assert!(record.date_modified().is_none());
}

#[test]
fn a_record_becomes_an_asset() {
    let taken = DateTime::from_unix_timestamp(1_370_762_069).unwrap();
    let media = Media::from_metadata("a.jpg".to_string(), "A".to_string(), taken);
    let record = Record::new(&media, DateTime::from_unix_timestamp(1_400_000_000), vec![4, 5]);
    let asset = record.into_asset();
    assert_eq!(asset.device_asset_id(), "a.jpg");
    assert_eq!(asset.created_at().unix_timestamp(), 1_370_762_069);
    assert_eq!(asset.modified_at().unix_timestamp(), 1_400_000_000);
    assert_eq!(asset.asset_data(), &[4, 5]);
    assert_eq!(asset.id().as_str(), "");

    let undated = Media::from_original("b.jpg".to_string(), "A".to_string());
    let asset = Record::new(&undated, DateTime::from_unix_timestamp(7), vec![]).into_asset();
    assert_eq!(asset.created_at().to_string(), "1990-10-03T12:00:00.000Z");
    assert_eq!(asset.modified_at().to_string(), "1990-10-03T12:00:00.000Z");
}

#[test]
fn an_entry_is_noted_by_its_kind() {
    let mut store = MediaStore::new();
    Takeout::scan_entry(&mut store, &entry("A/a-edited.jpg"), &HandleEdited::PreferOriginal);
    assert!(store.is_empty());
    Takeout::scan_entry(&mut store, &entry("A/a-edited.jpg"), &HandleEdited::UseBoth);
    assert_eq!(store.len(), 1);
    Takeout::scan_entry(&mut store, &sidecar("A/a.jpg.json", "12"), &HandleEdited::UseBoth);
    assert_eq!(store.get("a.jpg").unwrap().date_taken().unwrap().unix_timestamp(), 12);
    let scanned = Takeout::first_scan(&archive(), &HandleEdited::PreferOriginal);
    assert!(!scanned.get("a.jpg").unwrap().edited());
}

fn wanted(takeout: &Takeout) -> usize {
    let policy = *takeout.edited_files();
    takeout
        .media()
        .values()
        .iter()
        .filter(|m| (m.original() && policy.use_original()) || (m.edited() && policy.use_edited()))
        .count()
}

#[test]
fn as_many_records_as_photos_where_each_is_handed_out_once() {
    let entries = || {
        vec![
            entry("A/one.jpg"),
            sidecar("A/one.jpg.json", "7"),
            entry("A/two-edited.png"),
            entry("B/three.gif"),
            entry("B/readme.txt"),
            sidecar("B/four.jpg.json", "8"),
        ]
    };
    for policy in [HandleEdited::UseBoth, HandleEdited::PreferOriginal] {
        let takeout = Takeout::with_rules(entries(), policy);
        assert_eq!(emitted(&takeout).len(), wanted(&takeout));
    }
    let takeout = Takeout::new(archive());
    assert_eq!(emitted(&takeout).len(), wanted(&takeout));
    assert_eq!(wanted(&takeout), 1);
}

#[test]
fn more_records_than_photos_where_one_is_handed_out_twice() {
    let takeout = Takeout::with_rules(archive(), HandleEdited::UseBoth);
    assert_eq!(emitted(&takeout).len(), 3);
    assert_eq!(wanted(&takeout), 1);
    let takeout = Takeout::new(vec![entry("A/one.jpg")]);
    assert_eq!(emitted(&takeout).len(), 1);
    assert_eq!(wanted(&takeout), 0);
}
