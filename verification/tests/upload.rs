use immich::album::Album;
use immich::api::requests::{AssetMoveError, MovedAsset};
use immich::api::upload::{ParallelUpload, Status, Upload, Uploaded};
use immich::asset::Asset;
use immich::auth::Authenticated;
use immich::client::Client;
use immich::http::{CallError, Method, Reply, Response};
use immich::takeout::upload::{AlbumRecreation, Uploader};
use immich::takeout::{ArchiveEntry, Takeout, TakeoutAlbums};
use immich::url::Url;
use immich::utils::Id;
use immich::DateTime;

fn asset(name: &str) -> Asset {
    Asset::new(name.to_string(), DateTime::default(), DateTime::default(), name.as_bytes().to_vec())
}

fn created(id: &str) -> Reply<Uploaded> {
    Ok(Response {
        status: 201,
        status_text: "Created".to_string(),
        json: Some(Uploaded::new(Status::Created, Id::new(id.to_string()), String::new())),
        text: None,
    })
}

fn refused(code: u16) -> Reply<Uploaded> {
    Err(CallError::Status {
        code,
        status_text: "Internal Server Error".to_string(),
        display: "status".to_string(),
    })
}

fn done(id: &str, device: &str) -> Uploaded {
    Uploaded::new(Status::Created, Id::new(id.to_string()), device.to_string())
}

fn moved(id: &str) -> MovedAsset {
    MovedAsset::new(Id::new(id.to_string()), true)
}

fn shape(m: &MovedAsset) -> (String, bool, Option<AssetMoveError>) {
    (m.id().as_str().to_string(), m.success(), *m.error())
}

#[test]
fn a_hundred_uploads_of_which_one_is_refused() {
    let work: Vec<(Asset, Reply<Uploaded>)> = (1..=100)
        .map(|n| {
            let reply = if n == 37 { refused(500) } else { created(&format!("remote-{n}")) };
            (asset(&format!("IMG_{n}.jpg")), reply)
        })
        .collect();
    let results = ParallelUpload::new(5).post(work);
    assert_eq!(results.len(), 100);
    for (i, result) in results.iter().enumerate() {
        let n = i + 1;
        assert_eq!(result.device_asset_id(), format!("IMG_{n}.jpg"));
        if n == 37 {
            assert_eq!(*result.status(), Status::Failure);
            assert_eq!(result.id().as_str(), "");
        } else {
            assert_eq!(*result.status(), Status::Created);
            assert_eq!(result.id().as_str(), format!("remote-{n}"));
        }
    }
    assert_eq!(results.iter().filter(|r| *r.status() == Status::Failure).count(), 1);
}

#[test]
fn the_reports_do_not_depend_on_the_number_of_workers() {
    let work = |_: usize| -> Vec<(Asset, Reply<Uploaded>)> {
        vec![(asset("a"), created("1")), (asset("b"), refused(503)), (asset("c"), created("3"))]
    };
    let mut one: Vec<(String, Status)> = ParallelUpload::new(1)
        .post(work(1))
        .iter()
        .map(|r| (r.device_asset_id().to_string(), *r.status()))
        .collect();
    let mut backwards = work(8);
    backwards.reverse();
    let mut eight: Vec<(String, Status)> = ParallelUpload::new(8)
        .post(backwards)
        .iter()
        .map(|r| (r.device_asset_id().to_string(), *r.status()))
        .collect();
    one.sort_by(|a, b| a.0.cmp(&b.0));
    eight.sort_by(|a, b| a.0.cmp(&b.0));
    assert_eq!(one, eight);
}

#[test]
fn a_worker_reports_an_answer_or_a_failure() {
    let mut a = asset("a.jpg");
    let report = ParallelUpload::upload(&mut a, created("r1"));
    assert_eq!(*report.status(), Status::Created);
    assert_eq!(a.id().as_str(), "r1");
    let mut b = asset("b.jpg");
    let report = ParallelUpload::upload(&mut b, refused(500));
    assert_eq!(*report.status(), Status::Failure);
    assert_eq!(report.device_asset_id(), "b.jpg");
    assert_eq!(report.id().as_str(), "");
    assert_eq!(b.id().as_str(), "");
    let mut c = asset("c.jpg");
    let broken = Err(CallError::Transport { message: None, display: "x".to_string() });
    assert_eq!(*ParallelUpload::upload(&mut c, broken).status(), Status::Failure);
}

#[test]
fn the_waiting_room_has_two_places_for_each_worker() {
    assert_eq!(ParallelUpload::new(5).capacity(), 10);
    assert_eq!(ParallelUpload::new(1).capacity(), 2);
    assert_eq!(ParallelUpload::new(0).capacity(), 0);
    assert_eq!(ParallelUpload::new(usize::MAX).capacity(), usize::MAX);
    assert_eq!(ParallelUpload::new(usize::MAX / 2).capacity(), usize::MAX - 1);
    assert_eq!(ParallelUpload::default().threads(), 5);
}

#[test]
fn the_upload_request_of_an_asset() {
    let client = Client::new(
        Url::try_from("https://photos.example/api/").unwrap(),
        Authenticated::ApiKey("k3y".to_string()),
    );
    let created = DateTime::new(2025, 1, 28, 5, 42, 36).unwrap();
    let a = Asset::new("a.jpg".to_string(), created, DateTime::default(), b"abc".to_vec());
    let (request, body) = Upload::post(&client, &a);
    assert_eq!(request.method(), Method::Post);
    assert_eq!(request.url(), "https://photos.example/api/assets");
    let headers: Vec<(&str, &str)> =
        request.headers().iter().map(|h| (h.0.as_str(), h.1.as_str())).collect();
    assert_eq!(
        headers,
        vec![
            ("Accept", "application/json"),
            ("User-Agent", "Immich-0.1 (Rust Client)"),
            ("x-api-key", "k3y"),
            ("Content-Type", "multipart/form-data; boundary=IMMICHCLIENTMULTIPARTUPLOADBOUND"),
            ("x-immich-checksum", "a9993e364706816aba3e25717850c26c9cd0d89d"),
            ("x-api-key", "k3y"),
        ]
    );
    let expected = "--IMMICHCLIENTMULTIPARTUPLOADBOUND\r\n\
Content-Disposition: form-data; name=\"deviceAssetId\"\r\n\r\n\
a.jpg\r\n\
--IMMICHCLIENTMULTIPARTUPLOADBOUND\r\n\
Content-Disposition: form-data; name=\"deviceId\"\r\n\r\n\
Immich-0.1 (Rust Client)\r\n\
--IMMICHCLIENTMULTIPARTUPLOADBOUND\r\n\
Content-Disposition: form-data; name=\"fileCreatedAt\"\r\n\r\n\
2025-01-28T05:42:36.000Z\r\n\
--IMMICHCLIENTMULTIPARTUPLOADBOUND\r\n\
Content-Disposition: form-data; name=\"fileModifiedAt\"\r\n\r\n\
1990-10-03T12:00:00.000Z\r\n\
--IMMICHCLIENTMULTIPARTUPLOADBOUND\r\n\
Content-Disposition: form-data; name=\"assetData\"; filename=\"a.jpg\"\r\n\r\n\
abc\r\n\
--IMMICHCLIENTMULTIPARTUPLOADBOUND--\r\n";
    assert_eq!(body, expected.as_bytes().to_vec());
    let (content_type, data) = Upload::format_data(&a);
    assert_eq!(content_type, "multipart/form-data; boundary=IMMICHCLIENTMULTIPARTUPLOADBOUND");
    assert_eq!(data, body);
}

#[test]
fn uploads_into_an_album_account_for_every_asset() {
    let results = vec![
        done("r1", "a.jpg"),
        Uploaded::from_failure("b.jpg"),
        Uploaded::new(Status::Duplicate, Id::new("r3".to_string()), "c.jpg".to_string()),
        Uploaded::from_failure("d.jpg"),
    ];
    let ids: Vec<String> = Album::uploaded(&results).iter().map(|i| i.as_str().to_string()).collect();
    assert_eq!(ids, vec!["r1", "r3"]);
    let all = Album::add_uploaded(&results, Ok(vec![moved("r1"), moved("r3")])).unwrap();
    let shapes: Vec<(String, bool, Option<AssetMoveError>)> = all.iter().map(shape).collect();
    assert_eq!(
        shapes,
        vec![
            ("r1".to_string(), true, None),
            ("r3".to_string(), true, None),
            ("".to_string(), false, Some(AssetMoveError::UploadFailed)),
            ("".to_string(), false, Some(AssetMoveError::UploadFailed)),
        ]
    );
    assert_eq!(all.len(), results.len());
    let failed = Album::add_uploaded(&results, Err(immich::ImmichError::InvalidResponse));
    assert!(matches!(failed, Err(immich::ImmichError::InvalidResponse)));
}

fn albums_x_y() -> TakeoutAlbums {
    let mut albums = TakeoutAlbums::new();
    albums.entry("X", "a");
    albums.entry("X", "b");
    albums.entry("Y", "b");
    albums.entry("Y", "c");
    albums
}

#[test]
fn three_assets_in_two_albums_of_which_one_failed() {
    let uploaded = vec![done("ra", "a"), done("rb", "b"), Uploaded::from_failure("c")];
    let mut work = AlbumRecreation::new(&albums_x_y(), &uploaded);
    let mut asked: Vec<(String, Vec<String>, usize)> = Vec::new();
    loop {
        let said = match work.current() {
            Some(plan) => {
                asked.push((
                    plan.album().to_string(),
                    plan.ids().iter().map(|i| i.as_str().to_string()).collect(),
                    plan.failed(),
                ));
                plan.ids().iter().map(|i| MovedAsset::new(i.clone(), true)).collect()
            }
            None => break,
        };
        work.record(Some(said));
    }
    assert_eq!(
        asked,
        vec![
            ("X".to_string(), vec!["ra".to_string(), "rb".to_string()], 0),
            ("Y".to_string(), vec!["rb".to_string()], 1),
        ]
    );
    let all: Vec<(String, bool, Option<AssetMoveError>)> = work.finish().iter().map(shape).collect();
    assert_eq!(
        all,
        vec![
            ("ra".to_string(), true, None),
            ("rb".to_string(), true, None),
            ("rb".to_string(), true, None),
            ("".to_string(), false, Some(AssetMoveError::UploadFailed)),
        ]
    );
}

#[test]
fn an_album_that_cannot_be_had_fails_each_of_its_assets() {
    let uploaded = vec![done("ra", "a"), done("rb", "b"), Uploaded::from_failure("c")];
    let mut work = AlbumRecreation::new(&albums_x_y(), &uploaded);
    work.record(None);
    work.record(None);
    work.record(None);
    assert!(work.current().is_none());
    let all: Vec<(String, bool, Option<AssetMoveError>)> = work.finish().iter().map(shape).collect();
    assert_eq!(
        all,
        vec![
            ("ra".to_string(), false, Some(AssetMoveError::Unknown)),
            ("rb".to_string(), false, Some(AssetMoveError::Unknown)),
            ("rb".to_string(), false, Some(AssetMoveError::Unknown)),
            ("".to_string(), false, Some(AssetMoveError::UploadFailed)),
        ]
    );
}

#[test]
fn the_last_upload_that_went_through_counts() {
    let uploaded = vec![
        done("old", "a"),
        Uploaded::from_failure("a"),
        done("new", "a"),
        Uploaded::from_failure("b"),
        Uploaded::from_failure("b"),
    ];
    let mut albums = TakeoutAlbums::new();
    albums.entry("X", "a");
    albums.entry("X", "b");
    albums.entry("X", "never uploaded");
    albums.entry("X", "b");
    let work = AlbumRecreation::new(&albums, &uploaded);
    let plan = work.current().unwrap();
    let ids: Vec<&str> = plan.ids().iter().map(|i| i.as_str()).collect();
    assert_eq!(ids, vec!["new"]);
    assert_eq!(plan.failed(), 2);
}

#[test]
fn an_uploader_plans_the_albums_of_its_archive() {
    let entry = |path: &str| ArchiveEntry { path: path.to_string(), mtime: None, sidecar: None };
    let uploader = Uploader::new(Takeout::new(vec![entry("X/a.jpg"), entry("Y/a.jpg")]));
    assert_eq!(uploader.len(), 1);
    assert!(!uploader.is_empty());
    assert_eq!(Uploader::import_album(), "Google Takout Import");
    assert_eq!(uploader.takeout().len(), 1);
    let asset = uploader.asset(0, vec![9]).unwrap();
    assert_eq!(asset.device_asset_id(), "a.jpg");
    assert_eq!(asset.asset_data(), &[9]);
    assert_eq!(asset.created_at().unix_timestamp(), 654_955_200);
    assert_eq!(asset.modified_at().unix_timestamp(), 654_955_200);
    assert!(uploader.asset(5, vec![]).is_none());
    let dated = Uploader::new(Takeout::new(vec![
        ArchiveEntry {
            path: "X/b.jpg".to_string(),
            mtime: DateTime::from_unix_timestamp(500),
            sidecar: None,
        },
        ArchiveEntry {
            path: "X/b.jpg.json".to_string(),
            mtime: DateTime::from_unix_timestamp(900),
            sidecar: Some(immich::takeout::metadata::Metadata::new("700".to_string())),
        },
        ArchiveEntry { path: "X/notes.txt".to_string(), mtime: None, sidecar: None },
    ]));
    let asset = dated.asset(0, vec![1]).unwrap();
    assert_eq!(asset.device_asset_id(), "b.jpg");
    assert_eq!(asset.created_at().unix_timestamp(), 700);
    assert_eq!(asset.modified_at().unix_timestamp(), 700);
    let asset = dated.asset(1, vec![]).unwrap();
    assert_eq!(asset.device_asset_id(), "b.jpg");
    assert_eq!(asset.modified_at().unix_timestamp(), 900);
    assert!(dated.asset(2, vec![]).is_none());
    let work = uploader.recreate_albums(&vec![done("ra", "a.jpg")]);
    let plan = work.current().unwrap();
    assert_eq!(plan.album(), "X");
    assert_eq!(plan.ids().len(), 1);
}

#[test]
fn outcomes_as_the_server_reports_them() {
    assert_eq!(shape(&MovedAsset::new(Id::default(), true)), ("".to_string(), true, None));
    assert_eq!(
        shape(&MovedAsset::new(Id::default(), false)),
        ("".to_string(), false, Some(AssetMoveError::Unknown))
    );
    assert_eq!(
        shape(&MovedAsset::from_server(Id::default(), true, Some(AssetMoveError::Duplicate))),
        ("".to_string(), true, None)
    );
    assert_eq!(
        shape(&MovedAsset::from_server(Id::default(), false, Some(AssetMoveError::NotFound))),
        ("".to_string(), false, Some(AssetMoveError::NotFound))
    );
    assert_eq!(
        shape(&MovedAsset::from_server(Id::default(), false, None)),
        ("".to_string(), false, Some(AssetMoveError::Unknown))
    );
    assert_eq!(
        shape(&MovedAsset::from_failed_upload(Id::new("x".to_string()))),
        ("x".to_string(), false, Some(AssetMoveError::UploadFailed))
    );
}

#[test]
fn one_outcome_for_each_upload_where_each_asset_stands_once_in_the_albums() {
    let uploaded = vec![done("ra", "a"), Uploaded::from_failure("b"), done("rc", "c")];
    let mut albums = TakeoutAlbums::new();
    albums.entry("X", "a");
    albums.entry("X", "never uploaded");
    albums.entry("Y", "b");
    albums.entry("Y", "c");
    let mut work = AlbumRecreation::new(&albums, &uploaded);
    let said: Vec<MovedAsset> = work.current().unwrap().ids().iter().map(|i| MovedAsset::new(i.clone(), true)).collect();
    work.record(Some(said));
    work.record(None);
    let all = work.finish();
    assert_eq!(all.len(), uploaded.len());
    let failed = all.iter().filter(|m| *m.error() == Some(AssetMoveError::UploadFailed)).count();
    assert_eq!(failed, 1);
}
