use immich::album::{Album, Albums};
use immich::api::bulk_check::{
    BulkCheckAction, BulkCheckResult, BulkCheckResults, BulkUploadCheck,
};
use immich::api::requests::MovedAsset;
use immich::asset::{Asset, AssetRemoteStatus};
use immich::auth::{Authenticated, Login};
use immich::client::Client;
use immich::host::Host;
use immich::http::{CallError, Method, Reply, Request, Response};
use immich::url::Url;
use immich::utils::Id;
use immich::{DateTime, ImmichError, User};

fn ok<T>(status: u16, json: Option<T>, text: Option<&str>) -> Reply<T> {
    Ok(Response { status, status_text: "Status Text".to_string(), json, text: text.map(|t| t.to_string()) })
}

fn refused<T>(code: u16) -> Reply<T> {
    Err(CallError::Status {
        code,
        status_text: "Nope".to_string(),
        display: "server said no".to_string(),
    })
}

fn broken<T>() -> Reply<T> {
    Err(CallError::Transport { message: None, display: "connection reset".to_string() })
}

fn client() -> Client {
    Client::new(Url::try_from("http://host/api").unwrap(), Authenticated::Cookie("c=1".to_string()))
}

fn headers(request: &Request) -> Vec<(String, String)> {
    request.headers().clone()
}

fn user() -> User {
    User::new(Id::new("u".to_string()), "a@b.c".to_string(), "Ann".to_string())
}

fn album(name: &str, id: &str) -> Album {
    Album::from_parts(name.to_string(), 3, Id::new(id.to_string()), user(), false)
}

#[test]
fn a_base_url_loses_its_last_slashes() {
    assert_eq!(Url::try_from("https://host/api///").unwrap().add_path("/x"), "https://host/api/x");
    assert_eq!(Url::try_from("http://host").unwrap().add_path("/x"), "http://host/x");
    assert_eq!(Url::try_from("http://").unwrap_err_text(), "Url must start with http or https");
}

trait ErrText {
    fn unwrap_err_text(self) -> String;
}

impl ErrText for Result<Url, ImmichError> {
    fn unwrap_err_text(self) -> String {
        match self {
            Err(ImmichError::InvalidUrl(m)) => m,
            other => panic!("{other:?}"),
        }
    }
}

#[test]
fn what_is_no_base_url_is_refused() {
    for url in ["", "host", "ftp://host", "https:/host", "HTTP://host", "/", "https:////"] {
        assert_eq!(Url::try_from(url).unwrap_err_text(), "Url must start with http or https");
        assert!(matches!(Host::new(url), Err(ImmichError::InvalidUrl(_))));
    }
}

#[test]
fn a_path_without_a_slash_is_joined_with_a_bracket() {
    let url = Url::try_from("http://host").unwrap();
    assert_eq!(url.add_path("x"), "[http://host/x");
    assert_eq!(url.add_path(""), "[http://host/");
}

#[test]
fn every_request_carries_the_default_headers_and_the_proof() {
    let c = client();
    for (request, method, url) in [
        (c.get("/a"), Method::Get, "http://host/api/a"),
        (c.post("/b"), Method::Post, "http://host/api/b"),
        (c.put("/c"), Method::Put, "http://host/api/c"),
        (c.user_request(), Method::Get, "http://host/api/users/me"),
        (c.albums_request(), Method::Get, "http://host/api/albums"),
        (c.check_auth_request(), Method::Get, "http://host/api/auth/validateToken"),
    ] {
        assert_eq!(request.method(), method);
        assert_eq!(request.url(), url);
        assert_eq!(
            headers(&request),
            vec![
                ("Accept".to_string(), "application/json".to_string()),
                ("User-Agent".to_string(), "Immich-0.1 (Rust Client)".to_string()),
                ("Cookie".to_string(), "c=1".to_string()),
            ]
        );
    }
    assert_eq!(c.auth().header(), ("Cookie", "c=1"));
    assert_eq!(Authenticated::ApiKey("k".to_string()).header(), ("x-api-key", "k"));
    let plain = Request::new(Method::Get, "u".to_string()).set("A", "1").set("A", "2");
    assert_eq!(
        headers(&plain),
        vec![("A".to_string(), "1".to_string()), ("A".to_string(), "2".to_string())]
    );
}

#[test]
fn a_login_gives_a_client_with_a_cookie() {
    let host = Host::new("https://host/api/").unwrap();
    let (request, sent) = host.email_request("a@b.c", "s3cr3t");
    assert_eq!(request.method(), Method::Post);
    assert_eq!(request.url(), "https://host/api/auth/login");
    assert_eq!(headers(&request).len(), 2);
    assert_eq!(sent.email, "a@b.c");
    assert_eq!(sent.password, "s3cr3t");
    let login = Login { access_token: "tok".to_string() };
    let c = host.email(ok(201, Some(login), None)).unwrap();
    assert_eq!(c.auth().header(), ("Cookie", "immich_access_token=tok"));
    assert_eq!(c.url().add_path("/x"), "https://host/api/x");
    let login = Login { access_token: "tok".to_string() };
    let c = Client::with_email("https://host/api/", ok(201, Some(login), None)).unwrap();
    assert_eq!(c.auth().header(), ("Cookie", "immich_access_token=tok"));
}

#[test]
fn a_login_that_fails() {
    let host = || Host::new("https://host").unwrap();
    let login = || Some(Login { access_token: "tok".to_string() });
    assert!(matches!(host().email(ok(200, login(), None)), Err(ImmichError::Auth)));
    assert!(matches!(host().email(ok(201, None, None)), Err(ImmichError::Io { .. })));
    assert!(matches!(host().email(refused(401)), Err(ImmichError::Status(401, _))));
    assert!(matches!(host().email(broken()), Err(ImmichError::Transport(_))));
    assert!(matches!(
        Client::with_email("host", ok(201, login(), None)),
        Err(ImmichError::InvalidUrl(_))
    ));
}

#[test]
fn a_key_gives_a_client_where_the_server_accepts_it() {
    let probe = Host::new("https://host").unwrap().key_client("k3y");
    assert_eq!(probe.check_auth_request().url(), "https://host/auth/validateToken");
    assert_eq!(probe.auth().header(), ("x-api-key", "k3y"));
    let c = Client::with_key("https://host", "k3y", &ok::<()>(200, None, None)).unwrap();
    assert_eq!(c.auth().header(), ("x-api-key", "k3y"));
    assert!(matches!(
        Client::with_key("https://host", "k3y", &ok::<()>(204, None, None)),
        Err(ImmichError::Auth)
    ));
    assert!(matches!(
        Client::with_key("https://host", "k3y", &refused::<()>(401)),
        Err(ImmichError::Auth)
    ));
    assert!(matches!(
        Client::with_key("nowhere", "k3y", &ok::<()>(200, None, None)),
        Err(ImmichError::InvalidUrl(_))
    ));
    assert!(Client::check_auth(&ok::<()>(200, None, None)));
    assert!(!Client::check_auth(&broken::<()>()));
}

#[test]
fn the_user_of_a_reply() {
    assert_eq!(Client::user(ok(200, Some(user()), None)).unwrap().name(), "Ann");
    assert!(matches!(Client::user(ok(200, None, Some("x"))), Err(ImmichError::Io { .. })));
    match Client::user(ok(204, Some(user()), Some("body"))) {
        Err(ImmichError::Status(204, text)) => assert_eq!(text, "body"),
        other => panic!("{other:?}"),
    }
    match Client::user(refused(403)) {
        Err(ImmichError::Transport(text)) => assert_eq!(text, "server said no"),
        other => panic!("{other:?}"),
    }
    match Client::user(broken()) {
        Err(ImmichError::Transport(text)) => assert_eq!(text, "connection reset"),
        other => panic!("{other:?}"),
    }
}

#[test]
fn the_albums_of_a_reply() {
    let albums = Albums { albums: vec![album("A", "1"), album("B", "2")] };
    let got = Client::albums(ok(200, Some(albums), None)).unwrap();
    assert_eq!(got.len(), 2);
    assert!(!got.is_empty());
    assert_eq!(got.into_iter()[1].name(), "B");
    assert!(matches!(Client::albums(ok(200, None, None)), Err(ImmichError::Io { .. })));
    match Client::albums(refused(500)) {
        Err(ImmichError::Status(500, text)) => assert_eq!(text, "Nope"),
        other => panic!("{other:?}"),
    }
    assert!(Albums { albums: vec![] }.is_empty());
}

#[test]
fn the_first_album_of_a_name_wins() {
    let albums = || Albums { albums: vec![album("A", "1"), album("B", "2"), album("B", "3")] };
    assert_eq!(Album::get_or_create(albums(), "B").unwrap().id().as_str(), "2");
    assert_eq!(Album::get_or_create(albums(), "A").unwrap().id().as_str(), "1");
    assert!(Album::get_or_create(albums(), "b").is_none());
    assert!(Album::get_or_create(Albums { albums: vec![] }, "A").is_none());
}

#[test]
fn an_album_is_created_by_post() {
    let (request, draft) = Album::new_request(&client(), user(), "Trip".to_string());
    assert_eq!(request.method(), Method::Post);
    assert_eq!(request.url(), "http://host/api/albums");
    assert_eq!(draft.name(), "Trip");
    assert_eq!(draft.len(), 0);
    assert!(draft.is_empty());
    assert_eq!(draft.id().as_str(), "");
    assert!(!draft.shared());
    assert_eq!(draft.owner().name(), "Ann");
    assert_eq!(Album::new(ok(201, Some(album("Trip", "9")), None)).unwrap().id().as_str(), "9");
    match Album::new(ok(200, Some(album("Trip", "9")), None)) {
        Err(ImmichError::Status(200, text)) => assert_eq!(text, "Status Text"),
        other => panic!("{other:?}"),
    }
    assert!(matches!(Album::new(ok(201, None, None)), Err(ImmichError::Io { .. })));
    assert!(matches!(Album::new(broken()), Err(ImmichError::Transport(_))));
}

#[test]
fn assets_are_added_under_the_id_of_the_album() {
    let a = album("Trip", "f0edb589-1312-4161-b41e-0a18f127b3dd");
    let (request, sent) = a.add_assets(&client(), vec![Id::new("x".to_string())]).unwrap();
    assert_eq!(request.method(), Method::Put);
    assert_eq!(
        request.url(),
        "http://host/api/albums/f0edb589-1312-4161-b41e-0a18f127b3dd/assets"
    );
    assert_eq!(headers(&request).len(), 3);
    assert_eq!(sent.ids.len(), 1);
    assert_eq!(sent.ids[0].as_str(), "x");
}

#[test]
fn an_album_with_an_unsafe_id_sends_nothing() {
    for id in ["", "../../admin", "3fa85f[]-5717-4562-b3fc-2c963f66afa6"] {
        match album("Trip", id).add_assets(&client(), vec![]) {
            Err(ImmichError::InvalidUrl(m)) => assert_eq!(m, "Album has an invalid Id"),
            other => panic!("{other:?}"),
        }
    }
}

#[test]
fn what_the_server_says_of_added_assets() {
    let moved = vec![MovedAsset::new(Id::new("x".to_string()), true)];
    assert_eq!(Album::added_assets(ok(200, Some(moved), None)).unwrap().len(), 1);
    match Album::added_assets(ok(201, Some(vec![]), Some("body"))) {
        Err(ImmichError::Status(201, text)) => assert_eq!(text, "body"),
        other => panic!("{other:?}"),
    }
    assert!(matches!(Album::added_assets(ok(200, None, None)), Err(ImmichError::Io { .. })));
    assert!(matches!(Album::added_assets(refused(404)), Err(ImmichError::Status(404, _))));
}

fn known(id: &str) -> Asset {
    let mut a = Asset::new("n".to_string(), DateTime::default(), DateTime::default(), vec![1]);
    let answer = immich::api::upload::Uploaded::new(
        immich::api::upload::Status::Created,
        Id::new(id.to_string()),
        String::new(),
    );
    a.parse_upload(answer);
    a.remote_status_mut(AssetRemoteStatus::Unknown);
    a
}

fn result(id: &str, action: BulkCheckAction) -> BulkCheckResult {
    BulkCheckResult { id: id.to_string(), action }
}

#[test]
fn a_bulk_check_notes_what_the_server_has() {
    let mut assets = vec![known("1"), known("2"), known("3")];
    let (request, sent) = BulkUploadCheck::post(&client(), &assets);
    assert_eq!(request.url(), "http://host/api/assets/bulk-upload-check");
    assert_eq!(request.method(), Method::Post);
    assert_eq!(sent.len(), 3);
    assert_eq!(sent[1].id, "2");
    assert_eq!(sent[1].checksum, "bf8b4530d8d246dd74ac53a13471bba17941dff7");
    let results = BulkCheckResults {
        results: vec![
            result("1", BulkCheckAction::Accept),
            result("2", BulkCheckAction::Reject),
            result("other", BulkCheckAction::Reject),
        ],
    };
    assert_eq!(results.len(), 3);
    BulkUploadCheck::apply(&mut assets, ok(200, Some(results), None)).unwrap();
    assert_eq!(*assets[0].remote_status(), AssetRemoteStatus::Absent);
    assert_eq!(*assets[1].remote_status(), AssetRemoteStatus::Present);
    assert_eq!(*assets[2].remote_status(), AssetRemoteStatus::Unknown);
    assert_eq!(assets[2].id().as_str(), "3");
    assert_eq!(BulkCheckAction::Accept.status(), AssetRemoteStatus::Absent);
    assert_eq!(result("x", BulkCheckAction::Accept).id(), "x");
}

#[test]
fn a_bulk_check_with_a_wrong_answer_changes_nothing() {
    let mut assets = vec![known("1")];
    let two = BulkCheckResults {
        results: vec![result("1", BulkCheckAction::Accept), result("1", BulkCheckAction::Accept)],
    };
    assert!(matches!(
        BulkUploadCheck::apply(&mut assets, ok(200, Some(two), None)),
        Err(ImmichError::InvalidResponse)
    ));
    let one = || BulkCheckResults { results: vec![result("1", BulkCheckAction::Accept)] };
    match BulkUploadCheck::apply(&mut assets, ok(201, Some(one()), None)) {
        Err(ImmichError::Status(201, text)) => assert_eq!(text, "Status Text"),
        other => panic!("{other:?}"),
    }
    assert!(matches!(
        BulkUploadCheck::apply(&mut assets, ok(200, None, None)),
        Err(ImmichError::Io { .. })
    ));
    assert!(matches!(
        BulkUploadCheck::apply(&mut assets, broken()),
        Err(ImmichError::Transport(_))
    ));
    assert_eq!(*assets[0].remote_status(), AssetRemoteStatus::Unknown);
    assert_eq!(BulkCheckResults { results: vec![] }.into_iter().len(), 0);
}

#[test]
fn a_client_plans_checks_and_uploads() {
    let c = client();
    let assets = vec![known("1")];
    let (request, sent) = c.bulk_check(&assets);
    assert_eq!(request.url(), "http://host/api/assets/bulk-upload-check");
    assert_eq!(sent.len(), 1);

    let answer = |id: &str| -> Reply<immich::upload::Uploaded> {
        ok(
            201,
            Some(immich::upload::Uploaded::new(
                immich::upload::Status::Created,
                Id::new(id.to_string()),
                String::new(),
            )),
            None,
        )
    };
    let work = || vec![(known(""), answer("r1")), (known(""), refused(500)), (known(""), answer("r3"))];
    let reports = Client::upload(2, work());
    assert_eq!(reports.len(), 3);
    assert_eq!(*reports[1].status(), immich::upload::Status::Failure);

    let target = album("Trip", "f0edb589-1312-4161-b41e-0a18f127b3dd");
    let (reports, request) = c.upload_to_album(2, work(), &target);
    assert_eq!(reports.len(), 3);
    let (request, sent) = request.unwrap();
    assert_eq!(request.method(), Method::Put);
    let ids: Vec<&str> = sent.ids.iter().map(|i| i.as_str()).collect();
    assert_eq!(ids, vec!["r1", "r3"]);
    let all = Album::add_uploaded(
        &reports,
        Ok(vec![MovedAsset::new(Id::new("r1".to_string()), true), MovedAsset::new(Id::new("r3".to_string()), true)]),
    )
    .unwrap();
    assert_eq!(all.len(), 3);

    let (_, request) = c.upload_to_album(2, work(), &album("Trip", "unsafe id"));
    assert!(matches!(request, Err(ImmichError::InvalidUrl(_))));
}
