use vstd::prelude::*;
use vstd::string::StringExecFns;
use crate::api::requests::{ids_view, moved_view, AddToAlbum, AssetMoveError, MovedAsset, MovedView};
use crate::api::upload::{uploaded_view, Status, Uploaded, UploadedView};
use crate::client::{client_headers, Client};
use crate::http::{CallError, Method, Reply, Request};
use crate::utils::{safe_shape, Id, ImmichError, User};

verus! {

/// An album on the server.
#[derive(Debug)]
pub struct Album {
    album_name: String,
    asset_count: usize,
    id: Id,
    owner: User,
    shared: bool,
}

/// The ids of the uploads that went through, in the order of the uploads.
pub open spec fn uploaded_ids(results: Seq<UploadedView>) -> Seq<Seq<char>>
    decreases results.len(),
{
    if results.len() == 0 {
        Seq::empty()
    } else if results.last().status is Failure {
        uploaded_ids(results.drop_last())
    } else {
        uploaded_ids(results.drop_last()).push(results.last().id)
    }
}

/// The outcome of an asset that was put into no album because its upload failed: it
/// has no id on the server.
pub open spec fn failed_move() -> MovedView {
    MovedView {
        id: Seq::<char>::empty(),
        success: false,
        error: Some(AssetMoveError::UploadFailed),
    }
}

/// One outcome for each upload that failed: the asset was put into no album because its
/// upload failed.
pub open spec fn failed_moves(results: Seq<UploadedView>) -> Seq<MovedView>
    decreases results.len(),
{
    if results.len() == 0 {
        Seq::empty()
    } else if results.last().status is Failure {
        failed_moves(results.drop_last()).push(failed_move())
    } else {
        failed_moves(results.drop_last())
    }
}

/// Each outcome of a failed upload is the same: no id, no success, and the upload as
/// the reason.
pub proof fn lemma_failed_moves(results: Seq<UploadedView>)
    ensures
        failed_moves(results).len() == failures(results),
        forall|i: int|
            0 <= i < failed_moves(results).len() ==> #[trigger] failed_moves(results)[i]
                == failed_move(),
    decreases results.len(),
{
    if results.len() > 0 {
        lemma_failed_moves(results.drop_last());
    }
}

/// The number of uploads that failed.
pub open spec fn failures(results: Seq<UploadedView>) -> nat
    decreases results.len(),
{
    if results.len() == 0 {
        0
    } else if results.last().status is Failure {
        failures(results.drop_last()) + 1
    } else {
        failures(results.drop_last())
    }
}

/// The number of outcomes that say that the upload failed.
pub open spec fn upload_failures(moved: Seq<MovedView>) -> nat
    decreases moved.len(),
{
    if moved.len() == 0 {
        0
    } else if moved.last().error == Some(AssetMoveError::UploadFailed) {
        upload_failures(moved.drop_last()) + 1
    } else {
        upload_failures(moved.drop_last())
    }
}

/// Outcomes put behind others add their number of failed uploads.
pub proof fn lemma_upload_failures_add(a: Seq<MovedView>, b: Seq<MovedView>)
    ensures
        upload_failures(a + b) == upload_failures(a) + upload_failures(b),
    decreases b.len(),
{
    if b.len() == 0 {
        assert(a + b == a);
    } else {
        assert((a + b).drop_last() == a + b.drop_last());
        assert((a + b).last() == b.last());
        lemma_upload_failures_add(a, b.drop_last());
    }
}

/// Every upload is among those that went through or among those that failed, and each
/// failed upload has its own outcome that says so.
pub proof fn lemma_uploads_split(results: Seq<UploadedView>)
    ensures
        uploaded_ids(results).len() + failures(results) == results.len(),
        failed_moves(results).len() == failures(results),
        upload_failures(failed_moves(results)) == failures(results),
    decreases results.len(),
{
    if results.len() > 0 {
        lemma_uploads_split(results.drop_last());
        if results.last().status is Failure {
            assert(failed_moves(results).drop_last() == failed_moves(results.drop_last()));
        }
    }
}

/// What the album integrator returns for the uploads `results`, where the server said
/// `moved` of those that went through: `moved`, and behind it one outcome for each
/// upload that failed.
pub open spec fn composed(results: Seq<UploadedView>, moved: Seq<MovedView>) -> Seq<MovedView> {
    moved + failed_moves(results)
}

/// Uploading into an album accounts for every asset and for every failure. Where the
/// server said one thing of each asset that it was asked to add, there are as many
/// outcomes as uploads; and at least as many outcomes say that the upload failed as
/// uploads failed.
pub proof fn lemma_composed_covers(results: Seq<UploadedView>, moved: Seq<MovedView>)
    ensures
        moved.len() == uploaded_ids(results).len() ==> composed(results, moved).len()
            == results.len(),
        upload_failures(composed(results, moved)) >= failures(results),
        upload_failures(composed(results, moved)) == upload_failures(moved) + failures(results),
{
    lemma_uploads_split(results);
    lemma_upload_failures_add(moved, failed_moves(results));
}

impl Album {
    /// The name of the album.
    pub closed spec fn name_spec(&self) -> Seq<char> {
        self.album_name@
    }

    /// The number of assets in the album.
    pub closed spec fn len_spec(&self) -> usize {
        self.asset_count
    }

    /// The id of the album.
    pub closed spec fn id_spec(&self) -> Seq<char> {
        self.id@
    }

    /// The owner of the album.
    pub closed spec fn owner_spec(&self) -> User {
        self.owner
    }

    /// Whether the album is shared.
    pub closed spec fn shared_spec(&self) -> bool {
        self.shared
    }

    /// An album as the server describes it.
    pub fn from_parts(album_name: String, asset_count: usize, id: Id, owner: User, shared: bool) -> (r:
        Self)
        ensures
            r.name_spec() == album_name@,
            r.len_spec() == asset_count,
            r.id_spec() == id@,
            r.owner_spec() == owner,
            r.shared_spec() == shared,
    {
        Album { album_name, asset_count, id, owner, shared }
    }

    /// The request that creates an album called `name` for `owner`, and the album that
    /// it sends: one without assets and without an id, not shared.
    pub fn new_request(client: &Client, owner: User, name: String) -> (r: (Request, Album))
        ensures
            client.is_request(&r.0, Method::Post, "/albums"@),
            r.1.name_spec() == name@,
            r.1.len_spec() == 0,
            r.1.id_spec() == Seq::<char>::empty(),
            r.1.owner_spec() == owner,
            !r.1.shared_spec(),
    {
        let album = Album {
            album_name: name,
            asset_count: 0,
            id: Id::default(),
            owner,
            shared: false,
        };
        (client.post("/albums"), album)
    }

    /// The album that the reply to its creation tells of. Status 201 with a body that
    /// is an album gives that album. Another status is `Status` with the status text;
    /// a body that cannot be read is `Io`; a request without an answer is what
    /// `ImmichError::from` makes of it.
    pub fn new(reply: Reply<Album>) -> (r: Result<Album, ImmichError>)
        ensures
            match reply {
                Ok(response) => if response.status == 201 {
                    match response.json {
                        Some(album) => r == Ok::<Album, ImmichError>(album),
                        None => r matches Err(ImmichError::Io { .. }),
                    }
                } else {
                    r matches Err(ImmichError::Status(code, t)) && code == response.status && t@
                        == response.status_text@
                },
                Err(CallError::Status { code, status_text, .. }) => r matches Err(
                    ImmichError::Status(c, t),
                ) && c == code && t@ == status_text@,
                Err(CallError::Transport { message, .. }) => r matches Err(
                    ImmichError::Transport(t),
                ) && t@ == match message {
                    Some(m) => m@,
                    None => "Unknown connection error"@,
                },
            },
    {
        match reply {
            Ok(response) => {
                if response.status == 201 {
                    match response.json {
                        Some(album) => Ok(album),
                        None => Err(ImmichError::unreadable_body()),
                    }
                } else {
                    Err(ImmichError::from_response(&response))
                }
            },
            Err(error) => Err(ImmichError::from(error)),
        }
    }

    /// The first of `albums` that is called `name`; `None` where there is none, so
    /// that an album of that name is yet to be created.
    pub fn get_or_create(albums: Albums, name: &str) -> (r: Option<Album>)
        ensures
            match r {
                Some(album) => exists|k: int|
                    0 <= k < albums@.len() && #[trigger] albums@[k] == album && album.name_spec()
                        == name@ && forall|j: int|
                        0 <= j < k ==> (#[trigger] albums@[j]).name_spec() != name@,
                None => forall|j: int|
                    0 <= j < albums@.len() ==> (#[trigger] albums@[j]).name_spec() != name@,
            },
    {
        let mut all = albums.albums;
        let mut k: usize = 0;
        while k < all.len()
            invariant
                k <= all.len(),
                all@ == albums@,
                forall|j: int| 0 <= j < k ==> (#[trigger] all@[j]).name_spec() != name@,
            decreases all.len() - k,
        {
            if crate::text::str_eq(all[k].name(), name) {
                let found = all.swap_remove(k);
                return Some(found);
            }
            k += 1;
        }
        None
    }

    /// The name of the album.
    pub fn name(&self) -> (r: &str)
        ensures
            r@ == self.name_spec(),
    {
        self.album_name.as_str()
    }

    /// The number of assets in the album.
    pub fn len(&self) -> (r: usize)
        ensures
            r == self.len_spec(),
    {
        self.asset_count
    }

    /// Whether the album holds no asset.
    pub fn is_empty(&self) -> (r: bool)
        ensures
            r == (self.len_spec() == 0),
    {
        self.len() == 0
    }

    /// The id of the album.
    pub fn id(&self) -> (r: &Id)
        ensures
            r@ == self.id_spec(),
    {
        &self.id
    }

    /// The owner of the album.
    pub fn owner(&self) -> (r: &User)
        ensures
            *r == self.owner_spec(),
    {
        &self.owner
    }

    /// Whether the album is shared.
    pub fn shared(&self) -> (r: bool)
        ensures
            r == self.shared_spec(),
    {
        self.shared
    }

    /// The path on the server under which assets are added to the album with the id
    /// `id`.
    pub open spec fn assets_path(id: Seq<char>) -> Seq<char> {
        "/albums/"@ + id + "/assets"@
    }

    /// The request that adds the assets `ids` to the album, and what it sends.
    /// `InvalidUrl` where the id of the album has not the shape of an id: then nothing
    /// is to be sent.
    pub fn add_assets(&self, client: &Client, ids: Vec<Id>) -> (r: Result<
        (Request, AddToAlbum),
        ImmichError,
    >)
        ensures
            safe_shape(self.id_spec()) ==> ({
                &&& r matches Ok(sent)
                &&& sent.1.ids == ids
                &&& sent.0.method_spec() == Method::Put
                &&& sent.0.url_spec() == client.url_spec() + Self::assets_path(self.id_spec())
                &&& sent.0.headers_spec() == client_headers(client.auth_spec())
            }),
            !safe_shape(self.id_spec()) ==> (r matches Err(ImmichError::InvalidUrl(m)) && m@
                == "Album has an invalid Id"@),
    {
        if !self.id.is_safe() {
            return Err(ImmichError::InvalidUrl("Album has an invalid Id".to_owned()));
        }
        let mut path = "/albums/".to_owned();
        path.append(self.id.as_str());
        path.append("/assets");
        proof {
            reveal_strlit("/albums/");
            assert(path@ == Self::assets_path(self.id_spec()));
            assert(path@[0] == '/');
        }
        Ok((client.put(path.as_str()), AddToAlbum::from(ids)))
    }

    /// What the reply to adding assets tells of them. Status 200 with a body that is a
    /// list of outcomes gives that list. Another status is `Status` with the text of
    /// the body; a body that cannot be read is `Io`; a request without an answer is
    /// what `ImmichError::from` makes of it.
    pub fn added_assets(reply: Reply<Vec<MovedAsset>>) -> (r: Result<
        Vec<MovedAsset>,
        ImmichError,
    >)
        ensures
            match reply {
                Ok(response) => if response.status == 200 {
                    match response.json {
                        Some(moved) => r == Ok::<Vec<MovedAsset>, ImmichError>(moved),
                        None => r matches Err(ImmichError::Io { .. }),
                    }
                } else {
                    match response.text {
                        Some(text) => r matches Err(ImmichError::Status(code, t)) && code
                            == response.status && t@ == text@,
                        None => r matches Err(ImmichError::Io { .. }),
                    }
                },
                Err(CallError::Status { code, status_text, .. }) => r matches Err(
                    ImmichError::Status(c, t),
                ) && c == code && t@ == status_text@,
                Err(CallError::Transport { message, .. }) => r matches Err(
                    ImmichError::Transport(t),
                ) && t@ == match message {
                    Some(m) => m@,
                    None => "Unknown connection error"@,
                },
            },
    {
        match reply {
            Ok(response) => {
                if response.status == 200 {
                    match response.json {
                        Some(moved) => Ok(moved),
                        None => Err(ImmichError::unreadable_body()),
                    }
                } else {
                    match response.text {
                        Some(text) => Err(ImmichError::Status(response.status, text)),
                        None => Err(ImmichError::unreadable_body()),
                    }
                }
            },
            Err(error) => Err(ImmichError::from(error)),
        }
    }

    /// The ids of the uploads that went through: the assets to add to an album.
    pub fn uploaded(results: &Vec<Uploaded>) -> (r: Vec<Id>)
        ensures
            ids_view(r@) == uploaded_ids(uploaded_view(results@)),
    {
        let mut ids: Vec<Id> = Vec::new();
        let mut i: usize = 0;
        assert(ids_view(ids@) =~= Seq::empty());
        while i < results.len()
            invariant
                i <= results.len(),
                ids_view(ids@) == uploaded_ids(uploaded_view(results@).take(i as int)),
            decreases results.len() - i,
        {
            let ghost before = ids@;
            assert(uploaded_view(results@).take(i + 1).drop_last() == uploaded_view(
                results@,
            ).take(i as int));
            assert(uploaded_view(results@).take(i + 1).last() == results@[i as int]@);
            match results[i].status() {
                Status::Failure => {},
                _ => {
                    ids.push(results[i].id().clone());
                    assert(ids_view(ids@) =~= ids_view(before).push(results@[i as int]@.id));
                },
            }
            i += 1;
        }
        assert(uploaded_view(results@).take(results.len() as int) == uploaded_view(results@));
        ids
    }

    /// What came of uploading assets into an album: what the server said of the assets
    /// that went through, and behind it one outcome for each upload that failed, which
    /// has no id, is no success and names the upload as the reason. Where the server
    /// could not be asked or did not answer as it should, the error is handed on.
    pub fn add_uploaded(
        results: &Vec<Uploaded>,
        moved: Result<Vec<MovedAsset>, ImmichError>,
    ) -> (r: Result<Vec<MovedAsset>, ImmichError>)
        ensures
            match moved {
                Ok(m) => {
                    &&& r matches Ok(all)
                    &&& moved_view(all@) == composed(uploaded_view(results@), moved_view(m@))
                    &&& all@.len() == m@.len() + failures(uploaded_view(results@))
                    &&& forall|i: int|
                        m@.len() <= i < all@.len() ==> (#[trigger] all@[i])@ == failed_move()
                },
                Err(e) => r == Err::<Vec<MovedAsset>, ImmichError>(e),
            },
    {
        proof {
            lemma_failed_moves(uploaded_view(results@));
        }
        let mut all = match moved {
            Ok(m) => m,
            Err(e) => {
                return Err(e);
            },
        };
        let ghost first = all@;
        let mut i: usize = 0;
        assert(moved_view(all@) =~= moved_view(first) + Seq::<MovedView>::empty());
        while i < results.len()
            invariant
                i <= results.len(),
                moved_view(all@) == moved_view(first) + failed_moves(
                    uploaded_view(results@).take(i as int),
                ),
            decreases results.len() - i,
        {
            let ghost before = all@;
            assert(uploaded_view(results@).take(i + 1).drop_last() == uploaded_view(
                results@,
            ).take(i as int));
            assert(uploaded_view(results@).take(i + 1).last() == results@[i as int]@);
            match results[i].status() {
                Status::Failure => {
                    all.push(MovedAsset::from_failed_upload(results[i].id().clone()));
                    assert(results@[i as int]@.id.len() == 0);
                    assert(results@[i as int]@.id =~= Seq::<char>::empty());
                    assert(moved_view(all@) =~= moved_view(before).push(failed_move()));
                    assert(moved_view(all@) =~= moved_view(first) + failed_moves(
                        uploaded_view(results@).take(i + 1),
                    ));
                },
                _ => {},
            }
            i += 1;
        }
        assert(uploaded_view(results@).take(results.len() as int) == uploaded_view(results@));
        assert forall|i: int| first.len() <= i < all@.len() implies (#[trigger] all@[i])@
            == failed_move() by {
            assert(moved_view(all@)[i] == failed_moves(uploaded_view(results@))[i - first.len()]);
        }
        Ok(all)
    }
}

/// Albums of the server.
#[derive(Debug)]
pub struct Albums {
    pub albums: Vec<Album>,
}

impl View for Albums {
    type V = Seq<Album>;

    open spec fn view(&self) -> Seq<Album> {
        self.albums@
    }
}

impl Albums {
    /// The number of albums.
    pub fn len(&self) -> (r: usize)
        ensures
            r == self@.len(),
    {
        self.albums.len()
    }

    /// Whether there is no album.
    pub fn is_empty(&self) -> (r: bool)
        ensures
            r == (self@.len() == 0),
    {
        self.albums.len() == 0
    }

    /// The albums, in the order in which the server told them.
    pub fn into_iter(self) -> (r: Vec<Album>)
        ensures
            r@ == self@,
    {
        self.albums
    }
}

} // verus!
