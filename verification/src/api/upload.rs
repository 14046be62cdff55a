use vstd::prelude::*;
use vstd::utf8::encode_utf8;
use crate::asset::Asset;
use crate::client::{client_headers, Client};
use crate::datetime::formatted;
use crate::http::{Method, Reply, Request};
use crate::multipart::{closing, content_type, field_headers, MultipartBuilder};
use crate::url::joined;
use crate::utils::Id;

verus! {

/// How an upload ended.
#[derive(Clone, Copy, Debug, PartialEq, Eq, Structural)]
pub enum Status {
    /// The asset was uploaded.
    Created,
    /// The server had the asset already.
    Duplicate,
    /// The upload failed.
    Failure,
}

impl Status {
    /// The status in words.
    pub fn label(&self) -> (r: &'static str)
        ensures
            r@ == match self {
                Status::Created => "Created"@,
                Status::Duplicate => "Duplicate"@,
                Status::Failure => "Failure"@,
            },
    {
        match self {
            Status::Created => "Created",
            Status::Duplicate => "Duplicate",
            Status::Failure => "Failure",
        }
    }
}

/// What the server said of one uploaded asset, as plain values.
pub struct UploadedView {
    pub status: Status,
    pub id: Seq<char>,
    pub device_asset_id: Seq<char>,
}

/// The answers as plain values.
pub open spec fn uploaded_view(uploaded: Seq<Uploaded>) -> Seq<UploadedView> {
    uploaded.map_values(|u: Uploaded| u@)
}

/// What the server said of one uploaded asset, or that its upload failed.
#[derive(Debug)]
pub struct Uploaded {
    status: Status,
    id: Id,
    device_asset_id: String,
}

impl Clone for Uploaded {
    fn clone(&self) -> (r: Self)
        ensures
            r == *self,
            r.wf(),
    {
        proof {
            use_type_invariant(self);
        }
        Uploaded {
            status: self.status,
            id: self.id.clone(),
            device_asset_id: self.device_asset_id.clone(),
        }
    }
}

impl View for Uploaded {
    type V = UploadedView;

    closed spec fn view(&self) -> UploadedView {
        UploadedView {
            status: self.status,
            id: self.id@,
            device_asset_id: self.device_asset_id@,
        }
    }
}

impl Uploaded {
    /// How the upload ended.
    pub open spec fn status_spec(&self) -> Status {
        self@.status
    }

    /// The id of the asset on the server.
    pub open spec fn id_spec(&self) -> Seq<char> {
        self@.id
    }

    /// The id of the asset on the side of the client.
    pub open spec fn device_asset_id_spec(&self) -> Seq<char> {
        self@.device_asset_id
    }

    /// A failed upload has no id on the server.
    pub open spec fn wf(&self) -> bool {
        self@.status is Failure ==> self@.id.len() == 0
    }

    #[verifier::type_invariant]
    spec fn failure_without_id(&self) -> bool {
        self.status is Failure ==> self.id@.len() == 0
    }

    /// Whether the upload went through: the asset is on the server, new or not.
    pub open spec fn succeeded(&self) -> bool {
        !(self.status_spec() is Failure)
    }

    /// The answer of the server for the asset `device_asset_id`. A failure keeps no id.
    pub fn new(status: Status, id: Id, device_asset_id: String) -> (r: Self)
        ensures
            r.status_spec() == status,
            r.id_spec() == if status is Failure {
                Seq::<char>::empty()
            } else {
                id@
            },
            r.device_asset_id_spec() == device_asset_id@,
            r.wf(),
    {
        match status {
            Status::Failure => Uploaded { status, id: Id::default(), device_asset_id },
            _ => Uploaded { status, id, device_asset_id },
        }
    }

    /// The failed upload of the asset `device_asset_id`.
    pub fn from_failure(device_asset_id: &str) -> (r: Self)
        ensures
            r.status_spec() is Failure,
            r.id_spec() == Seq::<char>::empty(),
            r.device_asset_id_spec() == device_asset_id@,
            r.wf(),
    {
        Uploaded {
            status: Status::Failure,
            id: Id::default(),
            device_asset_id: device_asset_id.to_owned(),
        }
    }

    /// The id of the asset on the server; empty after a failure.
    pub fn id(&self) -> (r: &Id)
        ensures
            r@ == self.id_spec(),
            self.wf(),
    {
        proof {
            use_type_invariant(self);
        }
        &self.id
    }

    /// The id of the asset on the side of the client.
    pub fn device_asset_id(&self) -> (r: &str)
        ensures
            r@ == self.device_asset_id_spec(),
            self.wf(),
    {
        proof {
            use_type_invariant(self);
        }
        self.device_asset_id.as_str()
    }

    /// How the upload ended.
    pub fn status(&self) -> (r: &Status)
        ensures
            *r == self.status_spec(),
            self.wf(),
    {
        proof {
            use_type_invariant(self);
        }
        &self.status
    }

    /// Empties the client-side id and writes `device_asset_id` in its place.
    pub fn device_asset_id_mut(&mut self, device_asset_id: &str)
        ensures
            final(self).status_spec() == old(self).status_spec(),
            final(self).id_spec() == old(self).id_spec(),
            final(self).device_asset_id_spec() == device_asset_id@,
            final(self).wf(),
    {
        proof {
            use_type_invariant(&*self);
        }
        self.device_asset_id = device_asset_id.to_owned();
    }
}

/// The body of the request that uploads an asset: the four text fields
/// `deviceAssetId`, `deviceId`, `fileCreatedAt` and `fileModifiedAt`, and the field
/// `assetData` with the media under the file name `device_asset_id`.
pub open spec fn upload_body(
    device_asset_id: Seq<char>,
    device_id: Seq<char>,
    created: Seq<char>,
    modified: Seq<char>,
    data: Seq<u8>,
) -> Seq<u8> {
    field_headers(false, "deviceAssetId"@, None, None) + encode_utf8(device_asset_id)
        + field_headers(true, "deviceId"@, None, None) + encode_utf8(device_id) + field_headers(
        true,
        "fileCreatedAt"@,
        None,
        None,
    ) + encode_utf8(created) + field_headers(true, "fileModifiedAt"@, None, None) + encode_utf8(
        modified,
    ) + field_headers(true, "assetData"@, Some(device_asset_id), None) + data + closing(true)
}

/// The text of the second `timestamp` as it goes over the wire.
pub open spec fn wire_text(timestamp: int) -> Seq<char> {
    formatted(timestamp, "[year]-[month]-[day]T[hour]:[minute]:[second].000Z"@)
}

/// The body of the request that uploads `asset`.
pub open spec fn asset_body(asset: &Asset) -> Seq<u8> {
    upload_body(
        asset.device_asset_id_spec(),
        asset.device_id_spec(),
        wire_text(asset.created_at_spec()),
        wire_text(asset.modified_at_spec()),
        asset.asset_data_spec(),
    )
}

/// The headers of the request that uploads `asset` with a body announced as
/// `content_type`: those of every request of the client, the content type, the
/// checksum of the media, and once more the proof of who asks.
pub open spec fn upload_headers(client: &Client, asset: &Asset) -> Seq<(Seq<char>, Seq<char>)> {
    client_headers(client.auth_spec()).push(("Content-Type"@, content_type())).push(
        ("x-immich-checksum"@, crate::asset::sha1_hex(asset.asset_data_spec())),
    ).push((client.auth_spec().header_name(), client.auth_spec().header_value()))
}

/// The upload of one asset.
pub struct Upload {}

impl Upload {
    /// The request that uploads `asset`, and its body.
    pub fn post(client: &Client, asset: &Asset) -> (r: (Request, Vec<u8>))
        ensures
            r.0.method_spec() == Method::Post,
            r.0.url_spec() == joined(client.url_spec(), "/assets"@),
            r.0.headers_spec() == upload_headers(client, asset),
            r.1@ == asset_body(asset),
    {
        let (content_type, data) = Upload::format_data(asset);
        let request = client.post("/assets").set("Content-Type", content_type.as_str()).set(
            "x-immich-checksum",
            asset.checksum().as_str(),
        ).auth(client.auth());
        (request, data)
    }

    /// The content type and the body of the request that uploads `asset`.
    pub fn format_data(asset: &Asset) -> (r: (String, Vec<u8>))
        ensures
            r.0@ == content_type(),
            r.1@ == asset_body(asset),
    {
        let b0 = MultipartBuilder::new();
        let b1 = b0.add_text("deviceAssetId", asset.device_asset_id());
        assert(b1.body() =~= field_headers(false, "deviceAssetId"@, None, None) + encode_utf8(
            asset.device_asset_id_spec(),
        ));
        let b2 = b1.add_text("deviceId", asset.device_id());
        let b3 = b2.add_text("fileCreatedAt", asset.created_at().to_string().as_str());
        let b4 = b3.add_text("fileModifiedAt", asset.modified_at().to_string().as_str());
        let b5 = b4.add_bytes(asset.asset_data(), "assetData", Some(asset.device_asset_id()));
        b5.finish()
    }
}

/// What the upload of `asset` comes to, given the reply of the server: the answer of
/// the server where the asset takes one over (see `Asset::upload`), else the failed
/// upload of the asset.
pub open spec fn outcome(asset: &Asset, reply: Reply<Uploaded>) -> UploadedView {
    match reply {
        Ok(response) => match response.json {
            Some(answer) if response.status == 200 || response.status == 201 => UploadedView {
                status: answer.status_spec(),
                id: answer.id_spec(),
                device_asset_id: asset.answered_device_asset_id(&answer),
            },
            _ => failure_of(asset),
        },
        Err(_) => failure_of(asset),
    }
}

/// Whether the reply holds an answer of the server to an upload: it has status 200 or
/// 201 and a body that is such an answer.
pub open spec fn answered(reply: Reply<Uploaded>) -> bool {
    reply matches Ok(response) && (response.status == 200 || response.status == 201)
        && response.json is Some
}

/// The failed upload of `asset`.
pub open spec fn failure_of(asset: &Asset) -> UploadedView {
    UploadedView {
        status: Status::Failure,
        id: Seq::<char>::empty(),
        device_asset_id: asset.device_asset_id_spec(),
    }
}

/// What the uploads of assets come to, each given the reply of the server to it.
pub open spec fn outcomes(work: Seq<(Asset, Reply<Uploaded>)>) -> Seq<UploadedView> {
    work.map_values(|w: (Asset, Reply<Uploaded>)| outcome(&w.0, w.1))
}

/// The upload of many assets by several workers at once.
#[derive(Clone, Copy, Debug)]
pub struct ParallelUpload {
    threads: usize,
}

impl Default for ParallelUpload {
    /// Five workers.
    fn default() -> (r: Self)
        ensures
            r.threads_spec() == 5,
    {
        Self::new(5)
    }
}

impl ParallelUpload {
    /// The number of workers.
    pub closed spec fn threads_spec(&self) -> usize {
        self.threads
    }

    /// An upload by `threads` workers.
    pub fn new(threads: usize) -> (r: Self)
        ensures
            r.threads_spec() == threads,
    {
        ParallelUpload { threads }
    }

    /// The number of workers.
    pub fn threads(&self) -> (r: usize)
        ensures
            r == self.threads_spec(),
    {
        self.threads
    }

    /// How many assets may wait for a worker: two for each worker, as far as the
    /// machine can count. This bounds the media held in memory at once.
    pub fn capacity(&self) -> (r: usize)
        ensures
            r == if 2 * self.threads_spec() <= usize::MAX {
                2 * self.threads_spec()
            } else {
                usize::MAX as int
            },
    {
        if self.threads > usize::MAX / 2 {
            usize::MAX
        } else {
            self.threads * 2
        }
    }

    /// What a worker reports of one asset, given the reply of the server to its
    /// upload: the answer, which the asset takes over, or that the upload failed, which
    /// leaves the asset as it is.
    pub fn upload(asset: &mut Asset, reply: Reply<Uploaded>) -> (r: Uploaded)
        ensures
            r@ == outcome(old(asset), reply),
            final(asset).same_media(old(asset)),
            !answered(reply) ==> *final(asset) == *old(asset),
            answered(reply) ==> final(asset).id_spec() == r@.id,
            answered(reply) ==> final(asset).remote_status_spec() is Present,
    {
        match asset.upload(reply) {
            Ok(response) => response,
            Err(_) => Uploaded::from_failure(asset.device_asset_id()),
        }
    }

    /// What is reported of all the assets of `work`, each with the reply of the server
    /// to its upload, in the order of `work`: one report for each asset.
    pub fn post(&self, work: Vec<(Asset, Reply<Uploaded>)>) -> (r: Vec<Uploaded>)
        ensures
            r@.len() == work@.len(),
            uploaded_view(r@) == outcomes(work@),
    {
        let mut results: Vec<Uploaded> = Vec::new();
        let ghost all = work@;
        for item in it: work
            invariant
                it.seq() == all,
                uploaded_view(results@) == outcomes(all.take(it.index() as int)),
        {
            let ghost before = results@;
            let (asset, reply) = item;
            let mut asset = asset;
            let response = Self::upload(&mut asset, reply);
            results.push(response);
            assert(uploaded_view(results@) =~= uploaded_view(before).push(response@));
            assert(outcomes(all.take(it.index() + 1)) =~= outcomes(all.take(it.index() as int)).push(
                outcome(&item.0, item.1),
            ));
        }
        assert(all.take(all.len() as int) == all);
        results
    }
}

/// The same values in another order give the same results in another order, whatever
/// is made of each value.
pub proof fn lemma_map_keeps_multiset<A, B>(one: Seq<A>, other: Seq<A>, f: spec_fn(A) -> B)
    requires
        one.to_multiset() == other.to_multiset(),
    ensures
        one.map_values(f).to_multiset() == other.map_values(f).to_multiset(),
    decreases one.len(),
{
    one.to_multiset_ensures();
    other.to_multiset_ensures();
    one.map_values(f).to_multiset_ensures();
    other.map_values(f).to_multiset_ensures();
    if one.len() == 0 {
        assert(other.len() == 0);
        assert(one.map_values(f) =~= other.map_values(f));
    } else {
        let x = one.last();
        let fx = f(x);
        let a = one.map_values(f);
        let b = other.map_values(f);
        let a_rest = one.drop_last().map_values(f);
        let b_rest = other.remove(j_of(one, other)).map_values(f);
        let j = j_of(one, other);
        assert(one.contains(x));
        assert(one.to_multiset().count(x) > 0);
        assert(other.contains(x));
        assert(0 <= j < other.len() && other[j] == x);
        assert(one.remove(one.len() - 1) =~= one.drop_last());
        vstd::seq_lib::to_multiset_remove(one, one.len() - 1);
        vstd::seq_lib::to_multiset_remove(other, j);
        lemma_map_keeps_multiset(one.drop_last(), other.remove(j), f);
        assert(a =~= a_rest.push(fx));
        vstd::seq_lib::to_multiset_build(a_rest, fx);
        assert(b.remove(j) =~= b_rest);
        assert(b[j] == fx);
        vstd::seq_lib::to_multiset_remove(b, j);
        assert(b.contains(fx));
        assert(b.to_multiset().count(fx) > 0);
        assert(b.to_multiset() =~= b.to_multiset().remove(fx).insert(fx));
        assert(a.to_multiset() =~= b.to_multiset());
    }
}

/// A place in `other` of the last value of `one`, where there is one.
spec fn j_of<A>(one: Seq<A>, other: Seq<A>) -> int {
    choose|j: int| 0 <= j < other.len() && other[j] == one.last()
}

/// In whatever order the uploads end, the reports are the same but for their order: so
/// they do not depend on how many workers there are, nor on which worker is the faster.
pub proof fn lemma_reports_whatever_the_order(
    one: Seq<(Asset, Reply<Uploaded>)>,
    other: Seq<(Asset, Reply<Uploaded>)>,
)
    requires
        one.to_multiset() == other.to_multiset(),
    ensures
        outcomes(one).to_multiset() == outcomes(other).to_multiset(),
        outcomes(one).len() == one.len(),
{
    lemma_map_keeps_multiset(
        one,
        other,
        |w: (Asset, Reply<Uploaded>)| outcome(&w.0, w.1),
    );
}

} // verus!
