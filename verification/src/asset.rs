use vstd::prelude::*;
use vstd::string::StringExecFns;
use crate::api::upload::{Status, Uploaded};
use crate::datetime::{civil_timestamp, formatted, DateTime};
use crate::http::{CallError, Reply};
use crate::utils::{client_name, Id, ImmichError, User};

verus! {

/// The id of an asset on the server.
pub type AssetId = Id;

/// What kind of media an asset is.
#[derive(Clone, Copy, Debug, PartialEq, Eq, Structural)]
pub enum AssetType {
    Image,
    Video,
    Audio,
    Other,
    Unknown,
}

impl Default for AssetType {
    fn default() -> (r: Self)
        ensures
            r is Unknown,
    {
        AssetType::Unknown
    }
}

/// Whether the server has an asset.
#[derive(Clone, Copy, Debug, PartialEq, Eq, Structural)]
pub enum AssetRemoteStatus {
    /// Nobody asked the server yet.
    Unknown,
    /// The server has the asset.
    Present,
    /// The server does not have the asset.
    Absent,
}

impl Default for AssetRemoteStatus {
    fn default() -> (r: Self)
        ensures
            r is Unknown,
    {
        AssetRemoteStatus::Unknown
    }
}

/// The SHA-1 digest of `data`, written as 40 hexadecimal digits in lower case.
pub uninterp spec fn sha1_hex(data: Seq<u8>) -> Seq<char>;

/// Whether `c` is a hexadecimal digit in lower case.
pub open spec fn lower_hex(c: char) -> bool {
    ('0' <= c && c <= '9') || ('a' <= c && c <= 'f')
}

/// `Sha1::from(data).hexdigest()` of `sha1_smol`: the digest that `sha1_hex` names,
/// which is written as 40 hexadecimal digits in lower case.
#[verifier::external_body]
fn sha1_hexdigest(data: &[u8]) -> (s: String)
    ensures
        s@ == sha1_hex(data@),
        s@.len() == 40,
        forall|i: int| 0 <= i < 40 ==> lower_hex(#[trigger] s@[i]),
{
    sha1_smol::Sha1::from(data).hexdigest()
}

/// The client-side id of an asset that was made from nothing.
pub open spec fn empty_device_asset_id() -> Seq<char> {
    "Immich-0.1 (Rust Client)"@ + "-empty"@
}

/// The client-side id of an asset read from a file without a name, created at the
/// second `created`.
pub open spec fn unnamed_device_asset_id(created: int) -> Seq<char> {
    "Immich-0.1 (Rust Client)"@ + " - "@ + formatted(
        created,
        "[year][month][day]_[hour][minute][second]"@,
    )
}

/// An image, a video or another piece of media, with what the server wants to know of it.
#[derive(Debug)]
pub struct Asset {
    id: Id,
    device_asset_id: String,
    device_id: String,
    asset_data: Vec<u8>,
    owner: Option<User>,
    file_created_at: DateTime,
    file_modified_at: DateTime,
    asset_type: AssetType,
    remote_status: AssetRemoteStatus,
}

impl Asset {
    /// The id of the asset on the server; empty until the asset was uploaded.
    pub closed spec fn id_spec(&self) -> Seq<char> {
        self.id@
    }

    /// The id of the asset on the side of the client.
    pub closed spec fn device_asset_id_spec(&self) -> Seq<char> {
        self.device_asset_id@
    }

    /// The name of the client that made the asset.
    pub closed spec fn device_id_spec(&self) -> Seq<char> {
        self.device_id@
    }

    /// The media itself.
    pub closed spec fn asset_data_spec(&self) -> Seq<u8> {
        self.asset_data@
    }

    /// The owner of the asset on the server, once the server told.
    pub closed spec fn owner_spec(&self) -> Option<User> {
        self.owner
    }

    /// When the asset was created, in seconds since the start of 1970.
    pub closed spec fn created_at_spec(&self) -> int {
        self.file_created_at@
    }

    /// When the asset was last changed, in seconds since the start of 1970.
    pub closed spec fn modified_at_spec(&self) -> int {
        self.file_modified_at@
    }

    /// What kind of media the asset is.
    pub closed spec fn asset_type_spec(&self) -> AssetType {
        self.asset_type
    }

    /// Whether the server has the asset, as far as this client knows.
    pub closed spec fn remote_status_spec(&self) -> AssetRemoteStatus {
        self.remote_status
    }

    /// The two assets differ at most in their id on the server and in whether the
    /// server has them.
    pub open spec fn same_media(&self, other: &Asset) -> bool {
        &&& self.device_asset_id_spec() == other.device_asset_id_spec()
        &&& self.device_id_spec() == other.device_id_spec()
        &&& self.asset_data_spec() == other.asset_data_spec()
        &&& self.owner_spec() == other.owner_spec()
        &&& self.created_at_spec() == other.created_at_spec()
        &&& self.modified_at_spec() == other.modified_at_spec()
        &&& self.asset_type_spec() == other.asset_type_spec()
    }

    /// An asset of this client that the server has not seen: the media `asset_data`
    /// under the client-side id `device_asset_id`.
    pub fn new(
        device_asset_id: String,
        file_created_at: DateTime,
        file_modified_at: DateTime,
        asset_data: Vec<u8>,
    ) -> (r: Self)
        ensures
            r.id_spec() == Seq::<char>::empty(),
            r.device_asset_id_spec() == device_asset_id@,
            r.device_id_spec() == "Immich-0.1 (Rust Client)"@,
            r.asset_data_spec() == asset_data@,
            r.owner_spec() is None,
            r.created_at_spec() == file_created_at@,
            r.modified_at_spec() == file_modified_at@,
            r.asset_type_spec() is Unknown,
            r.remote_status_spec() is Unknown,
    {
        Asset {
            id: Id::default(),
            device_asset_id,
            device_id: client_name().to_owned(),
            asset_data,
            owner: None,
            file_created_at,
            file_modified_at,
            asset_type: AssetType::Unknown,
            remote_status: AssetRemoteStatus::Unknown,
        }
    }

    /// The asset for what was read from a file: its name where it has one, the times of
    /// its creation and of its last change where the file system told them, and its
    /// content. A time that is not known is the default time; a file without a name is
    /// called after this client and the time of its creation.
    pub fn from_file(
        name: Option<&str>,
        created: Option<DateTime>,
        modified: Option<DateTime>,
        data: Vec<u8>,
    ) -> (r: Self)
        ensures
            r.id_spec() == Seq::<char>::empty(),
            r.device_id_spec() == "Immich-0.1 (Rust Client)"@,
            r.asset_data_spec() == data@,
            r.owner_spec() is None,
            r.asset_type_spec() is Unknown,
            r.remote_status_spec() is Unknown,
            r.created_at_spec() == match created {
                Some(t) => t@,
                None => civil_timestamp(1990, 10, 3, 12, 0, 0),
            },
            r.modified_at_spec() == match modified {
                Some(t) => t@,
                None => civil_timestamp(1990, 10, 3, 12, 0, 0),
            },
            r.device_asset_id_spec() == match name {
                Some(n) => n@,
                None => unnamed_device_asset_id(r.created_at_spec()),
            },
    {
        let file_created_at = match created {
            Some(t) => t,
            None => DateTime::default(),
        };
        let file_modified_at = match modified {
            Some(t) => t,
            None => DateTime::default(),
        };
        let device_asset_id = match name {
            Some(n) => n.to_owned(),
            None => Self::unnamed(file_created_at.filename().as_str()),
        };
        Asset::new(device_asset_id, file_created_at, file_modified_at, data)
    }

    /// The client-side id of an asset without a name: the name of this client and
    /// `created`, the time of creation as it stands in a file name.
    pub fn unnamed(created: &str) -> (r: String)
        ensures
            r@ == "Immich-0.1 (Rust Client)"@ + " - "@ + created@,
    {
        let mut id = client_name().to_owned();
        id.append(" - ");
        id.append(created);
        id
    }

    /// The id of the asset on the server; empty until the asset was uploaded.
    pub fn id(&self) -> (r: &Id)
        ensures
            r@ == self.id_spec(),
    {
        &self.id
    }

    /// The id of the asset on the side of the client, usually the name of its file.
    pub fn device_asset_id(&self) -> (r: &str)
        ensures
            r@ == self.device_asset_id_spec(),
    {
        self.device_asset_id.as_str()
    }

    /// Gives the asset another client-side id.
    pub fn device_asset_id_mut(&mut self, device_asset_id: String)
        ensures
            final(self).device_asset_id_spec() == device_asset_id@,
            final(self).id_spec() == old(self).id_spec(),
            final(self).device_id_spec() == old(self).device_id_spec(),
            final(self).asset_data_spec() == old(self).asset_data_spec(),
            final(self).owner_spec() == old(self).owner_spec(),
            final(self).created_at_spec() == old(self).created_at_spec(),
            final(self).modified_at_spec() == old(self).modified_at_spec(),
            final(self).asset_type_spec() == old(self).asset_type_spec(),
            final(self).remote_status_spec() == old(self).remote_status_spec(),
    {
        self.device_asset_id = device_asset_id;
    }

    /// The name of this client.
    pub fn device_id(&self) -> (r: &str)
        ensures
            r@ == self.device_id_spec(),
    {
        self.device_id.as_str()
    }

    /// When the asset was created.
    pub fn created_at(&self) -> (r: &DateTime)
        ensures
            r@ == self.created_at_spec(),
    {
        &self.file_created_at
    }

    /// When the asset was last changed.
    pub fn modified_at(&self) -> (r: &DateTime)
        ensures
            r@ == self.modified_at_spec(),
    {
        &self.file_modified_at
    }

    /// The media itself.
    pub fn asset_data(&self) -> (r: &[u8])
        ensures
            r@ == self.asset_data_spec(),
    {
        self.asset_data.as_slice()
    }

    /// The owner of the asset on the server, once the server told.
    pub fn owner(&self) -> (r: Option<&User>)
        ensures
            r is Some == self.owner_spec() is Some,
            r matches Some(u) ==> *u == self.owner_spec()->Some_0,
    {
        self.owner.as_ref()
    }

    /// What kind of media the asset is.
    pub fn asset_type(&self) -> (r: &AssetType)
        ensures
            *r == self.asset_type_spec(),
    {
        &self.asset_type
    }

    /// Says what kind of media the asset is.
    pub fn asset_type_mut(&mut self, asset_type: AssetType)
        ensures
            final(self).asset_type_spec() == asset_type,
            final(self).same_identity(old(self)),
            final(self).remote_status_spec() == old(self).remote_status_spec(),
    {
        self.asset_type = asset_type;
    }

    /// The two assets have the same ids, media, owner and times.
    pub open spec fn same_identity(&self, other: &Asset) -> bool {
        &&& self.id_spec() == other.id_spec()
        &&& self.device_asset_id_spec() == other.device_asset_id_spec()
        &&& self.device_id_spec() == other.device_id_spec()
        &&& self.asset_data_spec() == other.asset_data_spec()
        &&& self.owner_spec() == other.owner_spec()
        &&& self.created_at_spec() == other.created_at_spec()
        &&& self.modified_at_spec() == other.modified_at_spec()
    }

    /// Whether the server has the asset, as far as this client knows.
    pub fn remote_status(&self) -> (r: &AssetRemoteStatus)
        ensures
            *r == self.remote_status_spec(),
    {
        &self.remote_status
    }

    /// Notes whether the server has the asset.
    pub fn remote_status_mut(&mut self, remote_status: AssetRemoteStatus)
        ensures
            final(self).remote_status_spec() == remote_status,
            final(self).same_identity(old(self)),
            final(self).asset_type_spec() == old(self).asset_type_spec(),
    {
        self.remote_status = remote_status;
    }

    /// The SHA-1 checksum of the media, in 40 hexadecimal digits in lower case.
    pub fn checksum(&self) -> (r: String)
        ensures
            r@ == sha1_hex(self.asset_data_spec()),
            r@.len() == 40,
            forall|i: int| 0 <= i < 40 ==> lower_hex(#[trigger] r@[i]),
    {
        sha1_hexdigest(self.asset_data.as_slice())
    }

    /// What the client-side id of an answer is: the one the server sent, or the asset's
    /// own where the server sent none.
    pub open spec fn answered_device_asset_id(&self, response: &Uploaded) -> Seq<char> {
        if response.device_asset_id_spec().len() == 0 {
            self.device_asset_id_spec()
        } else {
            response.device_asset_id_spec()
        }
    }

    /// Takes over what the server answered to the upload of this asset: the asset now has
    /// the server's id and is known to be on the server. The answer comes back with the
    /// asset's client-side id where the server sent none.
    pub fn parse_upload(&mut self, response: Uploaded) -> (r: Uploaded)
        ensures
            final(self).same_media(old(self)),
            final(self).remote_status_spec() is Present,
            final(self).id_spec() == response.id_spec(),
            r.status_spec() == response.status_spec(),
            r.id_spec() == response.id_spec(),
            r.device_asset_id_spec() == old(self).answered_device_asset_id(&response),
    {
        let mut response = response;
        self.remote_status = AssetRemoteStatus::Present;
        self.id = response.id().clone();
        if response.device_asset_id().is_empty() {
            response.device_asset_id_mut(self.device_asset_id.as_str());
        }
        response
    }

    /// What the reply to the upload of this asset means. With status 200 or 201 and a
    /// body that is an answer, the asset takes the answer over (see `parse_upload`) and
    /// the answer is returned. Anything else leaves the asset as it is and is an error:
    /// `Status` with the body's text for another status, `Io` where the body cannot be
    /// read, and what `ImmichError::from` makes of a request that got no answer.
    pub fn upload(&mut self, reply: Reply<Uploaded>) -> (r: Result<Uploaded, ImmichError>)
        ensures
            match reply {
                Ok(response) => if response.status == 200 || response.status == 201 {
                    match response.json {
                        Some(answer) => {
                            &&& r matches Ok(u)
                            &&& u.status_spec() == answer.status_spec()
                            &&& u.id_spec() == answer.id_spec()
                            &&& u.device_asset_id_spec() == old(self).answered_device_asset_id(
                                &answer,
                            )
                            &&& final(self).same_media(old(self))
                            &&& final(self).remote_status_spec() is Present
                            &&& final(self).id_spec() == answer.id_spec()
                        },
                        None => {
                            &&& r matches Err(ImmichError::Io { .. })
                            &&& *final(self) == *old(self)
                        },
                    }
                } else {
                    match response.text {
                        Some(text) => {
                            &&& r matches Err(ImmichError::Status(code, t))
                            &&& code == response.status
                            &&& t@ == text@
                            &&& *final(self) == *old(self)
                        },
                        None => {
                            &&& r matches Err(ImmichError::Io { .. })
                            &&& *final(self) == *old(self)
                        },
                    }
                },
                Err(CallError::Status { code, status_text, .. }) => {
                    &&& r matches Err(ImmichError::Status(c, t))
                    &&& c == code
                    &&& t@ == status_text@
                    &&& *final(self) == *old(self)
                },
                Err(CallError::Transport { message, .. }) => {
                    &&& r matches Err(ImmichError::Transport(t))
                    &&& t@ == match message {
                        Some(m) => m@,
                        None => "Unknown connection error"@,
                    }
                    &&& *final(self) == *old(self)
                },
            },
    {
        match reply {
            Ok(response) => {
                if response.status == 200 || response.status == 201 {
                    match response.json {
                        Some(answer) => Ok(self.parse_upload(answer)),
                        None => Err(ImmichError::unreadable_body()),
                    }
                } else {
                    match response.text {
                        Some(text) => Err(ImmichError::Status(response.status, text)),
                        None => Err(ImmichError::unreadable_body()),
                    }
                }
            },
            Err(error) => Err(ImmichError::from(error)),
        }
    }
}

impl Default for Asset {
    /// An asset without media, called after this client.
    fn default() -> (r: Self)
        ensures
            r.id_spec() == Seq::<char>::empty(),
            r.device_asset_id_spec() == empty_device_asset_id(),
            r.device_id_spec() == "Immich-0.1 (Rust Client)"@,
            r.asset_data_spec() == Seq::<u8>::empty(),
            r.owner_spec() is None,
            r.created_at_spec() == 654_955_200,
            r.modified_at_spec() == 654_955_200,
            r.asset_type_spec() is Unknown,
            r.remote_status_spec() is Unknown,
    {
        let mut device_asset_id = client_name().to_owned();
        device_asset_id.append("-empty");
        Asset::new(device_asset_id, DateTime::default(), DateTime::default(), Vec::new())
    }
}

} // verus!
