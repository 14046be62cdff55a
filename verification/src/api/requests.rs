use vstd::prelude::*;
use crate::asset::{sha1_hex, Asset};
use crate::utils::Id;

verus! {

/// The ids as plain text.
pub open spec fn ids_view(ids: Seq<Id>) -> Seq<Seq<char>> {
    ids.map_values(|id: Id| id@)
}

/// One asset of a bulk check: its id and the checksum of its data.
#[derive(Debug)]
pub struct BulkCheck {
    pub id: String,
    pub checksum: String,
}

impl BulkCheck {
    /// The entry of a bulk check for `asset`.
    pub fn from(asset: &Asset) -> (r: Self)
        ensures
            r.id@ == asset.id_spec(),
            r.checksum@ == sha1_hex(asset.asset_data_spec()),
    {
        BulkCheck { id: asset.id().to_string(), checksum: asset.checksum() }
    }
}

/// The assets to put into an album.
#[derive(Debug)]
pub struct AddToAlbum {
    pub ids: Vec<Id>,
}

impl AddToAlbum {
    /// The request to add these assets.
    pub fn from(ids: Vec<Id>) -> (r: Self)
        ensures
            r.ids == ids,
    {
        AddToAlbum { ids }
    }
}

/// Why an asset could not be put into an album.
#[derive(Clone, Copy, Debug, PartialEq, Eq, Structural)]
pub enum AssetMoveError {
    Duplicate,
    NoPermission,
    NotFound,
    Unknown,
    UploadFailed,
}

/// Whether an asset was put into an album, and if not, why, as plain values.
pub struct MovedView {
    pub id: Seq<char>,
    pub success: bool,
    pub error: Option<AssetMoveError>,
}

/// The outcomes as plain values.
pub open spec fn moved_view(moved: Seq<MovedAsset>) -> Seq<MovedView> {
    moved.map_values(|m: MovedAsset| m@)
}

/// Whether an asset was put into an album, and if not, why.
#[derive(Debug)]
pub struct MovedAsset {
    error: Option<AssetMoveError>,
    id: Id,
    success: bool,
}

impl View for MovedAsset {
    type V = MovedView;

    closed spec fn view(&self) -> MovedView {
        MovedView { id: self.id@, success: self.success, error: self.error }
    }
}

impl MovedAsset {
    /// Why the asset was not put into the album, if it was not.
    pub open spec fn error_spec(&self) -> Option<AssetMoveError> {
        self@.error
    }

    /// The id of the asset.
    pub open spec fn id_spec(&self) -> Seq<char> {
        self@.id
    }

    /// Whether the asset was put into the album.
    pub open spec fn success_spec(&self) -> bool {
        self@.success
    }

    /// A success carries no error, and a failure carries one.
    pub open spec fn wf(&self) -> bool {
        self@.success <==> self@.error is None
    }

    #[verifier::type_invariant]
    spec fn consistent(&self) -> bool {
        self.success <==> self.error is None
    }

    /// The outcome for `id`: a success, or a failure for an unknown reason.
    pub fn new(id: Id, success: bool) -> (r: Self)
        ensures
            r@ == (MovedView {
                id: id@,
                success,
                error: if success {
                    None
                } else {
                    Some(AssetMoveError::Unknown)
                },
            }),
    {
        if success {
            MovedAsset { error: None, id, success }
        } else {
            MovedAsset { error: Some(AssetMoveError::Unknown), id, success }
        }
    }

    /// The outcome as the server reports it. A reported success carries no error; a
    /// reported failure without a reason is one for an unknown reason.
    pub fn from_server(id: Id, success: bool, error: Option<AssetMoveError>) -> (r: Self)
        ensures
            r@ == (MovedView {
                id: id@,
                success,
                error: if success {
                    None
                } else if error is None {
                    Some(AssetMoveError::Unknown)
                } else {
                    error
                },
            }),
    {
        if success {
            MovedAsset { error: None, id, success }
        } else {
            match error {
                Some(e) => MovedAsset { error: Some(e), id, success },
                None => MovedAsset { error: Some(AssetMoveError::Unknown), id, success },
            }
        }
    }

    /// The outcome for an asset whose upload failed, so that it never reached an album.
    pub fn from_failed_upload(id: Id) -> (r: Self)
        ensures
            r@ == (MovedView {
                id: id@,
                success: false,
                error: Some(AssetMoveError::UploadFailed),
            }),
    {
        MovedAsset { error: Some(AssetMoveError::UploadFailed), id, success: false }
    }

    /// Why the asset was not put into the album, if it was not.
    pub fn error(&self) -> (r: &Option<AssetMoveError>)
        ensures
            *r == self.error_spec(),
            self.wf(),
    {
        proof {
            use_type_invariant(self);
        }
        &self.error
    }

    /// The id of the asset.
    pub fn id(&self) -> (r: &Id)
        ensures
            r@ == self.id_spec(),
    {
        &self.id
    }

    /// Whether the asset was put into the album.
    pub fn success(&self) -> (r: bool)
        ensures
            r == self.success_spec(),
            self.wf(),
    {
        proof {
            use_type_invariant(self);
        }
        self.success
    }
}

} // verus!
