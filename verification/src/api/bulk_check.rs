use vstd::prelude::*;
use crate::asset::{sha1_hex, Asset, AssetRemoteStatus};
use crate::client::Client;
use crate::http::{CallError, Method, Reply, Request};
use crate::text::str_eq;
use crate::utils::ImmichError;

verus! {

/// What the server wants done with an asset of a bulk check.
#[derive(Clone, Copy, Debug, PartialEq, Eq, Structural)]
pub enum BulkCheckAction {
    /// The server does not have the asset and accepts an upload.
    Accept,
    /// The server has the asset and rejects an upload.
    Reject,
}

impl BulkCheckAction {
    /// Whether the server has an asset for which it wants this done.
    pub open spec fn status_spec(self) -> AssetRemoteStatus {
        match self {
            BulkCheckAction::Accept => AssetRemoteStatus::Absent,
            BulkCheckAction::Reject => AssetRemoteStatus::Present,
        }
    }

    /// Whether the server has an asset for which it wants this done.
    pub fn status(self) -> (r: AssetRemoteStatus)
        ensures
            r == self.status_spec(),
    {
        match self {
            BulkCheckAction::Accept => AssetRemoteStatus::Absent,
            BulkCheckAction::Reject => AssetRemoteStatus::Present,
        }
    }
}

/// What the server says of one asset of a bulk check.
#[derive(Debug)]
pub struct BulkCheckResult {
    pub id: String,
    pub action: BulkCheckAction,
}

impl BulkCheckResult {
    /// The id of the asset.
    pub fn id(&self) -> (r: &str)
        ensures
            r@ == self.id@,
    {
        self.id.as_str()
    }
}

/// What the server says of the assets of a bulk check.
#[derive(Debug)]
pub struct BulkCheckResults {
    pub results: Vec<BulkCheckResult>,
}

impl BulkCheckResults {
    /// Of how many assets the server says something.
    pub fn len(&self) -> (r: usize)
        ensures
            r == self.results@.len(),
    {
        self.results.len()
    }

    /// What the server says, asset by asset.
    pub fn into_iter(self) -> (r: Vec<BulkCheckResult>)
        ensures
            r == self.results,
    {
        self.results
    }
}

/// What a bulk check asks of one asset: its id and the checksum of its media.
#[derive(Debug)]
pub struct BulkCheckRequest {
    pub id: String,
    pub checksum: String,
}

impl BulkCheckRequest {
    /// What a bulk check asks of `asset`.
    pub fn from(asset: &Asset) -> (r: Self)
        ensures
            r.id@ == asset.id_spec(),
            r.checksum@ == sha1_hex(asset.asset_data_spec()),
    {
        BulkCheckRequest { id: asset.id().as_str().to_owned(), checksum: asset.checksum() }
    }
}

/// What the server is known to have of `asset` after it said `result` of it: what it
/// said, where it spoke of the asset by its id; else what was known before.
pub open spec fn checked_status(asset: &Asset, result: &BulkCheckResult) -> AssetRemoteStatus {
    if asset.id_spec() == result.id@ {
        result.action.status_spec()
    } else {
        asset.remote_status_spec()
    }
}

/// The check of many assets at once for whether the server has them.
pub struct BulkUploadCheck {}

impl BulkUploadCheck {
    /// The request that checks `assets`, and what it sends: one entry for each asset,
    /// in order.
    pub fn post(client: &Client, assets: &Vec<Asset>) -> (r: (Request, Vec<BulkCheckRequest>))
        ensures
            client.is_request(&r.0, Method::Post, "/assets/bulk-upload-check"@),
            r.1@.len() == assets@.len(),
            forall|i: int|
                0 <= i < assets@.len() ==> (#[trigger] r.1@[i]).id@ == assets@[i].id_spec()
                    && r.1@[i].checksum@ == sha1_hex(assets@[i].asset_data_spec()),
    {
        let mut data: Vec<BulkCheckRequest> = Vec::new();
        let mut i: usize = 0;
        while i < assets.len()
            invariant
                i <= assets.len(),
                data@.len() == i,
                forall|k: int|
                    0 <= k < i ==> (#[trigger] data@[k]).id@ == assets@[k].id_spec()
                        && data@[k].checksum@ == sha1_hex(assets@[k].asset_data_spec()),
            decreases assets.len() - i,
        {
            data.push(BulkCheckRequest::from(&assets[i]));
            i += 1;
        }
        (client.post("/assets/bulk-upload-check"), data)
    }

    /// Notes in `assets` what the reply to their check says. With status 200 and as
    /// many results as assets, each asset of which the result at its place speaks by
    /// its id is known to be absent where the server accepts it, and present where the
    /// server rejects it; nothing else changes. Anything else is an error and changes
    /// nothing: `Status` with the status text for another status, `Io` for a body that
    /// cannot be read, `InvalidResponse` for another number of results, and what
    /// `ImmichError::from` makes of a request without an answer.
    pub fn apply(assets: &mut Vec<Asset>, reply: Reply<BulkCheckResults>) -> (r: Result<
        (),
        ImmichError,
    >)
        ensures
            final(assets)@.len() == old(assets)@.len(),
            match reply {
                Ok(response) => if response.status != 200 {
                    &&& r matches Err(ImmichError::Status(code, t))
                    &&& code == response.status
                    &&& t@ == response.status_text@
                    &&& final(assets)@ == old(assets)@
                } else {
                    match response.json {
                        None => r matches Err(ImmichError::Io { .. }) && final(assets)@ == old(
                            assets,
                        )@,
                        Some(results) => if results.results@.len() != old(assets)@.len() {
                            r matches Err(ImmichError::InvalidResponse) && final(assets)@ == old(
                                assets,
                            )@
                        } else {
                            &&& r is Ok
                            &&& forall|i: int|
                                0 <= i < old(assets)@.len() ==> {
                                    &&& (#[trigger] final(assets)@[i]).same_identity(
                                        &old(assets)@[i],
                                    )
                                    &&& final(assets)@[i].asset_type_spec() == old(
                                        assets,
                                    )@[i].asset_type_spec()
                                    &&& final(assets)@[i].remote_status_spec() == checked_status(
                                        &old(assets)@[i],
                                        &results.results@[i],
                                    )
                                }
                        },
                    }
                },
                Err(CallError::Status { code, status_text, .. }) => {
                    &&& r matches Err(ImmichError::Status(c, t))
                    &&& c == code
                    &&& t@ == status_text@
                    &&& final(assets)@ == old(assets)@
                },
                Err(CallError::Transport { message, .. }) => {
                    &&& r matches Err(ImmichError::Transport(t))
                    &&& t@ == match message {
                        Some(m) => m@,
                        None => "Unknown connection error"@,
                    }
                    &&& final(assets)@ == old(assets)@
                },
            },
    {
        let response = match reply {
            Ok(response) => response,
            Err(error) => {
                return Err(ImmichError::from(error));
            },
        };
        if response.status != 200 {
            return Err(ImmichError::from_response(&response));
        }
        let results = match response.json {
            Some(results) => results,
            None => {
                return Err(ImmichError::unreadable_body());
            },
        };
        if assets.len() != results.len() {
            return Err(ImmichError::InvalidResponse);
        }
        let mut i: usize = 0;
        while i < assets.len()
            invariant
                i <= assets.len(),
                assets@.len() == old(assets)@.len(),
                results.results@.len() == assets@.len(),
                forall|k: int| i <= k < assets@.len() ==> assets@[k] == old(assets)@[k],
                forall|k: int|
                    0 <= k < i ==> {
                        &&& (#[trigger] assets@[k]).same_identity(&old(assets)@[k])
                        &&& assets@[k].asset_type_spec() == old(assets)@[k].asset_type_spec()
                        &&& assets@[k].remote_status_spec() == checked_status(
                            &old(assets)@[k],
                            &results.results@[k],
                        )
                    },
            decreases assets.len() - i,
        {
            let result = &results.results[i];
            if str_eq(assets[i].id().as_str(), result.id()) {
                let status = result.action.status();
                let asset = &mut assets[i];
                asset.remote_status_mut(status);
            }
            i += 1;
        }
        Ok(())
    }
}

} // verus!
