use vstd::prelude::*;
use vstd::hash_map::StringHashMap;
use crate::album::{failures, lemma_upload_failures_add, upload_failures};
use crate::api::requests::{ids_view, moved_view, AssetMoveError, MovedAsset, MovedView};
use crate::api::upload::{uploaded_view, Status, Uploaded, UploadedView};
use crate::asset::Asset;
use crate::takeout::media::strings_view;
use crate::takeout::{
    aggregated, albums_view, is_asset_of, AlbumList, AlbumView, Takeout, TakeoutAlbums,
};
use crate::utils::Id;

verus! {

/// The place of the last upload of the asset `device` that failed, where `failed`, or
/// that went through, where not; -1 where there is no such upload.
pub open spec fn last_upload(uploaded: Seq<UploadedView>, device: Seq<char>, failed: bool) -> int
    decreases uploaded.len(),
{
    if uploaded.len() == 0 {
        -1
    } else if uploaded.last().device_asset_id == device && (uploaded.last().status is Failure)
        == failed {
        uploaded.len() - 1
    } else {
        last_upload(uploaded.drop_last(), device, failed)
    }
}

/// `last_upload` gives the place of such an upload, or -1.
pub proof fn lemma_last_upload(uploaded: Seq<UploadedView>, device: Seq<char>, failed: bool)
    ensures
        -1 <= last_upload(uploaded, device, failed) < uploaded.len(),
        last_upload(uploaded, device, failed) >= 0 ==> {
            let u = uploaded[last_upload(uploaded, device, failed)];
            u.device_asset_id == device && (u.status is Failure) == failed
        },
    decreases uploaded.len(),
{
    if uploaded.len() > 0 {
        lemma_last_upload(uploaded.drop_last(), device, failed);
    }
}

/// Whether the asset `device` went to no album because its upload failed: no upload of
/// it went through, and one failed.
pub open spec fn lost(uploaded: Seq<UploadedView>, device: Seq<char>) -> bool {
    last_upload(uploaded, device, false) < 0 && last_upload(uploaded, device, true) >= 0
}

/// The ids on the server of those of `members` of which an upload went through, in the
/// order of `members`; of several such uploads of one asset the last counts.
pub open spec fn resolved(uploaded: Seq<UploadedView>, members: Seq<Seq<char>>) -> Seq<
    Seq<char>,
>
    decreases members.len(),
{
    if members.len() == 0 {
        Seq::empty()
    } else {
        let i = last_upload(uploaded, members.last(), false);
        if i >= 0 {
            resolved(uploaded, members.drop_last()).push(uploaded[i].id)
        } else {
            resolved(uploaded, members.drop_last())
        }
    }
}

/// How many of `members` are lost.
pub open spec fn lost_count(uploaded: Seq<UploadedView>, members: Seq<Seq<char>>) -> nat
    decreases members.len(),
{
    if members.len() == 0 {
        0
    } else if lost(uploaded, members.last()) {
        lost_count(uploaded, members.drop_last()) + 1
    } else {
        lost_count(uploaded, members.drop_last())
    }
}

/// What is to be done for one album of an archive after the upload, as plain values.
pub struct PlanView {
    /// The name of the album.
    pub album: Seq<char>,
    /// The ids on the server of the assets to add to the album.
    pub ids: Seq<Seq<char>>,
    /// How many assets of the album are lost.
    pub failed: nat,
}

/// What is to be done for `album` after the uploads `uploaded`.
pub open spec fn planned(uploaded: Seq<UploadedView>, album: AlbumView) -> PlanView {
    PlanView {
        album: album.name,
        ids: resolved(uploaded, album.members),
        failed: lost_count(uploaded, album.members),
    }
}

/// What is to be done for each of `albums` after the uploads `uploaded`.
pub open spec fn plans(uploaded: Seq<UploadedView>, albums: Seq<AlbumView>) -> Seq<PlanView> {
    albums.map_values(|a: AlbumView| planned(uploaded, a))
}

/// One outcome for each of `ids`: the asset was not put into the album, for an unknown
/// reason.
pub open spec fn unknown_moves(ids: Seq<Seq<char>>) -> Seq<MovedView> {
    ids.map_values(
        |id: Seq<char>| MovedView { id, success: false, error: Some(AssetMoveError::Unknown) },
    )
}

/// `n` outcomes of assets that went to no album because their upload failed.
pub open spec fn lost_moves(n: nat) -> Seq<MovedView> {
    Seq::new(
        n,
        |i: int|
            MovedView {
                id: Seq::<char>::empty(),
                success: false,
                error: Some(AssetMoveError::UploadFailed),
            },
    )
}

/// What came of one album. `outcome` is what the server said of the assets to add,
/// `None` where the album could not be had or the assets could not be added: then each
/// of them has failed for an unknown reason. Behind that stands one outcome for each
/// lost asset of the album.
pub open spec fn settled(plan: PlanView, outcome: Option<Seq<MovedView>>) -> Seq<MovedView> {
    (match outcome {
        Some(moved) => moved,
        None => unknown_moves(plan.ids),
    }) + lost_moves(plan.failed)
}

/// What came of the first `outcomes.len()` albums, one after the other.
pub open spec fn recreated(
    plans: Seq<PlanView>,
    outcomes: Seq<Option<Seq<MovedView>>>,
) -> Seq<MovedView>
    decreases outcomes.len(),
{
    if outcomes.len() == 0 || outcomes.len() > plans.len() {
        Seq::empty()
    } else {
        recreated(plans, outcomes.drop_last()) + settled(
            plans[outcomes.len() - 1],
            outcomes.last(),
        )
    }
}

/// All of `n` outcomes of lost assets say that the upload failed.
pub proof fn lemma_lost_moves(n: nat)
    ensures
        upload_failures(lost_moves(n)) == n,
    decreases n,
{
    if n > 0 {
        assert(lost_moves(n).drop_last() == lost_moves((n - 1) as nat));
        lemma_lost_moves((n - 1) as nat);
    }
}

/// What came of an album has one outcome for each asset that was to be added, where
/// the server said one thing of each or could not be asked, and one for each lost
/// asset; at least as many outcomes say that the upload failed as assets are lost.
pub proof fn lemma_settled(plan: PlanView, outcome: Option<Seq<MovedView>>)
    ensures
        (outcome matches Some(moved) ==> moved.len() == plan.ids.len()) ==> settled(
            plan,
            outcome,
        ).len() == plan.ids.len() + plan.failed,
        upload_failures(settled(plan, outcome)) >= plan.failed,
{
    let first = match outcome {
        Some(moved) => moved,
        None => unknown_moves(plan.ids),
    };
    crate::album::lemma_upload_failures_add(first, lost_moves(plan.failed));
    lemma_lost_moves(plan.failed);
}

/// What is to be done for one album of an archive after the upload: which assets to
/// add to it, and how many of its assets are lost.
#[derive(Debug)]
pub struct AlbumPlan {
    album: String,
    ids: Vec<Id>,
    failed: usize,
}

impl View for AlbumPlan {
    type V = PlanView;

    closed spec fn view(&self) -> PlanView {
        PlanView { album: self.album@, ids: ids_view(self.ids@), failed: self.failed as nat }
    }
}

impl AlbumPlan {
    /// The name of the album.
    pub fn album(&self) -> (r: &str)
        ensures
            r@ == self@.album,
    {
        self.album.as_str()
    }

    /// The ids on the server of the assets to add to the album.
    pub fn ids(&self) -> (r: &Vec<Id>)
        ensures
            ids_view(r@) == self@.ids,
    {
        &self.ids
    }

    /// How many assets of the album are lost.
    pub fn failed(&self) -> (r: usize)
        ensures
            r == self@.failed,
    {
        self.failed
    }
}

/// The plans as plain values.
pub open spec fn plans_view(plans: Seq<AlbumPlan>) -> Seq<PlanView> {
    plans.map_values(|p: AlbumPlan| p@)
}

/// For each asset, the place of its last upload that failed, where `failed`, or that
/// went through, where not.
fn index_uploads(uploaded: &Vec<Uploaded>, failed: bool) -> (index: StringHashMap<usize>)
    ensures
        forall|device: Seq<char>| #[trigger]
            index@.contains_key(device) <==> last_upload(uploaded_view(uploaded@), device, failed)
                >= 0,
        forall|device: Seq<char>| #[trigger]
            index@.contains_key(device) ==> index@[device] == last_upload(
                uploaded_view(uploaded@),
                device,
                failed,
            ),
{
    let mut index: StringHashMap<usize> = StringHashMap::new();
    let mut i: usize = 0;
    let ghost all = uploaded_view(uploaded@);
    while i < uploaded.len()
        invariant
            i <= uploaded.len(),
            all == uploaded_view(uploaded@),
            forall|device: Seq<char>| #[trigger]
                index@.contains_key(device) <==> last_upload(all.take(i as int), device, failed)
                    >= 0,
            forall|device: Seq<char>| #[trigger]
                index@.contains_key(device) ==> index@[device] == last_upload(
                    all.take(i as int),
                    device,
                    failed,
                ),
        decreases uploaded.len() - i,
    {
        let ghost before = index@;
        assert(all.take(i + 1).drop_last() == all.take(i as int));
        assert(all.take(i + 1).last() == uploaded@[i as int]@);
        let is_failure = match uploaded[i].status() {
            Status::Failure => true,
            _ => false,
        };
        if is_failure == failed {
            index.insert(uploaded[i].device_asset_id().to_owned(), i);
        }
        assert forall|device: Seq<char>| #[trigger]
            index@.contains_key(device) <==> last_upload(all.take(i + 1), device, failed)
                >= 0 by {
            lemma_last_upload(all.take(i as int), device, failed);
            assert(before.contains_key(device) <==> last_upload(all.take(i as int), device, failed)
                >= 0);
        }
        assert forall|device: Seq<char>| #[trigger]
            index@.contains_key(device) implies index@[device] == last_upload(
            all.take(i + 1),
            device,
            failed,
        ) by {
            if before.contains_key(device) {
                assert(before[device] == last_upload(all.take(i as int), device, failed));
            }
        }
        i += 1;
    }
    assert(all.take(uploaded.len() as int) == all);
    index
}

/// What is to be done for the album `list`.
fn plan_album(
    uploaded: &Vec<Uploaded>,
    successes: &StringHashMap<usize>,
    failures: &StringHashMap<usize>,
    list: &AlbumList,
) -> (plan: AlbumPlan)
    requires
        forall|device: Seq<char>| #[trigger]
            successes@.contains_key(device) <==> last_upload(
                uploaded_view(uploaded@),
                device,
                false,
            ) >= 0,
        forall|device: Seq<char>| #[trigger]
            successes@.contains_key(device) ==> successes@[device] == last_upload(
                uploaded_view(uploaded@),
                device,
                false,
            ),
        forall|device: Seq<char>| #[trigger]
            failures@.contains_key(device) <==> last_upload(
                uploaded_view(uploaded@),
                device,
                true,
            ) >= 0,
    ensures
        plan@ == planned(uploaded_view(uploaded@), list@),
{
    let members = list.members();
    let ghost all = uploaded_view(uploaded@);
    let ghost names = strings_view(members@);
    let mut ids: Vec<Id> = Vec::new();
    let mut failed: usize = 0;
    let mut j: usize = 0;
    assert(ids_view(ids@) =~= Seq::empty());
    while j < members.len()
        invariant
            j <= members.len(),
            all == uploaded_view(uploaded@),
            names == strings_view(members@),
            ids_view(ids@) == resolved(all, names.take(j as int)),
            failed == lost_count(all, names.take(j as int)),
            failed <= j,
            forall|device: Seq<char>| #[trigger]
                successes@.contains_key(device) <==> last_upload(all, device, false) >= 0,
            forall|device: Seq<char>| #[trigger]
                successes@.contains_key(device) ==> successes@[device] == last_upload(
                    all,
                    device,
                    false,
                ),
            forall|device: Seq<char>| #[trigger]
                failures@.contains_key(device) <==> last_upload(all, device, true) >= 0,
        decreases members.len() - j,
    {
        let ghost before = ids@;
        let member = members[j].as_str();
        assert(names.take(j + 1).drop_last() == names.take(j as int));
        assert(names.take(j + 1).last() == member@);
        proof {
            lemma_last_upload(all, member@, false);
        }
        match successes.get(member) {
            Some(i) => {
                assert(successes@.contains_key(member@));
                ids.push(uploaded[*i].id().clone());
                assert(ids_view(ids@) =~= ids_view(before).push(all[*i as int].id));
            },
            None => {
                assert(!successes@.contains_key(member@));
                if failures.contains_key(member) {
                    failed += 1;
                }
            },
        }
        j += 1;
    }
    assert(names.take(members.len() as int) == names);
    AlbumPlan { album: list.name().to_owned(), ids, failed }
}

/// The albums of an archive are made again on the server, one after the other. For each
/// album the caller asks the server and tells what it said.
pub struct AlbumRecreation {
    plans: Vec<AlbumPlan>,
    next: usize,
    moved: Vec<MovedAsset>,
    said: Ghost<Seq<Option<Seq<MovedView>>>>,
}

/// What the server said of an album, as plain values.
pub open spec fn outcome_view(outcome: Option<Vec<MovedAsset>>) -> Option<Seq<MovedView>> {
    match outcome {
        Some(moved) => Some(moved_view(moved@)),
        None => None,
    }
}

impl AlbumRecreation {
    /// What is to be done, album by album.
    pub closed spec fn plans_spec(&self) -> Seq<PlanView> {
        plans_view(self.plans@)
    }

    /// How many albums are done.
    pub closed spec fn done(&self) -> nat {
        self.next as nat
    }

    /// What came of the albums that are done.
    pub closed spec fn moved_spec(&self) -> Seq<MovedView> {
        moved_view(self.moved@)
    }

    /// What the server said of the albums that are done, album by album.
    pub closed spec fn said(&self) -> Seq<Option<Seq<MovedView>>> {
        self.said@
    }

    /// No more albums are done than there are, and what came of them is what the
    /// server said of them, settled album by album.
    pub closed spec fn wf(&self) -> bool {
        &&& self.next <= self.plans.len()
        &&& self.said@.len() == self.next
        &&& moved_view(self.moved@) == recreated(plans_view(self.plans@), self.said@)
    }

    /// The work for the albums `albums` after the uploads `uploaded`, with no album
    /// done.
    pub fn new(albums: &TakeoutAlbums, uploaded: &Vec<Uploaded>) -> (r: Self)
        ensures
            r.wf(),
            r.plans_spec() == plans(uploaded_view(uploaded@), albums@),
            r.done() == 0,
            r.said() == Seq::<Option<Seq<MovedView>>>::empty(),
            r.moved_spec() == Seq::<MovedView>::empty(),
    {
        let successes = index_uploads(uploaded, false);
        let failures = index_uploads(uploaded, true);
        let lists = albums.iter();
        let mut planned: Vec<AlbumPlan> = Vec::new();
        let mut i: usize = 0;
        while i < lists.len()
            invariant
                i <= lists.len(),
                albums_view(lists@) == albums@,
                planned@.len() == i,
                forall|k: int|
                    0 <= k < i ==> (#[trigger] planned@[k])@ == crate::takeout::upload::planned(
                        uploaded_view(uploaded@),
                        albums@[k],
                    ),
                forall|device: Seq<char>| #[trigger]
                    successes@.contains_key(device) <==> last_upload(
                        uploaded_view(uploaded@),
                        device,
                        false,
                    ) >= 0,
                forall|device: Seq<char>| #[trigger]
                    successes@.contains_key(device) ==> successes@[device] == last_upload(
                        uploaded_view(uploaded@),
                        device,
                        false,
                    ),
                forall|device: Seq<char>| #[trigger]
                    failures@.contains_key(device) <==> last_upload(
                        uploaded_view(uploaded@),
                        device,
                        true,
                    ) >= 0,
            decreases lists.len() - i,
        {
            assert(albums@[i as int] == lists@[i as int]@);
            planned.push(plan_album(uploaded, &successes, &failures, &lists[i]));
            i += 1;
        }
        let r = AlbumRecreation {
            plans: planned,
            next: 0,
            moved: Vec::new(),
            said: Ghost(Seq::empty()),
        };
        assert(r.plans_spec() =~= plans(uploaded_view(uploaded@), albums@));
        assert(r.moved_spec() =~= Seq::<MovedView>::empty());
        r
    }

    /// The album to make next, with the assets to add to it; `None` where all albums
    /// are done.
    pub fn current(&self) -> (r: Option<&AlbumPlan>)
        requires
            self.wf(),
        ensures
            match r {
                Some(plan) => self.done() < self.plans_spec().len() && plan@
                    == self.plans_spec()[self.done() as int],
                None => self.done() == self.plans_spec().len(),
            },
    {
        if self.next < self.plans.len() {
            Some(&self.plans[self.next])
        } else {
            None
        }
    }

    /// Notes what came of the album to make next: `outcome` is what the server said of
    /// the assets to add, `None` where the album could not be had or the assets could
    /// not be added. Where all albums are done, nothing is noted.
    pub fn record(&mut self, outcome: Option<Vec<MovedAsset>>)
        requires
            old(self).wf(),
        ensures
            final(self).wf(),
            final(self).plans_spec() == old(self).plans_spec(),
            old(self).done() < old(self).plans_spec().len() ==> {
                &&& final(self).done() == old(self).done() + 1
                &&& final(self).said() == old(self).said().push(outcome_view(outcome))
                &&& final(self).moved_spec() == old(self).moved_spec() + settled(
                    old(self).plans_spec()[old(self).done() as int],
                    outcome_view(outcome),
                )
            },
            old(self).done() >= old(self).plans_spec().len() ==> {
                &&& final(self).done() == old(self).done()
                &&& final(self).said() == old(self).said()
                &&& final(self).moved_spec() == old(self).moved_spec()
            },
    {
        if self.next >= self.plans.len() {
            return ;
        }
        let ghost before = self.moved@;
        let ghost plan = self.plans@[self.next as int]@;
        match outcome {
            Some(moved) => {
                let mut moved = moved;
                let ghost said = moved@;
                self.moved.append(&mut moved);
                assert(moved_view(self.moved@) =~= moved_view(before) + moved_view(said));
            },
            None => {
                let mut k: usize = 0;
                let count: usize = self.plans[self.next].ids.len();
                assert(moved_view(self.moved@) =~= moved_view(before) + unknown_moves(
                    plan.ids.take(0),
                ));
                while k < count
                    invariant
                        self.next < self.plans.len(),
                        self.plans == old(self).plans,
                        self.next == old(self).next,
                        self.said == old(self).said,
                        plan == self.plans@[self.next as int]@,
                        count == self.plans@[self.next as int].ids.len(),
                        k <= count,
                        moved_view(self.moved@) == moved_view(before) + unknown_moves(
                            plan.ids.take(k as int),
                        ),
                    decreases count - k,
                {
                    let ghost so_far = self.moved@;
                    let id = self.plans[self.next].ids[k].clone();
                    self.moved.push(MovedAsset::new(id, false));
                    assert(moved_view(self.moved@) =~= moved_view(so_far).push(
                        MovedView {
                            id: plan.ids[k as int],
                            success: false,
                            error: Some(AssetMoveError::Unknown),
                        },
                    ));
                    assert(unknown_moves(plan.ids.take(k + 1)) =~= unknown_moves(
                        plan.ids.take(k as int),
                    ).push(
                        MovedView {
                            id: plan.ids[k as int],
                            success: false,
                            error: Some(AssetMoveError::Unknown),
                        },
                    ));
                    k += 1;
                }
                assert(plan.ids.take(plan.ids.len() as int) == plan.ids);
            },
        }
        let ghost first = moved_view(self.moved@);
        let mut k: usize = 0;
        let failed: usize = self.plans[self.next].failed;
        assert(first =~= first + lost_moves(0));
        while k < failed
            invariant
                self.next < self.plans.len(),
                self.plans == old(self).plans,
                self.next == old(self).next,
                self.said == old(self).said,
                plan == self.plans@[self.next as int]@,
                failed == plan.failed,
                k <= failed,
                moved_view(self.moved@) == first + lost_moves(k as nat),
            decreases failed - k,
        {
            let ghost so_far = self.moved@;
            self.moved.push(MovedAsset::from_failed_upload(Id::default()));
            assert(moved_view(self.moved@) =~= moved_view(so_far).push(
                MovedView {
                    id: Seq::<char>::empty(),
                    success: false,
                    error: Some(AssetMoveError::UploadFailed),
                },
            ));
            assert(lost_moves((k + 1) as nat) =~= lost_moves(k as nat).push(
                MovedView {
                    id: Seq::<char>::empty(),
                    success: false,
                    error: Some(AssetMoveError::UploadFailed),
                },
            ));
            k += 1;
        }
        self.next = self.next + 1;
        assert(moved_view(self.moved@) =~= moved_view(before) + settled(
            plan,
            outcome_view(outcome),
        ));
        proof {
            let told = old(self).said@.push(outcome_view(outcome));
            assert(told.drop_last() =~= old(self).said@);
            assert(told.last() == outcome_view(outcome));
            assert(plans_view(self.plans@)[told.len() - 1] == plan);
            self.said = Ghost(told);
        }
    }

    /// What came of the albums that are done: what the server said of them, settled
    /// album by album.
    pub fn finish(self) -> (r: Vec<MovedAsset>)
        ensures
            moved_view(r@) == self.moved_spec(),
            self.wf() ==> moved_view(r@) == recreated(self.plans_spec(), self.said()),
    {
        self.moved
    }
}

/// A Takeout archive that is to be uploaded.
pub struct Uploader {
    takeout: Takeout,
}

impl Uploader {
    /// The archive.
    pub closed spec fn takeout_spec(&self) -> Takeout {
        self.takeout
    }

    /// The upload of the archive `takeout`.
    pub fn new(takeout: Takeout) -> (r: Self)
        ensures
            r.takeout_spec() == takeout,
    {
        Uploader { takeout }
    }

    /// The archive.
    pub fn takeout(&self) -> (r: &Takeout)
        ensures
            *r == self.takeout_spec(),
    {
        &self.takeout
    }

    /// The name of the album that takes every uploaded asset of an archive.
    pub fn import_album() -> (r: &'static str)
        ensures
            r@ == "Google Takout Import"@,
    {
        "Google Takout Import"
    }

    /// The number of photos and videos in the archive.
    pub fn len(&self) -> (r: usize)
        ensures
            r == self.takeout_spec().media_spec().len(),
    {
        self.takeout.len()
    }

    /// Whether the archive holds no photo or video.
    pub fn is_empty(&self) -> (r: bool)
        ensures
            r == (self.takeout_spec().media_spec().len() == 0),
    {
        self.takeout.is_empty()
    }

    /// The asset for the entry at `index` of the archive, with `data` as its media: it
    /// is called by the canonical name of the photo or video, was created when that was
    /// taken and changed when it or its entry was. `None` where there is no such entry
    /// or the entry is of no photo or video in the records.
    pub fn asset(&self, index: usize, data: Vec<u8>) -> (r: Option<Asset>)
        requires
            self.takeout_spec().wf(),
        ensures
            match self.takeout_spec().media_at(index as int) {
                Some(media) => r matches Some(asset) && is_asset_of(
                    &asset,
                    media,
                    self.takeout_spec().entries_spec()[index as int].mtime,
                    data@,
                ),
                None => r is None,
            },
    {
        match self.takeout.record(index, data) {
            Some(record) => Some(record.into_asset()),
            None => None,
        }
    }

    /// The work of putting the uploaded assets into the albums in which the archive
    /// holds them, given what the upload reported.
    pub fn recreate_albums(&self, uploaded: &Vec<Uploaded>) -> (r: AlbumRecreation)
        ensures
            r.wf(),
            r.plans_spec() == plans(
                uploaded_view(uploaded@),
                aggregated(self.takeout_spec().media_spec()),
            ),
            r.done() == 0,
            r.said() == Seq::<Option<Seq<MovedView>>>::empty(),
            r.moved_spec() == Seq::<MovedView>::empty(),
    {
        AlbumRecreation::new(&self.takeout.albums(), uploaded)
    }
}

/// How often `device` stands in `members`.
pub open spec fn occurrences(members: Seq<Seq<char>>, device: Seq<char>) -> nat
    decreases members.len(),
{
    if members.len() == 0 {
        0
    } else if members.last() == device {
        occurrences(members.drop_last(), device) + 1
    } else {
        occurrences(members.drop_last(), device)
    }
}

/// How often `device` stands in all of `albums` together.
pub open spec fn total_occurrences(albums: Seq<AlbumView>, device: Seq<char>) -> nat
    decreases albums.len(),
{
    if albums.len() == 0 {
        0
    } else {
        total_occurrences(albums.drop_last(), device) + occurrences(albums.last().members, device)
    }
}

/// How many members of all of `albums` together are lost.
pub open spec fn total_lost(uploaded: Seq<UploadedView>, albums: Seq<AlbumView>) -> nat
    decreases albums.len(),
{
    if albums.len() == 0 {
        0
    } else {
        total_lost(uploaded, albums.drop_last()) + lost_count(uploaded, albums.last().members)
    }
}

/// Each asset whose upload failed was uploaded once, and stands in an album.
pub open spec fn failures_in_albums(uploaded: Seq<UploadedView>, albums: Seq<AlbumView>) -> bool {
    &&& forall|i: int, j: int|
        0 <= i < uploaded.len() && 0 <= j < uploaded.len() && i != j
            && uploaded[i].status is Failure ==> uploaded[i].device_asset_id
            != uploaded[j].device_asset_id
    &&& forall|i: int|
        0 <= i < uploaded.len() && (#[trigger] uploaded[i]).status is Failure
            ==> total_occurrences(albums, uploaded[i].device_asset_id) >= 1
}

/// Where two runs of uploads lose the same assets but for `device`, which only the
/// first loses, the first loses as many members more as `device` stands among them.
pub proof fn lemma_lost_count_more(
    more: Seq<UploadedView>,
    fewer: Seq<UploadedView>,
    device: Seq<char>,
    members: Seq<Seq<char>>,
)
    requires
        lost(more, device),
        !lost(fewer, device),
        forall|other: Seq<char>| other != device ==> lost(more, other) == lost(fewer, other),
    ensures
        lost_count(more, members) == lost_count(fewer, members) + occurrences(members, device),
    decreases members.len(),
{
    if members.len() > 0 {
        lemma_lost_count_more(more, fewer, device, members.drop_last());
    }
}

/// Two runs of uploads that lose the same assets lose as many members.
pub proof fn lemma_lost_count_same(
    one: Seq<UploadedView>,
    other: Seq<UploadedView>,
    members: Seq<Seq<char>>,
)
    requires
        forall|device: Seq<char>| lost(one, device) == lost(other, device),
    ensures
        lost_count(one, members) == lost_count(other, members),
    decreases members.len(),
{
    if members.len() > 0 {
        lemma_lost_count_same(one, other, members.drop_last());
    }
}

/// `lemma_lost_count_more`, for all albums together.
pub proof fn lemma_total_lost_more(
    more: Seq<UploadedView>,
    fewer: Seq<UploadedView>,
    device: Seq<char>,
    albums: Seq<AlbumView>,
)
    requires
        lost(more, device),
        !lost(fewer, device),
        forall|other: Seq<char>| other != device ==> lost(more, other) == lost(fewer, other),
    ensures
        total_lost(more, albums) == total_lost(fewer, albums) + total_occurrences(albums, device),
    decreases albums.len(),
{
    if albums.len() > 0 {
        lemma_total_lost_more(more, fewer, device, albums.drop_last());
        lemma_lost_count_more(more, fewer, device, albums.last().members);
    }
}

/// `lemma_lost_count_same`, for all albums together.
pub proof fn lemma_total_lost_same(
    one: Seq<UploadedView>,
    other: Seq<UploadedView>,
    albums: Seq<AlbumView>,
)
    requires
        forall|device: Seq<char>| lost(one, device) == lost(other, device),
    ensures
        total_lost(one, albums) == total_lost(other, albums),
    decreases albums.len(),
{
    if albums.len() > 0 {
        lemma_total_lost_same(one, other, albums.drop_last());
        lemma_lost_count_same(one, other, albums.last().members);
    }
}

/// Where each asset whose upload failed was uploaded once and stands in an album, at
/// least as many members of the albums are lost as uploads failed.
pub proof fn lemma_failures_are_lost(uploaded: Seq<UploadedView>, albums: Seq<AlbumView>)
    requires
        failures_in_albums(uploaded, albums),
    ensures
        total_lost(uploaded, albums) >= failures(uploaded),
    decreases uploaded.len(),
{
    if uploaded.len() > 0 {
        let before = uploaded.drop_last();
        let last = uploaded.last();
        let device = last.device_asset_id;
        let n = uploaded.len() - 1;
        assert forall|i: int| 0 <= i < before.len() implies before[i] == uploaded[i] by {}
        assert(failures_in_albums(before, albums));
        lemma_failures_are_lost(before, albums);
        lemma_last_upload(before, device, true);
        lemma_last_upload(before, device, false);
        assert(last_upload(before, device, true) < 0) by {
            let i = last_upload(before, device, true);
            if i >= 0 {
                assert(before[i] == uploaded[i]);
                assert(uploaded[i].device_asset_id == uploaded[n].device_asset_id);
            }
        }
        if last.status is Failure {
            assert(last_upload(before, device, false) < 0) by {
                let i = last_upload(before, device, false);
                if i >= 0 {
                    assert(before[i] == uploaded[i]);
                    assert(uploaded[n].device_asset_id == uploaded[i].device_asset_id);
                }
            }
            assert(lost(uploaded, device));
            assert(total_occurrences(albums, uploaded[n].device_asset_id) >= 1);
            lemma_total_lost_more(uploaded, before, device, albums);
        } else {
            lemma_total_lost_same(uploaded, before, albums);
        }
    }
}

/// How many assets the plans count as lost, all together.
pub open spec fn total_failed(plans: Seq<PlanView>) -> nat
    decreases plans.len(),
{
    if plans.len() == 0 {
        0
    } else {
        total_failed(plans.drop_last()) + plans.last().failed
    }
}

/// The plans count as lost the members of the albums that are lost.
pub proof fn lemma_total_failed(uploaded: Seq<UploadedView>, albums: Seq<AlbumView>)
    ensures
        total_failed(plans(uploaded, albums)) == total_lost(uploaded, albums),
    decreases albums.len(),
{
    if albums.len() > 0 {
        assert(plans(uploaded, albums).drop_last() == plans(uploaded, albums.drop_last()));
        lemma_total_failed(uploaded, albums.drop_last());
    }
}

/// What came of the first albums says at least once for each lost asset of these
/// albums that the upload failed.
pub proof fn lemma_recreated_reports(plans: Seq<PlanView>, outcomes: Seq<Option<Seq<MovedView>>>)
    requires
        outcomes.len() <= plans.len(),
    ensures
        upload_failures(recreated(plans, outcomes)) >= total_failed(
            plans.take(outcomes.len() as int),
        ),
    decreases outcomes.len(),
{
    if outcomes.len() > 0 {
        let n = outcomes.len() - 1;
        lemma_recreated_reports(plans, outcomes.drop_last());
        lemma_settled(plans[n], outcomes.last());
        lemma_upload_failures_add(
            recreated(plans, outcomes.drop_last()),
            settled(plans[n], outcomes.last()),
        );
        assert(plans.take(outcomes.len() as int).drop_last() == plans.take(n));
    } else {
        assert(plans.take(0) == Seq::<PlanView>::empty());
    }
}

/// After all the albums of an archive were made again, at least as many outcomes say
/// that the upload failed as uploads failed, whatever the server said of the albums:
/// wherever each asset whose upload failed was uploaded once and stands in an album.
pub proof fn lemma_failures_reported(
    uploaded: Seq<UploadedView>,
    albums: Seq<AlbumView>,
    outcomes: Seq<Option<Seq<MovedView>>>,
)
    requires
        outcomes.len() == albums.len(),
        failures_in_albums(uploaded, albums),
    ensures
        upload_failures(recreated(plans(uploaded, albums), outcomes)) >= failures(uploaded),
{
    lemma_recreated_reports(plans(uploaded, albums), outcomes);
    assert(plans(uploaded, albums).take(outcomes.len() as int) == plans(uploaded, albums));
    lemma_total_failed(uploaded, albums);
    lemma_failures_are_lost(uploaded, albums);
}

/// How many assets the plans are to add or count as lost, all together.
pub open spec fn total_planned(plans: Seq<PlanView>) -> nat
    decreases plans.len(),
{
    if plans.len() == 0 {
        0
    } else {
        total_planned(plans.drop_last()) + plans.last().ids.len() + plans.last().failed
    }
}

/// Whether the server, where it said something of an album, said one thing of each
/// asset that was to be added.
pub open spec fn answers_fit(plans: Seq<PlanView>, outcomes: Seq<Option<Seq<MovedView>>>) -> bool {
    forall|a: int|
        0 <= a < outcomes.len() && a < plans.len() ==> ((#[trigger] outcomes[a]) matches Some(
            moved,
        ) ==> moved.len() == plans[a].ids.len())
}

/// After all the albums of an archive were made again there is one outcome for each
/// asset that was to be added to an album and one for each lost asset of an album,
/// wherever the server said one thing of each asset that it was asked to add.
pub proof fn lemma_recreated_covers(plans: Seq<PlanView>, outcomes: Seq<Option<Seq<MovedView>>>)
    requires
        outcomes.len() <= plans.len(),
        answers_fit(plans, outcomes),
    ensures
        recreated(plans, outcomes).len() == total_planned(plans.take(outcomes.len() as int)),
    decreases outcomes.len(),
{
    if outcomes.len() > 0 {
        let n = outcomes.len() - 1;
        assert forall|a: int| 0 <= a < outcomes.drop_last().len() implies outcomes.drop_last()[a]
            == outcomes[a] by {}
        lemma_recreated_covers(plans, outcomes.drop_last());
        lemma_settled(plans[n], outcomes.last());
        assert(outcomes.last() == outcomes[n]);
        assert(plans.take(outcomes.len() as int).drop_last() == plans.take(n));
    } else {
        assert(plans.take(0) == Seq::<PlanView>::empty());
    }
}

/// Whether the asset `device` was uploaded, whatever came of it.
pub open spec fn was_uploaded(uploaded: Seq<UploadedView>, device: Seq<char>) -> bool {
    last_upload(uploaded, device, false) >= 0 || last_upload(uploaded, device, true) >= 0
}

/// How many of `members` were uploaded.
pub open spec fn uploaded_count(uploaded: Seq<UploadedView>, members: Seq<Seq<char>>) -> nat
    decreases members.len(),
{
    if members.len() == 0 {
        0
    } else if was_uploaded(uploaded, members.last()) {
        uploaded_count(uploaded, members.drop_last()) + 1
    } else {
        uploaded_count(uploaded, members.drop_last())
    }
}

/// How many members of all of `albums` together were uploaded.
pub open spec fn total_uploaded(uploaded: Seq<UploadedView>, albums: Seq<AlbumView>) -> nat
    decreases albums.len(),
{
    if albums.len() == 0 {
        0
    } else {
        total_uploaded(uploaded, albums.drop_last()) + uploaded_count(
            uploaded,
            albums.last().members,
        )
    }
}

/// Each uploaded asset was uploaded once, and stands once in the albums.
pub open spec fn once_in_albums(uploaded: Seq<UploadedView>, albums: Seq<AlbumView>) -> bool {
    &&& forall|i: int, j: int|
        0 <= i < j < uploaded.len() ==> uploaded[i].device_asset_id != uploaded[j].device_asset_id
    &&& forall|i: int|
        0 <= i < uploaded.len() ==> total_occurrences(
            albums,
            (#[trigger] uploaded[i]).device_asset_id,
        ) == 1
}

/// A plan is for each member of its album that was uploaded: to add it, or to count it
/// as lost.
pub proof fn lemma_planned_members(uploaded: Seq<UploadedView>, members: Seq<Seq<char>>)
    ensures
        resolved(uploaded, members).len() + lost_count(uploaded, members) == uploaded_count(
            uploaded,
            members,
        ),
    decreases members.len(),
{
    if members.len() > 0 {
        lemma_planned_members(uploaded, members.drop_last());
        lemma_last_upload(uploaded, members.last(), false);
        lemma_last_upload(uploaded, members.last(), true);
    }
}

/// The plans are for each member of the albums that was uploaded.
pub proof fn lemma_total_planned(uploaded: Seq<UploadedView>, albums: Seq<AlbumView>)
    ensures
        total_planned(plans(uploaded, albums)) == total_uploaded(uploaded, albums),
    decreases albums.len(),
{
    if albums.len() > 0 {
        assert(plans(uploaded, albums).drop_last() == plans(uploaded, albums.drop_last()));
        lemma_total_planned(uploaded, albums.drop_last());
        lemma_planned_members(uploaded, albums.last().members);
    }
}

/// Where one more asset was uploaded, as many more members were uploaded as it stands
/// among them.
pub proof fn lemma_uploaded_count_more(
    more: Seq<UploadedView>,
    fewer: Seq<UploadedView>,
    device: Seq<char>,
    members: Seq<Seq<char>>,
)
    requires
        was_uploaded(more, device),
        !was_uploaded(fewer, device),
        forall|other: Seq<char>|
            other != device ==> was_uploaded(more, other) == was_uploaded(fewer, other),
    ensures
        uploaded_count(more, members) == uploaded_count(fewer, members) + occurrences(
            members,
            device,
        ),
    decreases members.len(),
{
    if members.len() > 0 {
        lemma_uploaded_count_more(more, fewer, device, members.drop_last());
    }
}

/// `lemma_uploaded_count_more`, for all albums together.
pub proof fn lemma_total_uploaded_more(
    more: Seq<UploadedView>,
    fewer: Seq<UploadedView>,
    device: Seq<char>,
    albums: Seq<AlbumView>,
)
    requires
        was_uploaded(more, device),
        !was_uploaded(fewer, device),
        forall|other: Seq<char>|
            other != device ==> was_uploaded(more, other) == was_uploaded(fewer, other),
    ensures
        total_uploaded(more, albums) == total_uploaded(fewer, albums) + total_occurrences(
            albums,
            device,
        ),
    decreases albums.len(),
{
    if albums.len() > 0 {
        lemma_total_uploaded_more(more, fewer, device, albums.drop_last());
        lemma_uploaded_count_more(more, fewer, device, albums.last().members);
    }
}

/// Where each uploaded asset was uploaded once and stands once in the albums, as many
/// members of the albums were uploaded as there are uploads.
pub proof fn lemma_uploads_are_members(uploaded: Seq<UploadedView>, albums: Seq<AlbumView>)
    requires
        once_in_albums(uploaded, albums),
    ensures
        total_uploaded(uploaded, albums) == uploaded.len(),
    decreases uploaded.len(),
{
    if uploaded.len() == 0 {
        lemma_nothing_uploaded(uploaded, albums);
    } else {
        let before = uploaded.drop_last();
        let device = uploaded.last().device_asset_id;
        let n = uploaded.len() - 1;
        assert forall|i: int| 0 <= i < before.len() implies before[i] == uploaded[i] by {}
        assert(once_in_albums(before, albums));
        lemma_uploads_are_members(before, albums);
        lemma_last_upload(before, device, true);
        lemma_last_upload(before, device, false);
        assert(!was_uploaded(before, device)) by {
            let i = last_upload(before, device, true);
            let j = last_upload(before, device, false);
            if i >= 0 {
                assert(before[i] == uploaded[i]);
            }
            if j >= 0 {
                assert(before[j] == uploaded[j]);
            }
        }
        assert(total_occurrences(albums, uploaded[n].device_asset_id) == 1);
        lemma_total_uploaded_more(uploaded, before, device, albums);
    }
}

/// Where nothing was uploaded, no member of an album was.
pub proof fn lemma_nothing_uploaded(uploaded: Seq<UploadedView>, albums: Seq<AlbumView>)
    requires
        uploaded.len() == 0,
    ensures
        total_uploaded(uploaded, albums) == 0,
    decreases albums.len(),
{
    if albums.len() > 0 {
        lemma_nothing_uploaded(uploaded, albums.drop_last());
        lemma_none_uploaded(uploaded, albums.last().members);
    }
}

/// Where nothing was uploaded, none of `members` was.
pub proof fn lemma_none_uploaded(uploaded: Seq<UploadedView>, members: Seq<Seq<char>>)
    requires
        uploaded.len() == 0,
    ensures
        uploaded_count(uploaded, members) == 0,
    decreases members.len(),
{
    if members.len() > 0 {
        lemma_none_uploaded(uploaded, members.drop_last());
    }
}

/// After all the albums of an archive were made again there are as many outcomes as
/// uploads: wherever each uploaded asset was uploaded once and stands once in the
/// albums, and the server, where it said something of an album, said one thing of each
/// asset that it was asked to add.
pub proof fn lemma_one_outcome_each(
    uploaded: Seq<UploadedView>,
    albums: Seq<AlbumView>,
    outcomes: Seq<Option<Seq<MovedView>>>,
)
    requires
        outcomes.len() == albums.len(),
        answers_fit(plans(uploaded, albums), outcomes),
        once_in_albums(uploaded, albums),
    ensures
        recreated(plans(uploaded, albums), outcomes).len() == uploaded.len(),
{
    lemma_recreated_covers(plans(uploaded, albums), outcomes);
    assert(plans(uploaded, albums).take(outcomes.len() as int) == plans(uploaded, albums));
    lemma_total_planned(uploaded, albums);
    lemma_uploads_are_members(uploaded, albums);
}

} // verus!
