use vstd::prelude::*;
use vstd::relations::injective_on;
use vstd::set_lib::{
    lemma_int_range, lemma_len_subset, lemma_map_size, lemma_map_size_bound, set_int_range,
};
use crate::takeout::file::{classified, FileType};
use crate::takeout::media::{
    distinct_names, find, lemma_find, lemma_find_is, lemma_with_entry, MediaView,
};
use crate::takeout::metadata::timestamp_view;
use crate::takeout::{emits, entry_effect, scanned, ArchiveEntry, HandleEdited};

verus! {

/// Whether the records hold the photo or video `name` as it was taken.
pub open spec fn has_original(items: Seq<MediaView>, name: Seq<char>) -> bool {
    find(items, name) >= 0 && items[find(items, name)].original
}

/// Whether the records hold an edited version of the photo or video `name`.
pub open spec fn has_edited(items: Seq<MediaView>, name: Seq<char>) -> bool {
    find(items, name) >= 0 && items[find(items, name)].edited
}

/// Whether `entry` is an entry of the kind `kind` of the photo or video `name`.
pub open spec fn is_entry_of(entry: ArchiveEntry, name: Seq<char>, kind: FileType) -> bool {
    classified(entry.path@) matches Some(f) && f.name == name && f.filetype == kind
}

/// The name of the photo or video that the entry at `k` belongs to.
pub open spec fn name_at(entries: Seq<ArchiveEntry>, k: int) -> Seq<char> {
    classified(entries[k].path@)->Some_0.name
}

/// Whether a record is of a photo or video that the policy hands out: it was met as it
/// was taken and originals are used beside edited versions, or it was met in an edited
/// version and edited versions are used.
pub open spec fn wanted(media: MediaView, policy: HandleEdited) -> bool {
    (media.original && policy.wants_original()) || (media.edited && policy.wants_edited())
}

/// The places of the entries that are handed out as records.
pub open spec fn emitted_places(entries: Seq<ArchiveEntry>, policy: HandleEdited) -> Set<int> {
    Set::new(
        |k: int| 0 <= k < entries.len() && emits(scanned(entries, policy), policy, entries[k].path@),
    )
}

/// The places of the records that the policy hands out.
pub open spec fn wanted_places(entries: Seq<ArchiveEntry>, policy: HandleEdited) -> Set<int> {
    Set::new(
        |i: int|
            0 <= i < scanned(entries, policy).len() && wanted(scanned(entries, policy)[i], policy),
    )
}

/// No photo or video is handed out twice.
pub open spec fn handed_out_once(entries: Seq<ArchiveEntry>, policy: HandleEdited) -> bool {
    forall|j: int, k: int|
        emitted_places(entries, policy).contains(j) && emitted_places(entries, policy).contains(k)
            && j != k ==> name_at(entries, j) != name_at(entries, k)
}

/// Where an edited version is used alone, every photo or video that was met as it was
/// taken was also met in an edited version.
pub open spec fn edited_throughout(entries: Seq<ArchiveEntry>, policy: HandleEdited) -> bool {
    policy is PreferEdited ==> forall|i: int|
        0 <= i < scanned(entries, policy).len() && (#[trigger] scanned(entries, policy)[i]).original
            ==> scanned(entries, policy)[i].edited
}

/// Meeting an entry keeps the names distinct and loses nothing that the records hold.
pub proof fn lemma_effect_keeps(
    items: Seq<MediaView>,
    path: Seq<char>,
    sidecar: Option<Seq<char>>,
    policy: HandleEdited,
    name: Seq<char>,
)
    requires
        distinct_names(items),
    ensures
        distinct_names(entry_effect(items, path, sidecar, policy)),
        has_original(items, name) ==> has_original(
            entry_effect(items, path, sidecar, policy),
            name,
        ),
        has_edited(items, name) ==> has_edited(entry_effect(items, path, sidecar, policy), name),
{
    let r = entry_effect(items, path, sidecar, policy);
    if r != items {
        let f = classified(path)->Some_0;
        let i = find(items, name);
        lemma_find(items, name);
        lemma_find(items, f.name);
        if i >= 0 {
            if f.name == name {
                lemma_find_is(items, f.name, i);
            }
        }
        match f.filetype {
            FileType::Metadata => {
                let t = crate::takeout::metadata::told_time(sidecar->Some_0)->Some_0;
                lemma_with_entry(items, f.name, f.album, crate::takeout::media::Mark::Metadata(t));
            },
            FileType::Edited => {
                lemma_with_entry(items, f.name, f.album, crate::takeout::media::Mark::Edited);
            },
            FileType::Original => {
                lemma_with_entry(items, f.name, f.album, crate::takeout::media::Mark::Original);
            },
            FileType::Unknown => {},
        }
        if i >= 0 {
            assert(r[i].name == name);
            lemma_find_is(r, name, i);
        }
    }
}

/// After an original was met the records hold it, and after an edited version was met
/// the records hold it where edited versions are used.
pub proof fn lemma_effect_marks(
    items: Seq<MediaView>,
    path: Seq<char>,
    sidecar: Option<Seq<char>>,
    policy: HandleEdited,
)
    requires
        distinct_names(items),
        classified(path) is Some,
    ensures
        classified(path)->Some_0.filetype is Original ==> has_original(
            entry_effect(items, path, sidecar, policy),
            classified(path)->Some_0.name,
        ),
        classified(path)->Some_0.filetype is Edited && policy.wants_edited() ==> has_edited(
            entry_effect(items, path, sidecar, policy),
            classified(path)->Some_0.name,
        ),
{
    let r = entry_effect(items, path, sidecar, policy);
    let f = classified(path)->Some_0;
    lemma_effect_keeps(items, path, sidecar, policy, f.name);
    lemma_find(items, f.name);
    let i = find(items, f.name);
    if (f.filetype is Original) || (f.filetype is Edited && policy.wants_edited()) {
        if i >= 0 {
            assert(r[i].name == f.name);
            lemma_find_is(r, f.name, i);
        } else {
            assert(r.last().name == f.name);
        }
    }
}

/// The records of an archive have distinct names.
pub proof fn lemma_scanned_distinct(entries: Seq<ArchiveEntry>, policy: HandleEdited)
    ensures
        distinct_names(scanned(entries, policy)),
    decreases entries.len(),
{
    if entries.len() > 0 {
        lemma_scanned_distinct(entries.drop_last(), policy);
        lemma_effect_keeps(
            scanned(entries.drop_last(), policy),
            entries.last().path@,
            timestamp_view(entries.last().sidecar),
            policy,
            Seq::empty(),
        );
    }
}

/// The records of an archive hold every original of the archive, and every edited
/// version where edited versions are used.
pub proof fn lemma_scanned_holds(entries: Seq<ArchiveEntry>, policy: HandleEdited, k: int)
    requires
        0 <= k < entries.len(),
        classified(entries[k].path@) is Some,
    ensures
        classified(entries[k].path@)->Some_0.filetype is Original ==> has_original(
            scanned(entries, policy),
            name_at(entries, k),
        ),
        classified(entries[k].path@)->Some_0.filetype is Edited && policy.wants_edited()
            ==> has_edited(scanned(entries, policy), name_at(entries, k)),
    decreases entries.len(),
{
    let before = scanned(entries.drop_last(), policy);
    lemma_scanned_distinct(entries.drop_last(), policy);
    if k == entries.len() - 1 {
        lemma_effect_marks(
            before,
            entries.last().path@,
            timestamp_view(entries.last().sidecar),
            policy,
        );
    } else {
        assert(entries.drop_last()[k] == entries[k]);
        lemma_scanned_holds(entries.drop_last(), policy, k);
        lemma_effect_keeps(
            before,
            entries.last().path@,
            timestamp_view(entries.last().sidecar),
            policy,
            name_at(entries, k),
        );
    }
}

/// Whatever the records of an archive hold of a photo or video, an entry of the archive
/// gave: an original of it where the records hold it as it was taken, and an edited
/// version where they hold an edited version, which they do only where edited versions
/// are used.
pub proof fn lemma_scanned_source(entries: Seq<ArchiveEntry>, policy: HandleEdited, i: int)
    requires
        0 <= i < scanned(entries, policy).len(),
    ensures
        scanned(entries, policy)[i].original ==> exists|k: int|
            0 <= k < entries.len() && is_entry_of(
                #[trigger] entries[k],
                scanned(entries, policy)[i].name,
                FileType::Original,
            ),
        scanned(entries, policy)[i].edited ==> policy.wants_edited() && exists|k: int|
            0 <= k < entries.len() && is_entry_of(
                #[trigger] entries[k],
                scanned(entries, policy)[i].name,
                FileType::Edited,
            ),
    decreases entries.len(),
{
    let s = scanned(entries, policy);
    if entries.len() > 0 {
        let before = scanned(entries.drop_last(), policy);
        let last = entries.last();
        let n = entries.len() - 1;
        lemma_scanned_distinct(entries.drop_last(), policy);
        if i < before.len() {
            lemma_scanned_source(entries.drop_last(), policy, i);
        }
        if s != before {
            let f = classified(last.path@)->Some_0;
            lemma_find(before, f.name);
            match f.filetype {
                FileType::Metadata => {
                    let t = crate::takeout::metadata::told_time(
                        timestamp_view(last.sidecar)->Some_0,
                    )->Some_0;
                    lemma_with_entry(before, f.name, f.album, crate::takeout::media::Mark::Metadata(t));
                },
                FileType::Edited => {
                    lemma_with_entry(before, f.name, f.album, crate::takeout::media::Mark::Edited);
                },
                FileType::Original => {
                    lemma_with_entry(before, f.name, f.album, crate::takeout::media::Mark::Original);
                },
                FileType::Unknown => {},
            }
        }
        if s[i].original {
            if i < before.len() && before[i].original {
                let k = choose|k: int|
                    0 <= k < entries.drop_last().len() && is_entry_of(
                        #[trigger] entries.drop_last()[k],
                        before[i].name,
                        FileType::Original,
                    );
                assert(entries[k] == entries.drop_last()[k]);
                assert(s[i].name == before[i].name);
                assert(is_entry_of(entries[k], s[i].name, FileType::Original));
            } else {
                assert(is_entry_of(entries[n], s[i].name, FileType::Original));
            }
        }
        if s[i].edited {
            if i < before.len() && before[i].edited {
                let k = choose|k: int|
                    0 <= k < entries.drop_last().len() && is_entry_of(
                        #[trigger] entries.drop_last()[k],
                        before[i].name,
                        FileType::Edited,
                    );
                assert(entries[k] == entries.drop_last()[k]);
                assert(s[i].name == before[i].name);
                assert(is_entry_of(entries[k], s[i].name, FileType::Edited));
            } else {
                assert(is_entry_of(entries[n], s[i].name, FileType::Edited));
            }
        }
    }
}

/// The place of the record of the photo or video that the entry at `k` belongs to.
pub open spec fn record_of(entries: Seq<ArchiveEntry>, policy: HandleEdited, k: int) -> int {
    find(scanned(entries, policy), name_at(entries, k))
}

/// Each record that the policy hands out is the record of an entry that is handed out.
pub proof fn lemma_wanted_is_emitted(entries: Seq<ArchiveEntry>, policy: HandleEdited, i: int)
    requires
        wanted_places(entries, policy).contains(i),
    ensures
        exists|k: int| #[trigger]
            emitted_places(entries, policy).contains(k) && record_of(entries, policy, k) == i,
{
    let s = scanned(entries, policy);
    lemma_scanned_distinct(entries, policy);
    lemma_scanned_source(entries, policy, i);
    lemma_find_is(s, s[i].name, i);
    if s[i].original && policy.wants_original() {
        let k = choose|k: int|
            0 <= k < entries.len() && is_entry_of(#[trigger] entries[k], s[i].name, FileType::Original);
        assert(emitted_places(entries, policy).contains(k) && record_of(entries, policy, k) == i);
    } else {
        let k = choose|k: int|
            0 <= k < entries.len() && is_entry_of(#[trigger] entries[k], s[i].name, FileType::Edited);
        assert(emitted_places(entries, policy).contains(k) && record_of(entries, policy, k) == i);
    }
}

/// Of every archive at least as many entries are handed out as records as the archive
/// has photos and videos that the policy hands out.
pub proof fn lemma_records_at_least(entries: Seq<ArchiveEntry>, policy: HandleEdited)
    ensures
        emitted_places(entries, policy).finite(),
        wanted_places(entries, policy).finite(),
        emitted_places(entries, policy).len() >= wanted_places(entries, policy).len(),
{
    let emitted = emitted_places(entries, policy);
    let wanted_set = wanted_places(entries, policy);
    let f = |k: int| record_of(entries, policy, k);
    lemma_int_range(0, entries.len() as int);
    assert(emitted.subset_of(set_int_range(0, entries.len() as int)));
    lemma_len_subset(emitted, set_int_range(0, entries.len() as int));
    lemma_map_size_bound(emitted, emitted.map(f), f);
    assert forall|i: int| wanted_set.contains(i) implies emitted.map(f).contains(i) by {
        lemma_wanted_is_emitted(entries, policy, i);
        let k = choose|k: int| #[trigger] emitted.contains(k) && record_of(entries, policy, k) == i;
        assert(f(k) == i);
    }
    lemma_len_subset(wanted_set, emitted.map(f));
}

/// As many entries of an archive are handed out as records as the archive has photos and
/// videos that the policy hands out, wherever no photo or video is handed out twice
/// and, where an edited version is used alone, every original has one.
pub proof fn lemma_records_conserved(entries: Seq<ArchiveEntry>, policy: HandleEdited)
    requires
        handed_out_once(entries, policy),
        edited_throughout(entries, policy),
    ensures
        emitted_places(entries, policy).finite(),
        wanted_places(entries, policy).finite(),
        emitted_places(entries, policy).len() == wanted_places(entries, policy).len(),
{
    let s = scanned(entries, policy);
    let emitted = emitted_places(entries, policy);
    let wanted_set = wanted_places(entries, policy);
    let f = |k: int| record_of(entries, policy, k);
    lemma_records_at_least(entries, policy);
    assert(injective_on(f, emitted)) by {
        assert forall|j: int, k: int|
            emitted.contains(j) && emitted.contains(k) && #[trigger] f(j) == #[trigger] f(
                k,
            ) implies j == k by {
            lemma_find(s, name_at(entries, j));
            lemma_find(s, name_at(entries, k));
        }
    }
    assert forall|i: int| emitted.map(f).contains(i) implies wanted_set.contains(i) by {
        let k = choose|k: int| emitted.contains(k) && i == f(k);
        lemma_find(s, name_at(entries, k));
        lemma_scanned_holds(entries, policy, k);
    }
    assert forall|i: int| wanted_set.contains(i) implies emitted.map(f).contains(i) by {
        lemma_wanted_is_emitted(entries, policy, i);
        let k = choose|k: int| #[trigger] emitted.contains(k) && record_of(entries, policy, k) == i;
        assert(f(k) == i);
    }
    assert(emitted.map(f) =~= wanted_set);
    lemma_map_size(emitted, wanted_set, f);
}

} // verus!
