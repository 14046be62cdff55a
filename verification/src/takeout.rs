use vstd::prelude::*;
use vstd::hash_map::StringHashMap;
use vstd::string::StringExecFns;
use crate::asset::Asset;
use crate::datetime::DateTime;

pub mod file;
pub mod laws;
pub mod media;
pub mod metadata;
pub mod upload;

use file::{classified, FileType, Filename};
use media::{find, media_view, strings_view, with_entry, Mark, Media, MediaStore, MediaView};
use metadata::{timestamp_view, told_time, Metadata};

verus! {

/// What can go wrong while a Takeout archive is read.
#[derive(Debug)]
pub enum ParseError {
    /// The name of an entry is no file name with an extension.
    FileNameError(String),
    /// The path of an entry has no directory to name an album, or no file name.
    FilePathError(String),
    /// The entry holds no photo or video that can be read.
    NoPhotoError(String),
    /// The entry is of a kind that cannot be used here.
    InvalidType,
    /// The metadata beside a photo or video cannot be understood.
    InvalidMetadata(String),
    /// Reading the archive failed.
    Io { reason: String },
}

/// What reading from an archive gives.
pub type ParseResult<T> = Result<T, ParseError>;

impl ParseError {
    /// What the error says, in words.
    pub open spec fn message(&self) -> Seq<char> {
        match self {
            ParseError::FileNameError(text) => "Invalid filename (expected path/filename): "@
                + text@,
            ParseError::FilePathError(text) =>
                "Invalid filename (expected prefix/path/filename): "@ + text@,
            ParseError::NoPhotoError(text) => "File is not a photo: "@ + text@,
            ParseError::InvalidType => "Invalid type"@,
            ParseError::InvalidMetadata(text) => "Unable to parse Metadata: "@ + text@,
            ParseError::Io { .. } => "IO error"@,
        }
    }

    /// What the error says, in words.
    pub fn to_string(&self) -> (r: String)
        ensures
            r@ == self.message(),
    {
        match self {
            ParseError::FileNameError(text) => {
                let mut out = "Invalid filename (expected path/filename): ".to_owned();
                out.append(text.as_str());
                out
            },
            ParseError::FilePathError(text) => {
                let mut out = "Invalid filename (expected prefix/path/filename): ".to_owned();
                out.append(text.as_str());
                out
            },
            ParseError::NoPhotoError(text) => {
                let mut out = "File is not a photo: ".to_owned();
                out.append(text.as_str());
                out
            },
            ParseError::InvalidType => "Invalid type".to_owned(),
            ParseError::InvalidMetadata(text) => {
                let mut out = "Unable to parse Metadata: ".to_owned();
                out.append(text.as_str());
                out
            },
            ParseError::Io { .. } => "IO error".to_owned(),
        }
    }
}

/// What to do with a photo or video of which the archive holds an edited version.
#[derive(Clone, Copy, Debug, PartialEq, Eq, Structural)]
pub enum HandleEdited {
    /// Where there is an edited version, only that is used.
    PreferEdited,
    /// The edited version and the original are both used.
    UseBoth,
    /// Only the original is used.
    PreferOriginal,
}

impl HandleEdited {
    /// Whether edited versions are used at all.
    pub open spec fn wants_edited(self) -> bool {
        !(self is PreferOriginal)
    }

    /// Whether an original is used beside its edited version.
    pub open spec fn wants_original(self) -> bool {
        !(self is PreferEdited)
    }

    /// Whether edited versions are used at all.
    pub fn use_edited(&self) -> (r: bool)
        ensures
            r == self.wants_edited(),
    {
        match self {
            HandleEdited::PreferOriginal => false,
            _ => true,
        }
    }

    /// Whether an original is used beside its edited version.
    pub fn use_original(&self) -> (r: bool)
        ensures
            r == self.wants_original(),
    {
        match self {
            HandleEdited::PreferEdited => false,
            _ => true,
        }
    }
}

impl Default for HandleEdited {
    fn default() -> (r: Self)
        ensures
            r is PreferEdited,
    {
        HandleEdited::PreferEdited
    }
}

/// One entry of an archive, without its content: its path, when it was last changed
/// where the archive tells, and, for an entry of metadata, what its JSON stands for,
/// where it is JSON of metadata.
#[derive(Debug)]
pub struct ArchiveEntry {
    pub path: String,
    pub mtime: Option<DateTime>,
    pub sidecar: Option<Metadata>,
}

/// The records after the entry at `path` was met. Metadata that tells a time is noted,
/// other metadata is passed over; an original is noted; an edited version is noted
/// where edited versions are used; any other entry is passed over.
pub open spec fn entry_effect(
    items: Seq<MediaView>,
    path: Seq<char>,
    sidecar: Option<Seq<char>>,
    policy: HandleEdited,
) -> Seq<MediaView> {
    match classified(path) {
        Some(f) => match f.filetype {
            FileType::Metadata => match sidecar {
                Some(timestamp) => match told_time(timestamp) {
                    Some(t) => with_entry(items, f.name, f.album, Mark::Metadata(t)),
                    None => items,
                },
                None => items,
            },
            FileType::Edited => if policy.wants_edited() {
                with_entry(items, f.name, f.album, Mark::Edited)
            } else {
                items
            },
            FileType::Original => with_entry(items, f.name, f.album, Mark::Original),
            FileType::Unknown => items,
        },
        None => items,
    }
}

/// The records after all of `entries` were met, in order.
pub open spec fn scanned(entries: Seq<ArchiveEntry>, policy: HandleEdited) -> Seq<MediaView>
    decreases entries.len(),
{
    if entries.len() == 0 {
        Seq::empty()
    } else {
        entry_effect(
            scanned(entries.drop_last(), policy),
            entries.last().path@,
            timestamp_view(entries.last().sidecar),
            policy,
        )
    }
}

/// Whether the entry at `path` is handed out as a record: an original is, where the
/// records hold no edited version of it or originals are used beside edited versions;
/// an edited version is, where edited versions are used; nothing else is.
pub open spec fn emits(items: Seq<MediaView>, policy: HandleEdited, path: Seq<char>) -> bool {
    match classified(path) {
        Some(f) => {
            let i = find(items, f.name);
            match f.filetype {
                FileType::Original => i >= 0 && (!items[i].edited || policy.wants_original()),
                FileType::Edited => i >= 0 && policy.wants_edited(),
                _ => false,
            }
        },
        None => false,
    }
}

/// An album of an archive with the names of the photos and videos in it.
pub struct AlbumView {
    pub name: Seq<char>,
    pub members: Seq<Seq<char>>,
}

/// The position of the last album called `name`, or -1 where there is none.
pub open spec fn find_album(albums: Seq<AlbumView>, name: Seq<char>) -> int
    decreases albums.len(),
{
    if albums.len() == 0 {
        -1
    } else if albums.last().name == name {
        albums.len() - 1
    } else {
        find_album(albums.drop_last(), name)
    }
}

/// `find_album` gives an album called `name`, or -1 where there is none.
pub proof fn lemma_find_album(albums: Seq<AlbumView>, name: Seq<char>)
    ensures
        -1 <= find_album(albums, name) < albums.len(),
        find_album(albums, name) >= 0 ==> albums[find_album(albums, name)].name == name,
        find_album(albums, name) == -1 ==> forall|i: int|
            0 <= i < albums.len() ==> albums[i].name != name,
        forall|i: int| find_album(albums, name) < i < albums.len() ==> albums[i].name != name,
    decreases albums.len(),
{
    if albums.len() > 0 && albums.last().name != name {
        lemma_find_album(albums.drop_last(), name);
        assert forall|i: int| find_album(albums, name) < i < albums.len() implies albums[i].name
            != name by {
            if i < albums.len() - 1 {
                assert(albums.drop_last()[i] == albums[i]);
            }
        }
    }
}

/// The albums after `member` was noted under `album`: it stands at the end of that
/// album, which is a new album at the end where there was none of that name.
pub open spec fn with_member(
    albums: Seq<AlbumView>,
    album: Seq<char>,
    member: Seq<char>,
) -> Seq<AlbumView> {
    let i = find_album(albums, album);
    if i >= 0 {
        albums.update(i, AlbumView { name: album, members: albums[i].members.push(member) })
    } else {
        albums.push(AlbumView { name: album, members: seq![member] })
    }
}

/// The albums after `member` was noted under each of `names`, in order.
pub open spec fn with_members(
    albums: Seq<AlbumView>,
    names: Seq<Seq<char>>,
    member: Seq<char>,
) -> Seq<AlbumView>
    decreases names.len(),
{
    if names.len() == 0 {
        albums
    } else {
        with_member(with_members(albums, names.drop_last(), member), names.last(), member)
    }
}

/// The albums of the records: each record is noted under each of its albums, record by
/// record.
pub open spec fn aggregated(items: Seq<MediaView>) -> Seq<AlbumView>
    decreases items.len(),
{
    if items.len() == 0 {
        Seq::empty()
    } else {
        with_members(aggregated(items.drop_last()), items.last().albums, items.last().name)
    }
}

/// One album with the names of its photos and videos.
#[derive(Debug)]
pub struct AlbumList {
    name: String,
    members: Vec<String>,
}

impl View for AlbumList {
    type V = AlbumView;

    closed spec fn view(&self) -> AlbumView {
        AlbumView { name: self.name@, members: strings_view(self.members@) }
    }
}

impl AlbumList {
    /// The name of the album.
    pub fn name(&self) -> (r: &str)
        ensures
            r@ == self@.name,
    {
        self.name.as_str()
    }

    /// The names of the photos and videos in the album.
    pub fn members(&self) -> (r: &Vec<String>)
        ensures
            strings_view(r@) == self@.members,
    {
        &self.members
    }
}

/// The albums as plain values.
pub open spec fn albums_view(lists: Seq<AlbumList>) -> Seq<AlbumView> {
    lists.map_values(|l: AlbumList| l@)
}

/// The albums of an archive, in the order in which they were first met, each with the
/// names of its photos and videos.
pub struct TakeoutAlbums {
    lists: Vec<AlbumList>,
    index: StringHashMap<usize>,
}

impl View for TakeoutAlbums {
    type V = Seq<AlbumView>;

    closed spec fn view(&self) -> Seq<AlbumView> {
        albums_view(self.lists@)
    }
}

impl TakeoutAlbums {
    /// The index knows each album by its name, and nothing else.
    pub closed spec fn wf(&self) -> bool {
        &&& forall|i: int|
            0 <= i < self.lists.len() ==> self.index@.contains_key(
                (#[trigger] self.lists@[i])@.name,
            ) && self.index@[self.lists@[i]@.name] == i
        &&& forall|name: Seq<char>| #[trigger]
            self.index@.contains_key(name) ==> 0 <= self.index@[name] < self.lists.len()
                && self.lists@[self.index@[name] as int]@.name == name
    }

    /// No albums.
    pub fn new() -> (r: Self)
        ensures
            r.wf(),
            r@ == Seq::<AlbumView>::empty(),
    {
        let r = TakeoutAlbums { lists: Vec::new(), index: StringHashMap::new() };
        assert(r@ =~= Seq::<AlbumView>::empty());
        r
    }

    /// Notes the photo or video `member` under the album `key`.
    pub fn entry(&mut self, key: &str, member: &str)
        requires
            old(self).wf(),
        ensures
            final(self).wf(),
            final(self)@ == with_member(old(self)@, key@, member@),
    {
        proof {
            lemma_find_album(self@, key@);
        }
        match self.index.get(key) {
            Some(i) => {
                let i = *i;
                assert(find_album(self@, key@) == i) by {
                    let f = find_album(self@, key@);
                    if f != i {
                        if f >= 0 {
                            assert(self.index@[self.lists@[f]@.name] == f);
                        }
                        assert(self@[i as int].name == key@);
                    }
                }
                let list = &mut self.lists[i];
                list.members.push(member.to_owned());
                assert(strings_view(self.lists@[i as int].members@) =~= strings_view(
                    old(self).lists@[i as int].members@,
                ).push(member@));
                assert(self@ =~= with_member(old(self)@, key@, member@));
                assert forall|k: int| 0 <= k < self.lists.len() implies self.index@.contains_key(
                    (#[trigger] self.lists@[k])@.name,
                ) && self.index@[self.lists@[k]@.name] == k by {
                    assert(self.lists@[k]@.name == old(self).lists@[k]@.name);
                }
                assert forall|name: Seq<char>| #[trigger]
                    self.index@.contains_key(name) implies 0 <= self.index@[name]
                    < self.lists.len() && self.lists@[self.index@[name] as int]@.name == name by {
                    assert(self.lists@[self.index@[name] as int]@.name == old(
                        self,
                    ).lists@[self.index@[name] as int]@.name);
                }
            },
            None => {
                assert(find_album(self@, key@) == -1) by {
                    let f = find_album(self@, key@);
                    if f >= 0 {
                        assert(self.index@.contains_key(self.lists@[f]@.name));
                    }
                }
                let i = self.lists.len();
                self.index.insert(key.to_owned(), i);
                let list = AlbumList { name: key.to_owned(), members: vec![member.to_owned()] };
                assert(list@.members =~= seq![member@]);
                self.lists.push(list);
                assert(self@ =~= with_member(old(self)@, key@, member@));
                assert forall|k: int| 0 <= k < self.lists.len() implies self.index@.contains_key(
                    (#[trigger] self.lists@[k])@.name,
                ) && self.index@[self.lists@[k]@.name] == k by {
                    if k < i {
                        assert(self.lists@[k] == old(self).lists@[k]);
                        assert(old(self)@[k].name != key@);
                    }
                }
                assert forall|name: Seq<char>| #[trigger]
                    self.index@.contains_key(name) implies 0 <= self.index@[name]
                    < self.lists.len() && self.lists@[self.index@[name] as int]@.name == name by {
                    if name != key@ {
                        assert(old(self).index@.contains_key(name));
                    }
                }
            },
        }
    }

    /// The albums, in the order in which they were first met.
    pub fn iter(&self) -> (r: &Vec<AlbumList>)
        ensures
            albums_view(r@) == self@,
    {
        &self.lists
    }

    /// The number of albums.
    pub fn len(&self) -> (r: usize)
        ensures
            r == self@.len(),
    {
        self.lists.len()
    }
}

impl Default for TakeoutAlbums {
    fn default() -> (r: Self)
        ensures
            r.wf(),
            r@ == Seq::<AlbumView>::empty(),
    {
        TakeoutAlbums::new()
    }
}

/// A Takeout archive as far as it is known after it was read once: its entries without
/// their content, and one record for each photo or video in it.
pub struct Takeout {
    edited_files: HandleEdited,
    media: MediaStore,
    entries: Vec<ArchiveEntry>,
}

impl Takeout {
    /// The entries of the archive, in order.
    pub closed spec fn entries_spec(&self) -> Seq<ArchiveEntry> {
        self.entries@
    }

    /// What is done with edited versions.
    pub closed spec fn policy(&self) -> HandleEdited {
        self.edited_files
    }

    /// The records of the photos and videos.
    pub closed spec fn media_spec(&self) -> Seq<MediaView> {
        self.media@
    }

    /// The records are those that the entries give.
    pub closed spec fn wf(&self) -> bool {
        &&& self.media.wf()
        &&& self.media@ == scanned(self.entries@, self.edited_files)
    }

    /// Reads the entries of an archive. Where a photo or video comes with an edited
    /// version, only that is used.
    pub fn new(entries: Vec<ArchiveEntry>) -> (r: Self)
        ensures
            r.wf(),
            r.entries_spec() == entries@,
            r.policy() is PreferEdited,
            r.media_spec() == scanned(entries@, HandleEdited::PreferEdited),
    {
        Self::with_rules(entries, HandleEdited::PreferEdited)
    }

    /// Reads the entries of an archive, with `edited_files` saying what is done with
    /// edited versions.
    pub fn with_rules(entries: Vec<ArchiveEntry>, edited_files: HandleEdited) -> (r: Self)
        ensures
            r.wf(),
            r.entries_spec() == entries@,
            r.policy() == edited_files,
            r.media_spec() == scanned(entries@, edited_files),
    {
        let media = Self::first_scan(&entries, &edited_files);
        Takeout { edited_files, media, entries }
    }

    /// Notes one entry of an archive in the records.
    pub fn scan_entry(media: &mut MediaStore, entry: &ArchiveEntry, edited_files: &HandleEdited)
        requires
            old(media).wf(),
        ensures
            final(media).wf(),
            final(media)@ == entry_effect(
                old(media)@,
                entry.path@,
                timestamp_view(entry.sidecar),
                *edited_files,
            ),
    {
        let filename = match Filename::try_from(entry.path.as_str()) {
            Ok(filename) => filename,
            Err(_) => {
                return ;
            },
        };
        match filename.filetype() {
            FileType::Metadata => {
                if let Ok(date_taken) = metadata::parse(
                    entry.sidecar.as_ref(),
                    entry.path.as_str(),
                ) {
                    media.add_metadata(&filename, date_taken);
                }
            },
            FileType::Edited => {
                if edited_files.use_edited() {
                    media.add_edited(&filename);
                }
            },
            FileType::Original => {
                media.add_original(&filename);
            },
            FileType::Unknown => {},
        }
    }

    /// The records that the entries of an archive give.
    pub fn first_scan(entries: &Vec<ArchiveEntry>, edited_files: &HandleEdited) -> (media:
        MediaStore)
        ensures
            media.wf(),
            media@ == scanned(entries@, *edited_files),
    {
        let mut media = MediaStore::default();
        let mut i: usize = 0;
        while i < entries.len()
            invariant
                i <= entries.len(),
                media.wf(),
                media@ == scanned(entries@.take(i as int), *edited_files),
            decreases entries.len() - i,
        {
            assert(entries@.take(i + 1).drop_last() == entries@.take(i as int));
            Self::scan_entry(&mut media, &entries[i], edited_files);
            i += 1;
        }
        assert(entries@.take(entries.len() as int) == entries@);
        media
    }

    /// The number of photos and videos in the archive.
    pub fn len(&self) -> (r: usize)
        ensures
            r == self.media_spec().len(),
    {
        self.media.len()
    }

    /// Whether the archive holds no photo or video.
    pub fn is_empty(&self) -> (r: bool)
        ensures
            r == (self.media_spec().len() == 0),
    {
        self.media.is_empty()
    }

    /// The entries of the archive.
    pub fn entries(&self) -> (r: &Vec<ArchiveEntry>)
        ensures
            r@ == self.entries_spec(),
    {
        &self.entries
    }

    /// The records of the photos and videos.
    pub fn media(&self) -> (r: &MediaStore)
        ensures
            r@ == self.media_spec(),
            self.wf() ==> r.wf(),
    {
        &self.media
    }

    /// What is done with edited versions.
    pub fn edited_files(&self) -> (r: &HandleEdited)
        ensures
            *r == self.policy(),
    {
        &self.edited_files
    }

    /// Walks over the entries that are handed out as records, from the first on.
    pub fn records(&self) -> (r: Iter<'_>)
        ensures
            r.takeout() == self,
            r.position() == 0,
    {
        Iter::new(self)
    }

    /// The albums of the archive, each with the names of the photos and videos in it.
    pub fn albums(&self) -> (r: TakeoutAlbums)
        ensures
            r.wf(),
            r@ == aggregated(self.media_spec()),
    {
        let mut albums = TakeoutAlbums::default();
        let items = self.media.values();
        let mut i: usize = 0;
        while i < items.len()
            invariant
                i <= items.len(),
                media_view(items@) == self.media@,
                albums.wf(),
                albums@ == aggregated(self.media@.take(i as int)),
            decreases items.len() - i,
        {
            let file = &items[i];
            let names = file.albums();
            let mut j: usize = 0;
            assert(self.media@.take(i + 1).drop_last() == self.media@.take(i as int));
            assert(self.media@.take(i + 1).last() == file@);
            while j < names.len()
                invariant
                    j <= names.len(),
                    strings_view(names@) == file@.albums,
                    albums.wf(),
                    albums@ == with_members(
                        aggregated(self.media@.take(i as int)),
                        file@.albums.take(j as int),
                        file@.name,
                    ),
                decreases names.len() - j,
            {
                assert(file@.albums.take(j + 1).drop_last() == file@.albums.take(j as int));
                assert(file@.albums.take(j + 1).last() == names@[j as int]@);
                albums.entry(names[j].as_str(), file.name());
                j += 1;
            }
            assert(file@.albums.take(names.len() as int) == file@.albums);
            i += 1;
        }
        assert(self.media@.take(items.len() as int) == self.media@);
        albums
    }

    /// What is known of the photo or video that the entry at `index` belongs to:
    /// `None` where there is no such entry or the entry is of no photo or video in the
    /// records.
    pub open spec fn media_at(&self, index: int) -> Option<MediaView> {
        if 0 <= index < self.entries_spec().len() {
            match classified(self.entries_spec()[index].path@) {
                Some(f) => if find(self.media_spec(), f.name) >= 0 {
                    Some(self.media_spec()[find(self.media_spec(), f.name)])
                } else {
                    None
                },
                None => None,
            }
        } else {
            None
        }
    }

    /// An entry that is handed out as a record is of a photo or video in the records.
    pub proof fn lemma_emitted_has_media(&self, index: int)
        requires
            0 <= index < self.entries_spec().len(),
            emits(self.media_spec(), self.policy(), self.entries_spec()[index].path@),
        ensures
            self.media_at(index) is Some,
    {
    }

    /// The record for the entry at `index`, with `data` as its content: `None` where
    /// there is no such entry or the entry is of no photo or video in the records.
    pub fn record(&self, index: usize, data: Vec<u8>) -> (r: Option<Record<'_>>)
        requires
            self.wf(),
        ensures
            match self.media_at(index as int) {
                Some(media) => {
                    &&& r matches Some(record)
                    &&& record.media_spec() == media
                    &&& record.mtime_spec() == self.entries_spec()[index as int].mtime
                    &&& record.data_spec() == data@
                },
                None => r is None,
            },
    {
        if index >= self.entries.len() {
            return None;
        }
        let entry = &self.entries[index];
        match Filename::try_from(entry.path.as_str()) {
            Ok(filename) => match self.media.get(filename.name()) {
                Some(media) => Some(Record::new(media, entry.mtime, data)),
                None => None,
            },
            Err(_) => None,
        }
    }
}

/// Walks over the entries of an archive that are handed out as records.
pub struct Iter<'a> {
    takeout: &'a Takeout,
    position: usize,
}

impl<'a> Iter<'a> {
    /// The archive that is walked over.
    pub closed spec fn takeout(&self) -> &'a Takeout {
        self.takeout
    }

    /// The entry at which the walk stands.
    pub closed spec fn position(&self) -> int {
        self.position as int
    }

    fn new(takeout: &'a Takeout) -> (r: Self)
        ensures
            r.takeout() == takeout,
            r.position() == 0,
    {
        Iter { takeout, position: 0 }
    }

    /// Whether the entry at `path` is handed out as a record.
    pub fn selects(&self, path: &str) -> (r: bool)
        requires
            self.takeout().wf(),
        ensures
            r == emits(self.takeout().media_spec(), self.takeout().policy(), path@),
    {
        match Filename::try_from(path) {
            Ok(filename) => match filename.filetype() {
                FileType::Original => self.original(&filename),
                FileType::Edited => self.edited(&filename),
                _ => false,
            },
            Err(_) => false,
        }
    }

    /// Whether the records hold an edited version of the photo or video of `filename`;
    /// `None` where they do not hold that photo or video.
    fn edited_exists(&self, filename: &Filename) -> (r: Option<bool>)
        requires
            self.takeout().wf(),
        ensures
            match r {
                Some(b) => find(self.takeout().media_spec(), filename@.name) >= 0 && b
                    == self.takeout().media_spec()[find(
                    self.takeout().media_spec(),
                    filename@.name,
                )].edited,
                None => find(self.takeout().media_spec(), filename@.name) == -1,
            },
    {
        match self.takeout.media.get(filename.name()) {
            Some(media) => Some(media.edited()),
            None => None,
        }
    }

    /// Whether an original is handed out.
    fn original(&self, filename: &Filename) -> (r: bool)
        requires
            self.takeout().wf(),
        ensures
            r == {
                let items = self.takeout().media_spec();
                let i = find(items, filename@.name);
                i >= 0 && (!items[i].edited || self.takeout().policy().wants_original())
            },
    {
        match self.edited_exists(filename) {
            Some(edited) => !edited || self.takeout.edited_files.use_original(),
            None => false,
        }
    }

    /// Whether an edited version is handed out.
    fn edited(&self, filename: &Filename) -> (r: bool)
        requires
            self.takeout().wf(),
        ensures
            r == (find(self.takeout().media_spec(), filename@.name) >= 0
                && self.takeout().policy().wants_edited()),
    {
        match self.edited_exists(filename) {
            Some(_) => self.takeout.edited_files.use_edited(),
            None => false,
        }
    }

    /// The place of the next entry that is handed out as a record; the walk then stands
    /// behind it. `None` where no entry is left to hand out.
    pub fn next(&mut self) -> (r: Option<usize>)
        requires
            old(self).takeout().wf(),
        ensures
            final(self).takeout() == old(self).takeout(),
            match r {
                Some(k) => {
                    &&& old(self).position() <= k < old(self).takeout().entries_spec().len()
                    &&& final(self).position() == k + 1
                    &&& emits(
                        old(self).takeout().media_spec(),
                        old(self).takeout().policy(),
                        old(self).takeout().entries_spec()[k as int].path@,
                    )
                    &&& forall|j: int|
                        old(self).position() <= j < k ==> !emits(
                            old(self).takeout().media_spec(),
                            old(self).takeout().policy(),
                            (#[trigger] old(self).takeout().entries_spec()[j]).path@,
                        )
                },
                None => {
                    &&& final(self).position() >= old(self).position()
                    &&& final(self).position() >= old(self).takeout().entries_spec().len()
                    &&& forall|j: int|
                        old(self).position() <= j < old(self).takeout().entries_spec().len()
                            ==> !emits(
                            old(self).takeout().media_spec(),
                            old(self).takeout().policy(),
                            (#[trigger] old(self).takeout().entries_spec()[j]).path@,
                        )
                },
            },
    {
        let ghost start = self.position as int;
        while self.position < self.takeout.entries.len()
            invariant
                self.takeout == old(self).takeout,
                self.takeout.wf(),
                start == old(self).position(),
                start <= self.position,
                forall|j: int|
                    start <= j < self.position && j < self.takeout.entries@.len() ==> !emits(
                        self.takeout.media@,
                        self.takeout.edited_files,
                        (#[trigger] self.takeout.entries@[j]).path@,
                    ),
            decreases self.takeout.entries.len() - self.position,
        {
            let k = self.position;
            let selected = self.selects(self.takeout.entries[k].path.as_str());
            self.position = k + 1;
            if selected {
                return Some(k);
            }
        }
        None
    }
}

/// One photo or video of an archive, with its content.
pub struct Record<'a> {
    media: &'a Media,
    mtime: Option<DateTime>,
    data: Vec<u8>,
}

/// When an asset was created that is made of the record of `media`: when the photo or
/// video was taken, or noon of 3 October 1990 where that is not known.
pub open spec fn created_of(media: MediaView) -> int {
    match media.date_taken {
        Some(taken) => taken,
        None => 654_955_200,
    }
}

/// When an asset was changed that is made of the record of `media` from an entry last
/// changed at `mtime`: the later of the time at which the photo or video was taken and
/// the time of the last change of the entry, or the time of creation where it is not
/// known when the photo or video was taken.
pub open spec fn modified_of(media: MediaView, mtime: Option<DateTime>) -> int {
    match media.date_taken {
        Some(taken) => match mtime {
            Some(changed) => later(taken, changed@),
            None => taken,
        },
        None => 654_955_200,
    }
}

/// Whether `asset` is the asset of the record of `media` with the content `data`, from
/// an entry last changed at `mtime`: it is called by the canonical name, has the times
/// of the record and the content, and the server has not seen it.
pub open spec fn is_asset_of(
    asset: &Asset,
    media: MediaView,
    mtime: Option<DateTime>,
    data: Seq<u8>,
) -> bool {
    &&& asset.id_spec() == Seq::<char>::empty()
    &&& asset.device_asset_id_spec() == media.name
    &&& asset.device_id_spec() == "Immich-0.1 (Rust Client)"@
    &&& asset.asset_data_spec() == data
    &&& asset.owner_spec() is None
    &&& asset.created_at_spec() == created_of(media)
    &&& asset.modified_at_spec() == modified_of(media, mtime)
    &&& asset.asset_type_spec() is Unknown
    &&& asset.remote_status_spec() is Unknown
}

/// The later of two times, in seconds.
pub open spec fn later(a: int, b: int) -> int {
    if b >= a {
        b
    } else {
        a
    }
}

impl<'a> Record<'a> {
    /// What is known of the photo or video.
    pub closed spec fn media_spec(&self) -> MediaView {
        self.media@
    }

    /// When the entry was last changed, where the archive tells.
    pub closed spec fn mtime_spec(&self) -> Option<DateTime> {
        self.mtime
    }

    /// The content that was not yet taken out.
    pub closed spec fn data_spec(&self) -> Seq<u8> {
        self.data@
    }

    /// When the photo or video was last changed: the later of the time at which it was
    /// taken and the time of the last change of its entry; `None` where it is not known
    /// when it was taken.
    pub open spec fn date_modified_spec(&self) -> Option<int> {
        match self.media_spec().date_taken {
            Some(taken) => match self.mtime_spec() {
                Some(mtime) => Some(later(taken, mtime@)),
                None => Some(taken),
            },
            None => None,
        }
    }

    /// The record of `media` with the content `data`, from an entry last changed at
    /// `mtime`.
    pub fn new(media: &'a Media, mtime: Option<DateTime>, data: Vec<u8>) -> (r: Self)
        ensures
            r.media_spec() == media@,
            r.mtime_spec() == mtime,
            r.data_spec() == data@,
    {
        Record { media, mtime, data }
    }

    /// When the photo or video was taken, where the metadata told.
    pub fn date_taken(&self) -> (r: Option<DateTime>)
        ensures
            r is Some == self.media_spec().date_taken is Some,
            r matches Some(t) ==> t@ == self.media_spec().date_taken->Some_0,
    {
        self.media.date_taken()
    }

    /// When the photo or video was last changed.
    pub fn date_modified(&self) -> (r: Option<DateTime>)
        ensures
            r is Some == self.date_modified_spec() is Some,
            r matches Some(t) ==> t@ == self.date_modified_spec()->Some_0,
    {
        match self.date_taken() {
            Some(taken) => match self.mtime {
                Some(mtime) => Some(taken.max(mtime)),
                None => Some(taken),
            },
            None => None,
        }
    }

    /// The canonical name.
    pub fn name(&self) -> (r: &str)
        ensures
            r@ == self.media_spec().name,
    {
        self.media.name()
    }

    /// Whether the archive holds the photo or video as it was taken.
    pub fn original(&self) -> (r: bool)
        ensures
            r == self.media_spec().original,
    {
        self.media.original()
    }

    /// Whether the archive holds an edited version that is to be used.
    pub fn edited(&self) -> (r: bool)
        ensures
            r == self.media_spec().edited,
    {
        self.media.edited()
    }

    /// The albums of the photo or video.
    pub fn albums(&self) -> (r: &[String])
        ensures
            strings_view(r@) == self.media_spec().albums,
    {
        self.media.albums()
    }

    /// Takes the content out of the record.
    pub fn data(&mut self) -> (r: Vec<u8>)
        ensures
            r@ == old(self).data_spec(),
            final(self).data_spec() == Seq::<u8>::empty(),
            final(self).media_spec() == old(self).media_spec(),
            final(self).mtime_spec() == old(self).mtime_spec(),
    {
        let mut out: Vec<u8> = Vec::new();
        core::mem::swap(&mut self.data, &mut out);
        out
    }

    /// The asset for the record: it is called by the canonical name, was created when
    /// the photo or video was taken and changed when the record was, and holds the
    /// content. A time that is not known is the default time for the creation, and the
    /// time of creation for the change.
    pub fn into_asset(self) -> (r: Asset)
        ensures
            is_asset_of(&r, self.media_spec(), self.mtime_spec(), self.data_spec()),
    {
        let created = match self.date_taken() {
            Some(t) => t,
            None => DateTime::default(),
        };
        let modified = match self.date_modified() {
            Some(t) => t,
            None => created,
        };
        let name = self.name().to_owned();
        Asset::new(name, created, modified, self.data)
    }
}

} // verus!
