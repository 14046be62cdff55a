use vstd::prelude::*;
use vstd::hash_map::StringHashMap;
use crate::datetime::DateTime;
use crate::takeout::file::Filename;

verus! {

/// The strings as plain text.
pub open spec fn strings_view(strings: Seq<String>) -> Seq<Seq<char>> {
    strings.map_values(|s: String| s@)
}

/// What is known of one photo or video of an archive.
pub struct MediaView {
    /// When it was taken, in seconds since the start of 1970, where the metadata told.
    pub date_taken: Option<int>,
    /// Its canonical name.
    pub name: Seq<char>,
    /// Whether the archive holds an edited version of it that is to be used.
    pub edited: bool,
    /// Whether the archive holds it as it was taken.
    pub original: bool,
    /// The albums under which the archive holds it, its metadata or a version of it, one
    /// for each such entry, in the order of the entries.
    pub albums: Seq<Seq<char>>,
}

/// What an entry of the archive adds to what is known of a photo or video.
pub enum Mark {
    /// The entry is its metadata, with the time at which it was taken.
    Metadata(int),
    /// The entry is the photo or video as it was taken.
    Original,
    /// The entry is an edited version of it.
    Edited,
}

/// What is known of a photo or video that was first met as `mark` in `album`.
pub open spec fn fresh(name: Seq<char>, album: Seq<char>, mark: Mark) -> MediaView {
    MediaView {
        date_taken: match mark {
            Mark::Metadata(t) => Some(t),
            _ => None,
        },
        name,
        edited: mark is Edited,
        original: mark is Original,
        albums: seq![album],
    }
}

/// What is known of a photo or video after it was met once more, as `mark` in `album`.
pub open spec fn marked(media: MediaView, album: Seq<char>, mark: Mark) -> MediaView {
    MediaView {
        date_taken: match mark {
            Mark::Metadata(t) => Some(t),
            _ => media.date_taken,
        },
        name: media.name,
        edited: media.edited || mark is Edited,
        original: media.original || mark is Original,
        albums: media.albums.push(album),
    }
}

/// The position of the last record called `name`, or -1 where there is none.
pub open spec fn find(items: Seq<MediaView>, name: Seq<char>) -> int
    decreases items.len(),
{
    if items.len() == 0 {
        -1
    } else if items.last().name == name {
        items.len() - 1
    } else {
        find(items.drop_last(), name)
    }
}

/// No two records have the same name.
pub open spec fn distinct_names(items: Seq<MediaView>) -> bool {
    forall|i: int, j: int| 0 <= i < j < items.len() ==> items[i].name != items[j].name
}

/// `find` gives a record called `name`, or -1 where there is none.
pub proof fn lemma_find(items: Seq<MediaView>, name: Seq<char>)
    ensures
        -1 <= find(items, name) < items.len(),
        find(items, name) >= 0 ==> items[find(items, name)].name == name,
        find(items, name) == -1 ==> forall|i: int| 0 <= i < items.len() ==> items[i].name != name,
    decreases items.len(),
{
    if items.len() > 0 && items.last().name != name {
        lemma_find(items.drop_last(), name);
        assert forall|i: int| 0 <= i < items.len() && find(items, name) == -1 implies items[i].name
            != name by {
            if i < items.len() - 1 {
                assert(items.drop_last()[i] == items[i]);
            }
        }
    }
}

/// Among records of distinct names, `find` gives the one record called `name`.
pub proof fn lemma_find_is(items: Seq<MediaView>, name: Seq<char>, k: int)
    requires
        distinct_names(items),
        0 <= k < items.len(),
        items[k].name == name,
    ensures
        find(items, name) == k,
{
    lemma_find(items, name);
}

/// The records after an entry was met that is `mark` of the photo or video `name` and
/// lies in `album`: the record of that name is marked, or a fresh one stands at the end.
pub open spec fn with_entry(
    items: Seq<MediaView>,
    name: Seq<char>,
    album: Seq<char>,
    mark: Mark,
) -> Seq<MediaView> {
    let i = find(items, name);
    if i >= 0 {
        items.update(i, marked(items[i], album, mark))
    } else {
        items.push(fresh(name, album, mark))
    }
}

/// Meeting an entry keeps the names distinct, keeps every record at its place and
/// touches only the record of that name.
pub proof fn lemma_with_entry(
    items: Seq<MediaView>,
    name: Seq<char>,
    album: Seq<char>,
    mark: Mark,
)
    requires
        distinct_names(items),
    ensures
        distinct_names(with_entry(items, name, album, mark)),
        with_entry(items, name, album, mark).len() >= items.len(),
        forall|i: int|
            0 <= i < items.len() ==> (#[trigger] with_entry(items, name, album, mark)[i]).name
                == items[i].name,
        forall|i: int|
            0 <= i < items.len() && items[i].name != name ==> #[trigger] with_entry(
                items,
                name,
                album,
                mark,
            )[i] == items[i],
{
    lemma_find(items, name);
}

/// One photo or video of an archive: its canonical name, when it was taken, which
/// versions of it the archive holds, and in which albums.
#[derive(Debug)]
pub struct Media {
    date_taken: Option<DateTime>,
    name: String,
    edited: bool,
    original: bool,
    albums: Vec<String>,
}

impl View for Media {
    type V = MediaView;

    closed spec fn view(&self) -> MediaView {
        MediaView {
            date_taken: match self.date_taken {
                Some(t) => Some(t@),
                None => None,
            },
            name: self.name@,
            edited: self.edited,
            original: self.original,
            albums: strings_view(self.albums@),
        }
    }
}

impl Media {
    /// A photo or video met as it was taken, in `album`.
    pub fn from_original(name: String, album: String) -> (r: Self)
        ensures
            r@ == fresh(name@, album@, Mark::Original),
    {
        let r = Media {
            date_taken: None,
            name,
            edited: false,
            original: true,
            albums: vec![album],
        };
        assert(r@.albums =~= seq![album@]);
        r
    }

    /// A photo or video met in an edited version, in `album`.
    pub fn from_edited(name: String, album: String) -> (r: Self)
        ensures
            r@ == fresh(name@, album@, Mark::Edited),
    {
        let r = Media {
            date_taken: None,
            name,
            edited: true,
            original: false,
            albums: vec![album],
        };
        assert(r@.albums =~= seq![album@]);
        r
    }

    /// A photo or video of which the metadata was met, in `album`.
    pub fn from_metadata(name: String, album: String, date_taken: DateTime) -> (r: Self)
        ensures
            r@ == fresh(name@, album@, Mark::Metadata(date_taken@)),
    {
        let r = Media {
            date_taken: Some(date_taken),
            name,
            edited: false,
            original: false,
            albums: vec![album],
        };
        assert(r@.albums =~= seq![album@]);
        r
    }

    /// When the photo or video was taken, where the metadata told.
    pub fn date_taken(&self) -> (r: Option<DateTime>)
        ensures
            r is Some == self@.date_taken is Some,
            r matches Some(t) ==> t@ == self@.date_taken->Some_0,
    {
        self.date_taken
    }

    /// The canonical name.
    pub fn name(&self) -> (r: &str)
        ensures
            r@ == self@.name,
    {
        self.name.as_str()
    }

    /// Whether the archive holds the photo or video as it was taken.
    pub fn original(&self) -> (r: bool)
        ensures
            r == self@.original,
    {
        self.original
    }

    /// Whether the archive holds an edited version that is to be used.
    pub fn edited(&self) -> (r: bool)
        ensures
            r == self@.edited,
    {
        self.edited
    }

    /// The albums of the photo or video, one for each entry of it.
    pub fn albums(&self) -> (r: &[String])
        ensures
            strings_view(r@) == self@.albums,
    {
        self.albums.as_slice()
    }

    /// Notes one more album.
    pub fn add_album(&mut self, album: &str)
        ensures
            final(self)@ == (MediaView { albums: old(self)@.albums.push(album@), ..old(self)@ }),
    {
        self.albums.push(album.to_owned());
        assert(strings_view(self.albums@) =~= strings_view(old(self).albums@).push(album@));
    }

    /// Notes when the photo or video was taken.
    pub fn set_date_taken(&mut self, date_taken: DateTime)
        ensures
            final(self)@ == (MediaView { date_taken: Some(date_taken@), ..old(self)@ }),
    {
        self.date_taken = Some(date_taken);
    }

    /// Notes that the archive holds an edited version.
    pub fn add_edited(&mut self)
        ensures
            final(self)@ == (MediaView { edited: true, ..old(self)@ }),
    {
        self.edited = true;
    }

    /// Notes that the archive holds the photo or video as it was taken.
    pub fn add_original(&mut self)
        ensures
            final(self)@ == (MediaView { original: true, ..old(self)@ }),
    {
        self.original = true;
    }
}

/// The records as plain values.
pub open spec fn media_view(items: Seq<Media>) -> Seq<MediaView> {
    items.map_values(|m: Media| m@)
}

/// The photos and videos of an archive, one record for each canonical name, in the order
/// in which the names were first met.
pub struct MediaStore {
    items: Vec<Media>,
    index: StringHashMap<usize>,
}

impl View for MediaStore {
    type V = Seq<MediaView>;

    closed spec fn view(&self) -> Seq<MediaView> {
        media_view(self.items@)
    }
}

impl MediaStore {
    /// The index knows each record by its name, and nothing else.
    pub closed spec fn wf(&self) -> bool {
        &&& forall|i: int|
            0 <= i < self.items.len() ==> self.index@.contains_key(
                (#[trigger] self.items@[i])@.name,
            ) && self.index@[self.items@[i]@.name] == i
        &&& forall|name: Seq<char>| #[trigger]
            self.index@.contains_key(name) ==> 0 <= self.index@[name] < self.items.len()
                && self.items@[self.index@[name] as int]@.name == name
    }

    /// A well-formed store has one record for each name.
    pub proof fn lemma_distinct(&self)
        requires
            self.wf(),
        ensures
            distinct_names(self@),
    {
        assert forall|i: int, j: int| 0 <= i < j < self@.len() implies self@[i].name
            != self@[j].name by {
            assert(self.index@[self.items@[i]@.name] == i);
            assert(self.index@[self.items@[j]@.name] == j);
        }
    }

    /// A store without records.
    pub fn new() -> (r: Self)
        ensures
            r.wf(),
            r@ == Seq::<MediaView>::empty(),
    {
        let r = MediaStore { items: Vec::new(), index: StringHashMap::new() };
        assert(r@ =~= Seq::<MediaView>::empty());
        r
    }

    /// Where the record called `name` stands.
    fn position(&self, name: &str) -> (r: Option<usize>)
        requires
            self.wf(),
        ensures
            match r {
                Some(i) => i == find(self@, name@) && i < self.items.len(),
                None => find(self@, name@) == -1,
            },
    {
        proof {
            self.lemma_distinct();
            lemma_find(self@, name@);
        }
        match self.index.get(name) {
            Some(i) => {
                proof {
                    lemma_find_is(self@, name@, *i as int);
                }
                Some(*i)
            },
            None => {
                assert(find(self@, name@) == -1) by {
                    if find(self@, name@) >= 0 {
                        assert(self.index@.contains_key(
                            self.items@[find(self@, name@)]@.name,
                        ));
                    }
                }
                None
            },
        }
    }

    /// Puts a fresh record at the end.
    fn insert(&mut self, media: Media)
        requires
            old(self).wf(),
            find(old(self)@, media@.name) == -1,
        ensures
            final(self).wf(),
            final(self)@ == old(self)@.push(media@),
    {
        proof {
            lemma_find(self@, media@.name);
        }
        let i = self.items.len();
        self.index.insert(media.name().to_owned(), i);
        self.items.push(media);
        assert(self@ =~= old(self)@.push(media@));
        assert forall|k: int| 0 <= k < self.items.len() implies self.index@.contains_key(
            (#[trigger] self.items@[k])@.name,
        ) && self.index@[self.items@[k]@.name] == k by {
            if k < i {
                assert(self.items@[k] == old(self).items@[k]);
                assert(old(self)@[k].name != media@.name);
            }
        }
        assert forall|name: Seq<char>| #[trigger] self.index@.contains_key(name) implies 0
            <= self.index@[name] < self.items.len() && self.items@[self.index@[name] as int]@.name
            == name by {
            if name != media@.name {
                assert(old(self).index@.contains_key(name));
            }
        }
    }

    /// Marks the record at `i`.
    fn mark(&mut self, i: usize, album: &str, date_taken: Option<DateTime>, original: bool, edited: bool)
        requires
            old(self).wf(),
            i < old(self).items.len(),
        ensures
            final(self).wf(),
            final(self)@ == old(self)@.update(
                i as int,
                MediaView {
                    date_taken: match date_taken {
                        Some(t) => Some(t@),
                        None => old(self)@[i as int].date_taken,
                    },
                    name: old(self)@[i as int].name,
                    edited: old(self)@[i as int].edited || edited,
                    original: old(self)@[i as int].original || original,
                    albums: old(self)@[i as int].albums.push(album@),
                },
            ),
    {
        let entry = &mut self.items[i];
        if let Some(t) = date_taken {
            entry.set_date_taken(t);
        }
        if original {
            entry.add_original();
        }
        if edited {
            entry.add_edited();
        }
        entry.add_album(album);
        assert(self@ =~= old(self)@.update(i as int, self.items@[i as int]@));
        assert forall|k: int| 0 <= k < self.items.len() implies self.index@.contains_key(
            (#[trigger] self.items@[k])@.name,
        ) && self.index@[self.items@[k]@.name] == k by {
            assert(self.items@[k]@.name == old(self).items@[k]@.name);
        }
        assert forall|name: Seq<char>| #[trigger] self.index@.contains_key(name) implies 0
            <= self.index@[name] < self.items.len() && self.items@[self.index@[name] as int]@.name
            == name by {
            assert(self.items@[self.index@[name] as int]@.name == old(self).items@[self.index@[name] as int]@.name);
        }
    }

    /// Notes the metadata of a photo or video: when it was taken, and the album of the
    /// entry.
    pub fn add_metadata(&mut self, file: &Filename, date_taken: DateTime)
        requires
            old(self).wf(),
        ensures
            final(self).wf(),
            final(self)@ == with_entry(
                old(self)@,
                file.name_spec(),
                file.album_spec(),
                Mark::Metadata(date_taken@),
            ),
    {
        match self.position(file.name()) {
            Some(i) => self.mark(i, file.album(), Some(date_taken), false, false),
            None => self.insert(
                Media::from_metadata(file.name().to_owned(), file.album().to_owned(), date_taken),
            ),
        }
    }

    /// Notes a photo or video as it was taken, and the album of the entry.
    pub fn add_original(&mut self, file: &Filename)
        requires
            old(self).wf(),
        ensures
            final(self).wf(),
            final(self)@ == with_entry(
                old(self)@,
                file.name_spec(),
                file.album_spec(),
                Mark::Original,
            ),
    {
        match self.position(file.name()) {
            Some(i) => self.mark(i, file.album(), None, true, false),
            None => self.insert(
                Media::from_original(file.name().to_owned(), file.album().to_owned()),
            ),
        }
    }

    /// Notes an edited version of a photo or video, and the album of the entry.
    pub fn add_edited(&mut self, file: &Filename)
        requires
            old(self).wf(),
        ensures
            final(self).wf(),
            final(self)@ == with_entry(
                old(self)@,
                file.name_spec(),
                file.album_spec(),
                Mark::Edited,
            ),
    {
        match self.position(file.name()) {
            Some(i) => self.mark(i, file.album(), None, false, true),
            None => self.insert(
                Media::from_edited(file.name().to_owned(), file.album().to_owned()),
            ),
        }
    }

    /// The records, in the order in which their names were first met.
    pub fn values(&self) -> (r: &Vec<Media>)
        ensures
            media_view(r@) == self@,
    {
        &self.items
    }

    /// The record called `key`.
    pub fn get(&self, key: &str) -> (r: Option<&Media>)
        requires
            self.wf(),
        ensures
            match r {
                Some(m) => find(self@, key@) >= 0 && m@ == self@[find(self@, key@)],
                None => find(self@, key@) == -1,
            },
    {
        match self.position(key) {
            Some(i) => Some(&self.items[i]),
            None => None,
        }
    }

    /// The number of records.
    pub fn len(&self) -> (r: usize)
        ensures
            r == self@.len(),
    {
        self.items.len()
    }

    /// Whether there is no record.
    pub fn is_empty(&self) -> (r: bool)
        ensures
            r == (self@.len() == 0),
    {
        self.items.len() == 0
    }
}

impl Default for MediaStore {
    fn default() -> (r: Self)
        ensures
            r.wf(),
            r@ == Seq::<MediaView>::empty(),
    {
        MediaStore::new()
    }
}

} // verus!
