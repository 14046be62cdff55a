use vstd::prelude::*;
use crate::takeout::ParseError;
use crate::text::{
    append_chars, chars_of, contains, last_index_of, lemma_last_index_is, lemma_last_index_of,
    lemma_without_absent, lowered, occurs, occurs_at, remove_all, rfind, same_chars, slice_of,
    string_of, to_lowered, without,
};

verus! {

/// What an entry of the archive is, judged by its name.
#[derive(Clone, Copy, Debug, PartialEq, Eq, Structural)]
pub enum FileType {
    /// The metadata beside a photo or video.
    Metadata,
    /// A photo or video as it was taken.
    Original,
    /// A photo or video after it was edited.
    Edited,
    /// Anything else.
    Unknown,
}

/// Whether a stretch of a path between two slashes is a component of the path: it is
/// neither empty nor a single dot.
pub open spec fn is_component(segment: Seq<char>) -> bool {
    segment.len() > 0 && segment != seq!['.']
}

/// The components of a path whose directories are parted by `/`, in order.
pub open spec fn components(path: Seq<char>) -> Seq<Seq<char>>
    decreases path.len(),
{
    let i = last_index_of(path, '/');
    if 0 <= i < path.len() {
        let before = components(path.subrange(0, i));
        let last = path.subrange(i + 1, path.len() as int);
        if is_component(last) {
            before.push(last)
        } else {
            before
        }
    } else if is_component(path) {
        seq![path]
    } else {
        Seq::empty()
    }
}

/// The last component of the path, unless the path has none or ends in `..`.
pub open spec fn file_name_of(path: Seq<char>) -> Option<Seq<char>> {
    let c = components(path);
    if c.len() >= 1 && c.last() != seq!['.', '.'] {
        Some(c.last())
    } else {
        None
    }
}

/// The component before the last of the path, unless the path has none or it is `..`:
/// the directory that the entry lies in, which names its album.
pub open spec fn album_of(path: Seq<char>) -> Option<Seq<char>> {
    let c = components(path);
    if c.len() >= 2 && c[c.len() - 2] != seq!['.', '.'] {
        Some(c[c.len() - 2])
    } else {
        None
    }
}

/// What follows the last dot of a file name, unless the name has no dot or only one at
/// its start.
pub open spec fn extension_of_name(name: Seq<char>) -> Option<Seq<char>> {
    let j = last_index_of(name, '.');
    if j > 0 {
        Some(name.subrange(j + 1, name.len() as int))
    } else {
        None
    }
}

/// The extension of the file that the path names, if it names one with an extension.
pub open spec fn extension_of(path: Seq<char>) -> Option<Seq<char>> {
    match file_name_of(path) {
        Some(name) => extension_of_name(name),
        None => None,
    }
}

/// Whether `extension`, in lower case, is one of a photo or video.
pub open spec fn is_media_extension(extension: Seq<char>) -> bool {
    ||| extension == "jpg"@
    ||| extension == "jpeg"@
    ||| extension == "png"@
    ||| extension == "webp"@
    ||| extension == "heic"@
    ||| extension == "mp4"@
    ||| extension == "m4v"@
    ||| extension == "webm"@
    ||| extension == "3gp"@
    ||| extension == "gif"@
}

/// What a file with the name `name` and the extension `extension` is. Capital ASCII
/// letters in the extension count as their lower-case forms.
pub open spec fn kind_of(name: Seq<char>, extension: Seq<char>) -> FileType {
    if lowered(extension) == "json"@ {
        FileType::Metadata
    } else if is_media_extension(lowered(extension)) {
        if occurs(name, "edited"@) {
            FileType::Edited
        } else {
            FileType::Original
        }
    } else {
        FileType::Unknown
    }
}

/// A name whose `(..)` at the end, the mark of a duplicate, stands before the extension:
/// where `name` ends in `)`, what begins at its last `(` is moved before the last dot
/// that precedes it, and is dropped where no dot precedes it.
pub open spec fn normalized(name: Seq<char>) -> Seq<char> {
    let i = last_index_of(name, '(');
    if name.len() > 0 && name.last() == ')' && i >= 0 {
        let head = name.subrange(0, i);
        let number = name.subrange(i, name.len() as int);
        let j = last_index_of(head, '.');
        if j >= 0 {
            head.subrange(0, j) + number + head.subrange(j, head.len() as int)
        } else {
            head
        }
    } else {
        name
    }
}

/// The name under which the original, the edited version and the metadata of one photo
/// or video meet: the file name without `-edited`, `.supplemental-metadata` and `.json`,
/// taken out in this order, and with the mark of a duplicate before the extension.
pub open spec fn canonical_name(file_name: Seq<char>) -> Seq<char> {
    normalized(
        without(
            without(without(file_name, "-edited"@), ".supplemental-metadata"@),
            ".json"@,
        ),
    )
}

/// A name of a file in an archive, taken apart, as plain values.
pub struct FilenameView {
    /// The canonical name of the file.
    pub name: Seq<char>,
    /// The album that the file lies in.
    pub album: Seq<char>,
    /// What the file is.
    pub filetype: FileType,
}

/// What the path of an entry says of it, where it names a file with an extension that
/// lies in a directory.
pub open spec fn classified(path: Seq<char>) -> Option<FilenameView> {
    match (file_name_of(path), extension_of(path), album_of(path)) {
        (Some(file), Some(e), Some(a)) => Some(
            FilenameView { name: canonical_name(file), album: a, filetype: kind_of(file, e) },
        ),
        _ => None,
    }
}

/// Whether normalising `name` leaves a name that normalising changes again: `name` ends
/// in `)` behind a `(`, and so does what stands before that `(`, or it ends in `)` behind
/// a dot.
pub open spec fn repeated_suffix(name: Seq<char>) -> bool {
    let i = last_index_of(name, '(');
    &&& name.len() > 0
    &&& name.last() == ')'
    &&& i >= 0
    &&& {
        let head = name.subrange(0, i);
        &&& head.len() > 0
        &&& head.last() == ')'
        &&& (last_index_of(head, '.') >= 0 || last_index_of(head, '(') >= 0)
    }
}

/// Normalising a name changes it exactly where it ends in `)` behind a `(`.
pub proof fn lemma_normalized_changes(name: Seq<char>)
    ensures
        normalized(name) != name <==> name.len() > 0 && name.last() == ')' && last_index_of(
            name,
            '(',
        ) >= 0,
{
    let i = last_index_of(name, '(');
    lemma_last_index_of(name, '(');
    if name.len() > 0 && name.last() == ')' && i >= 0 {
        let head = name.subrange(0, i);
        let number = name.subrange(i, name.len() as int);
        let j = last_index_of(head, '.');
        lemma_last_index_of(head, '.');
        if j >= 0 {
            let r = head.subrange(0, j) + number + head.subrange(j, head.len() as int);
            assert(r[j] == number[0]);
            assert(name[j] == head[j]);
        } else {
            assert(head.len() < name.len());
        }
    }
}

/// Normalising twice gives what normalising once gives, for every name but those with a
/// repeated suffix.
pub proof fn lemma_normalized_idempotent(name: Seq<char>)
    requires
        !repeated_suffix(name),
    ensures
        normalized(normalized(name)) == normalized(name),
{
    let i = last_index_of(name, '(');
    lemma_last_index_of(name, '(');
    if name.len() > 0 && name.last() == ')' && i >= 0 {
        let head = name.subrange(0, i);
        let number = name.subrange(i, name.len() as int);
        let j = last_index_of(head, '.');
        lemma_last_index_of(head, '.');
        lemma_last_index_of(head, '(');
        if j >= 0 {
            let tail = head.subrange(j, head.len() as int);
            let r = head.subrange(0, j) + number + tail;
            assert(r.last() == tail.last());
            assert(tail.last() == head.last());
            lemma_normalized_changes(r);
        } else {
            lemma_normalized_changes(head);
        }
    }
}

/// For a name with a repeated suffix, normalising twice gives something else than
/// normalising once.
pub proof fn lemma_normalized_not_idempotent(name: Seq<char>)
    requires
        repeated_suffix(name),
    ensures
        normalized(normalized(name)) != normalized(name),
{
    let i = last_index_of(name, '(');
    lemma_last_index_of(name, '(');
    let head = name.subrange(0, i);
    let number = name.subrange(i, name.len() as int);
    let j = last_index_of(head, '.');
    lemma_last_index_of(head, '.');
    lemma_last_index_of(head, '(');
    if j >= 0 {
        let tail = head.subrange(j, head.len() as int);
        let r = head.subrange(0, j) + number + tail;
        assert(r.last() == tail.last());
        assert(tail.last() == head.last());
        assert(r[j] == '(');
        if last_index_of(r, '(') < 0 {
            lemma_last_index_of(r, '(');
        }
        lemma_normalized_changes(r);
    } else {
        lemma_normalized_changes(head);
    }
}

/// The components of a path, given where its last stretch begins: those of what stands
/// before the slash in front of that stretch, and the stretch where it is a component.
pub proof fn lemma_components_step(path: Seq<char>, start: int)
    requires
        0 <= start <= path.len(),
        start == 0 || path[start - 1] == '/',
        forall|j: int| start <= j < path.len() ==> path[j] != '/',
    ensures
        components(path) == {
            let before = if start == 0 {
                Seq::<Seq<char>>::empty()
            } else {
                components(path.subrange(0, start - 1))
            };
            let last = path.subrange(start, path.len() as int);
            if is_component(last) {
                before.push(last)
            } else {
                before
            }
        },
{
    lemma_last_index_is(path, '/', start - 1);
    if start == 0 {
        assert(path.subrange(0, path.len() as int) == path);
    }
}

/// Whether `s` holds no `c`.
pub open spec fn free_of(s: Seq<char>, c: char) -> bool {
    forall|i: int| 0 <= i < s.len() ==> s[i] != c
}

/// A path of two components has these two components.
pub proof fn lemma_components_of_pair(album: Seq<char>, file: Seq<char>)
    requires
        is_component(album),
        is_component(file),
        free_of(album, '/'),
        free_of(file, '/'),
    ensures
        components(album + seq!['/'] + file) == seq![album, file],
{
    let path = album + seq!['/'] + file;
    lemma_components_step(path, album.len() as int + 1);
    assert(path.subrange(album.len() as int + 1, path.len() as int) == file);
    assert(path.subrange(0, album.len() as int) == album);
    lemma_components_step(album, 0);
    assert(album.subrange(0, album.len() as int) == album);
    assert(Seq::<Seq<char>>::empty().push(album).push(file) == seq![album, file]);
}

/// The extension of a name made of a base, a dot and an extension without a dot is
/// that extension.
pub proof fn lemma_extension_of_joined(base: Seq<char>, ext: Seq<char>)
    requires
        base.len() > 0,
        free_of(ext, '.'),
    ensures
        extension_of_name(base + seq!['.'] + ext) == Some(ext),
{
    let file = base + seq!['.'] + ext;
    lemma_last_index_is(file, '.', base.len() as int);
    assert(file.subrange(base.len() as int + 1, file.len() as int) == ext);
}

/// A pattern without a dot that is longer than the extension stands in a file name
/// exactly where it stands in the base of the name.
pub proof fn lemma_occurs_in_base(base: Seq<char>, ext: Seq<char>, pat: Seq<char>)
    requires
        free_of(pat, '.'),
        ext.len() < pat.len(),
    ensures
        occurs(base + seq!['.'] + ext, pat) <==> occurs(base, pat),
{
    let file = base + seq!['.'] + ext;
    if occurs(base, pat) {
        let k = choose|k: int| occurs_at(base, pat, k);
        assert(file.subrange(k, k + pat.len()) == base.subrange(k, k + pat.len()));
        assert(occurs_at(file, pat, k));
    }
    if occurs(file, pat) {
        let k = choose|k: int| occurs_at(file, pat, k);
        if k + pat.len() <= base.len() {
            assert(file.subrange(k, k + pat.len()) == base.subrange(k, k + pat.len()));
            assert(occurs_at(base, pat, k));
        } else {
            assert(k <= base.len());
            assert(file.subrange(k, k + pat.len())[base.len() - k] == file[base.len() as int]);
            assert(pat[base.len() - k] == '.');
        }
    }
}

/// An extension of a photo, of a video or of metadata has three or four characters and
/// does not end in `)`.
pub proof fn lemma_known_extension(ext: Seq<char>)
    requires
        is_media_extension(lowered(ext)) || lowered(ext) == "json"@,
    ensures
        3 <= ext.len() <= 4,
        ext.last() != ')',
{
    reveal_strlit("jpg");
    reveal_strlit("jpeg");
    reveal_strlit("png");
    reveal_strlit("webp");
    reveal_strlit("heic");
    reveal_strlit("mp4");
    reveal_strlit("m4v");
    reveal_strlit("webm");
    reveal_strlit("3gp");
    reveal_strlit("gif");
    reveal_strlit("json");
    assert(lowered(ext).len() == ext.len());
    assert(lowered(ext).last() == crate::text::ascii_lower(ext.last()));
}

/// The path of the file `base`, a dot and `ext` in the directory `album`.
pub open spec fn path_of(album: Seq<char>, base: Seq<char>, ext: Seq<char>) -> Seq<char> {
    album + seq!['/'] + (base + seq!['.'] + ext)
}

/// What the classifier says of a path `album/base.ext` with the extension of a photo, of
/// a video or of metadata, where `album` and `base` are names without a slash. The album
/// is `album`. With the extension of a photo or video, the entry is an original where
/// `base` does not hold `edited`, and an edited version where it does; with the
/// extension `json` it is metadata. Its name is the canonical name of `base.ext`, which
/// is `base.ext` itself for an original whose name holds neither `.json` nor
/// `.supplemental-metadata`.
pub proof fn lemma_classification(album: Seq<char>, base: Seq<char>, ext: Seq<char>)
    requires
        is_component(album),
        album != seq!['.', '.'],
        free_of(album, '/'),
        base.len() > 0,
        free_of(base, '/'),
        free_of(ext, '/'),
        free_of(ext, '.'),
        is_media_extension(lowered(ext)) || lowered(ext) == "json"@,
    ensures
        classified(path_of(album, base, ext)) matches Some(f) && {
            let file = base + seq!['.'] + ext;
            &&& f.album == album
            &&& f.name == canonical_name(file)
            &&& lowered(ext) == "json"@ ==> f.filetype is Metadata
            &&& lowered(ext) != "json"@ && occurs(base, "edited"@) ==> f.filetype is Edited
            &&& lowered(ext) != "json"@ && !occurs(base, "edited"@) ==> f.filetype is Original
            &&& !occurs(base, "edited"@) && !occurs(file, ".supplemental-metadata"@) && !occurs(
                file,
                ".json"@,
            ) ==> f.name == file
        },
{
    let file = base + seq!['.'] + ext;
    let path = path_of(album, base, ext);
    lemma_known_extension(ext);
    assert(file.len() >= 5);
    assert(file.last() == ext.last());
    assert(free_of(file, '/'));
    lemma_components_of_pair(album, file);
    lemma_extension_of_joined(base, ext);
    assert(file_name_of(path) == Some(file));
    assert(album_of(path) == Some(album));
    reveal_strlit("edited");
    lemma_occurs_in_base(base, ext, "edited"@);
    if !occurs(base, "edited"@) {
        reveal_strlit("-edited");
        assert(!occurs(file, "-edited"@)) by {
            if occurs(file, "-edited"@) {
                let k = choose|k: int| occurs_at(file, "-edited"@, k);
                assert(file.subrange(k + 1, k + 7) =~= file.subrange(k, k + 7).subrange(1, 7));
                assert("-edited"@.subrange(1, 7) =~= "edited"@);
                assert(occurs_at(file, "edited"@, k + 1));
            }
        }
        lemma_without_absent(file, "-edited"@);
        if !occurs(file, ".supplemental-metadata"@) && !occurs(file, ".json"@) {
            lemma_without_absent(file, ".supplemental-metadata"@);
            lemma_without_absent(file, ".json"@);
            lemma_normalized_changes(file);
        }
    }
}

/// A name of a file in an archive, taken apart.
#[derive(Debug)]
pub struct Filename {
    name: String,
    album: String,
    filetype: FileType,
}

/// Whether the characters of `v` from `from` to `to` are the two dots of a parent
/// directory.
fn is_parent(v: &Vec<char>, from: usize, to: usize) -> (r: bool)
    requires
        from <= to <= v.len(),
    ensures
        r == (v@.subrange(from as int, to as int) == seq!['.', '.']),
{
    if to - from == 2 && v[from] == '.' && v[from + 1] == '.' {
        assert(v@.subrange(from as int, to as int) =~= seq!['.', '.']);
        true
    } else {
        assert(v@.subrange(from as int, to as int).len() == 2 ==> v@.subrange(
            from as int,
            to as int,
        )[0] == v@[from as int] && v@.subrange(from as int, to as int)[1] == v@[from + 1]);
        false
    }
}

/// Where the last two components of `path` stand in it, the last one second.
fn last_two_components(path: &Vec<char>) -> (r: (Option<(usize, usize)>, Option<(usize, usize)>))
    ensures
        r.1 is Some <==> components(path@).len() >= 1,
        r.0 is Some <==> components(path@).len() >= 2,
        r.1 matches Some((a, b)) ==> a <= b <= path.len() && path@.subrange(a as int, b as int)
            == components(path@).last(),
        r.0 matches Some((a, b)) ==> a <= b <= path.len() && path@.subrange(a as int, b as int)
            == components(path@)[components(path@).len() - 2],
{
    let n = path.len();
    let mut prev: Option<(usize, usize)> = None;
    let mut last: Option<(usize, usize)> = None;
    let mut start: usize = 0;
    let mut i: usize = 0;
    let ghost mut done: Seq<Seq<char>> = Seq::empty();
    while i < n
        invariant
            n == path.len(),
            start <= i <= n,
            start == 0 || path@[start - 1] == '/',
            forall|j: int| start <= j < i ==> path@[j] != '/',
            done == if start == 0 {
                Seq::<Seq<char>>::empty()
            } else {
                components(path@.subrange(0, start - 1))
            },
            last is Some <==> done.len() >= 1,
            prev is Some <==> done.len() >= 2,
            last matches Some((a, b)) ==> a <= b <= n && path@.subrange(a as int, b as int)
                == done.last(),
            prev matches Some((a, b)) ==> a <= b <= n && path@.subrange(a as int, b as int)
                == done[done.len() - 2],
        decreases n - i,
    {
        if path[i] == '/' {
            proof {
                let p = path@.subrange(0, i as int);
                lemma_components_step(p, start as int);
                assert(p.subrange(start as int, p.len() as int) == path@.subrange(
                    start as int,
                    i as int,
                ));
                if start > 0 {
                    assert(p.subrange(0, start - 1) == path@.subrange(0, start - 1));
                }
                done = components(p);
            }
            if i > start && !(i - start == 1 && path[start] == '.') {
                assert(path@.subrange(start as int, i as int) != seq!['.']) by {
                    if i - start == 1 {
                        assert(path@.subrange(start as int, i as int)[0] == path@[start as int]);
                    }
                }
                prev = last;
                last = Some((start, i));
            } else {
                assert(!is_component(path@.subrange(start as int, i as int))) by {
                    if i - start == 1 {
                        assert(path@.subrange(start as int, i as int) =~= seq!['.']);
                    }
                }
            }
            start = i + 1;
        }
        i += 1;
    }
    proof {
        lemma_components_step(path@, start as int);
    }
    if n > start && !(n - start == 1 && path[start] == '.') {
        assert(path@.subrange(start as int, n as int) != seq!['.']) by {
            if n - start == 1 {
                assert(path@.subrange(start as int, n as int)[0] == path@[start as int]);
            }
        }
        prev = last;
        last = Some((start, n));
    } else {
        assert(!is_component(path@.subrange(start as int, n as int))) by {
            if n - start == 1 {
                assert(path@.subrange(start as int, n as int) =~= seq!['.']);
            }
        }
    }
    (prev, last)
}

/// The file name that `path` ends in.
fn file_name(path: &Vec<char>) -> (r: Option<Vec<char>>)
    ensures
        r is Some <==> file_name_of(path@) is Some,
        r matches Some(name) ==> name@ == file_name_of(path@)->Some_0,
{
    match last_two_components(path).1 {
        Some((a, b)) => {
            if is_parent(path, a, b) {
                None
            } else {
                Some(slice_of(path, a, b))
            }
        },
        None => None,
    }
}

/// The directory that the file of `path` lies in.
fn album(path: &Vec<char>) -> (r: Option<Vec<char>>)
    ensures
        r is Some <==> album_of(path@) is Some,
        r matches Some(name) ==> name@ == album_of(path@)->Some_0,
{
    match last_two_components(path).0 {
        Some((a, b)) => {
            if is_parent(path, a, b) {
                None
            } else {
                Some(slice_of(path, a, b))
            }
        },
        None => None,
    }
}

/// The extension of a file name.
fn extension(name: &Vec<char>) -> (r: Option<Vec<char>>)
    ensures
        r is Some <==> extension_of_name(name@) is Some,
        r matches Some(e) ==> e@ == extension_of_name(name@)->Some_0,
{
    proof {
        lemma_last_index_of(name@, '.');
    }
    match rfind(name, '.') {
        Some(j) => {
            assert(j < name.len());
            if j > 0 {
                Some(slice_of(name, j + 1, name.len()))
            } else {
                None
            }
        },
        None => None,
    }
}

/// Whether `v` holds the characters of `literal`.
fn is_literal(v: &Vec<char>, literal: &str) -> (r: bool)
    ensures
        r == (v@ == literal@),
{
    same_chars(v, &chars_of(literal))
}

/// What a file with this name and this extension is.
fn kind(name: &Vec<char>, extension: &Vec<char>) -> (r: FileType)
    ensures
        r == kind_of(name@, extension@),
{
    let ext = to_lowered(extension);
    if is_literal(&ext, "json") {
        FileType::Metadata
    } else if is_literal(&ext, "jpg") || is_literal(&ext, "jpeg") || is_literal(&ext, "png")
        || is_literal(&ext, "webp") || is_literal(&ext, "heic") || is_literal(&ext, "mp4")
        || is_literal(&ext, "m4v") || is_literal(&ext, "webm") || is_literal(&ext, "3gp")
        || is_literal(&ext, "gif") {
        if contains(name, &chars_of("edited")) {
            FileType::Edited
        } else {
            FileType::Original
        }
    } else {
        FileType::Unknown
    }
}

/// The characters of `name` with the mark of a duplicate before the extension.
fn normalize(name: &Vec<char>) -> (r: Vec<char>)
    ensures
        r@ == normalized(name@),
{
    let n = name.len();
    proof {
        lemma_last_index_of(name@, '(');
    }
    if n > 0 && name[n - 1] == ')' {
        if let Some(i) = rfind(name, '(') {
            let head = slice_of(name, 0, i);
            proof {
                lemma_last_index_of(head@, '.');
            }
            if let Some(j) = rfind(&head, '.') {
                let mut out = slice_of(&head, 0, j);
                append_chars(&mut out, &slice_of(name, i, n));
                append_chars(&mut out, &slice_of(&head, j, i));
                return out;
            } else {
                return head;
            }
        }
    }
    slice_of(name, 0, n)
}

impl FileType {
    /// What the entry at `path` is, judged by the extension of its file name;
    /// `FileNameError` where the path names no file with an extension.
    pub fn try_from(path: &str) -> (r: Result<FileType, ParseError>)
        ensures
            match extension_of(path@) {
                Some(e) => r == Ok::<FileType, ParseError>(
                    kind_of(file_name_of(path@)->Some_0, e),
                ),
                None => r matches Err(ParseError::FileNameError(m)) && m@
                    == "File does not have an extension"@,
            },
    {
        let path = chars_of(path);
        if let Some(name) = file_name(&path) {
            if let Some(ext) = extension(&name) {
                return Ok(kind(&name, &ext));
            }
        }
        Err(ParseError::FileNameError("File does not have an extension".to_owned()))
    }
}

impl View for Filename {
    type V = FilenameView;

    closed spec fn view(&self) -> FilenameView {
        FilenameView { name: self.name@, album: self.album@, filetype: self.filetype }
    }
}

impl Filename {
    /// The canonical name of the file.
    pub open spec fn name_spec(&self) -> Seq<char> {
        self@.name
    }

    /// The album that the file lies in.
    pub open spec fn album_spec(&self) -> Seq<char> {
        self@.album
    }

    /// What the file is.
    pub open spec fn filetype_spec(&self) -> FileType {
        self@.filetype
    }

    /// The canonical name of the file.
    pub fn name(&self) -> (r: &str)
        ensures
            r@ == self.name_spec(),
    {
        self.name.as_str()
    }

    /// The album that the file lies in.
    pub fn album(&self) -> (r: &str)
        ensures
            r@ == self.album_spec(),
    {
        self.album.as_str()
    }

    /// What the file is.
    pub fn filetype(&self) -> (r: &FileType)
        ensures
            *r == self.filetype_spec(),
    {
        &self.filetype
    }

    /// Moves the mark of a duplicate, `(..)` at the end of `name`, before the extension.
    pub fn normalize_duplicates(name: &mut String)
        ensures
            final(name)@ == normalized(old(name)@),
    {
        let chars = chars_of(name.as_str());
        *name = string_of(&normalize(&chars));
    }

    /// Takes the path of an entry apart: the album is the directory that the file lies
    /// in, the name is the canonical name of the file, the kind goes by the extension.
    /// `FileNameError` where the path names no file with an extension; else
    /// `FilePathError` where the file lies in no directory.
    pub fn try_from(path: &str) -> (r: Result<Filename, ParseError>)
        ensures
            match (extension_of(path@), album_of(path@)) {
                (None, _) => r matches Err(ParseError::FileNameError(m)) && m@
                    == "File does not have an extension"@,
                (Some(_), None) => r matches Err(ParseError::FilePathError(m)) && m@
                    == "Asset path must contain an album name"@,
                (Some(e), Some(a)) => r matches Ok(f) && Some(f@) == classified(path@),
            },
            r is Ok <==> classified(path@) is Some,
    {
        let path = chars_of(path);
        let file = match file_name(&path) {
            Some(file) => file,
            None => {
                return Err(
                    ParseError::FileNameError("File does not have an extension".to_owned()),
                );
            },
        };
        let filetype = match extension(&file) {
            Some(ext) => kind(&file, &ext),
            None => {
                return Err(
                    ParseError::FileNameError("File does not have an extension".to_owned()),
                );
            },
        };
        let album = match album(&path) {
            Some(album) => album,
            None => {
                return Err(
                    ParseError::FilePathError("Asset path must contain an album name".to_owned()),
                );
            },
        };
        let name = remove_all(&file, &chars_of("-edited"));
        let name = remove_all(&name, &chars_of(".supplemental-metadata"));
        let name = remove_all(&name, &chars_of(".json"));
        let name = normalize(&name);
        Ok(Filename { album: string_of(&album), name: string_of(&name), filetype })
    }
}

} // verus!
