use vstd::prelude::*;

verus! {

/// The name of the program that opens a file or a folder with the
/// desktop's default application: `open` on macOS, `xdg-open` elsewhere.
pub open spec fn open_command(is_macos: bool) -> Seq<char> {
    if is_macos {
        "open"@
    } else {
        "xdg-open"@
    }
}

/// Returns the command that opens a file or folder with its default
/// application on the target system.
pub fn get_open_command(is_macos: bool) -> (cmd: &'static str)
    ensures
        cmd@ == open_command(is_macos),
{
    if is_macos {
        "open"
    } else {
        "xdg-open"
    }
}

/// What a directory listing says of one entry, following symbolic links.
#[derive(Clone, Copy, Debug, PartialEq, Eq, Structural)]
pub enum EntryKind {
    /// The entry is (or links to) a directory.
    Directory,
    /// The entry is (or links to) a regular file.
    File,
    /// Anything else, a dangling link for instance.
    Other,
}

/// One entry of a directory listing: its file name and its kind.
pub struct DirEntryInfo {
    pub name: String,
    pub kind: EntryKind,
}

/// What a walk for video files does with one entry of a listing.
#[derive(Clone, Copy, Debug, PartialEq, Eq, Structural)]
pub enum EntryAction {
    /// Walk into the directory.
    Descend,
    /// The entry is a video file: collect it.
    Keep,
    /// Ignore the entry.
    Skip,
}

/// Position of the last `'.'` in `name`, or `-1` where there is none.
pub open spec fn last_dot(name: Seq<char>) -> int
    decreases name.len(),
{
    if name.len() == 0 {
        -1
    } else if name.last() == '.' {
        name.len() - 1
    } else {
        last_dot(name.drop_last())
    }
}

/// The extension of a file name: what follows its last `'.'`, where that
/// dot is not the first character; none for `".."`.
pub open spec fn file_extension(name: Seq<char>) -> Option<Seq<char>> {
    if name == ".."@ || last_dot(name) <= 0 {
        None
    } else {
        Some(name.skip(last_dot(name) + 1))
    }
}

/// The extensions of the video files that the launcher plays.
pub open spec fn is_video_extension(ext: Seq<char>) -> bool {
    ||| ext == "mp4"@
    ||| ext == "mkv"@
    ||| ext == "avi"@
    ||| ext == "webm"@
}

/// A file name that names a video file.
pub open spec fn is_video_file_name(name: Seq<char>) -> bool {
    match file_extension(name) {
        Some(ext) => is_video_extension(ext),
        None => false,
    }
}

/// What a walk for video files does with an entry of the given name and kind.
pub open spec fn video_walk_action(name: Seq<char>, kind: EntryKind) -> EntryAction {
    match kind {
        EntryKind::Directory => EntryAction::Descend,
        EntryKind::File => if is_video_file_name(name) {
            EntryAction::Keep
        } else {
            EntryAction::Skip
        },
        EntryKind::Other => EntryAction::Skip,
    }
}

/// Positions, in increasing order, of the directories among the first `n`
/// entries of a listing.
pub open spec fn directory_positions(entries: Seq<DirEntryInfo>, n: int) -> Seq<usize>
    decreases n,
{
    if n <= 0 {
        Seq::empty()
    } else if entries[n - 1].kind is Directory {
        directory_positions(entries, n - 1).push((n - 1) as usize)
    } else {
        directory_positions(entries, n - 1)
    }
}

/// Calls `String::push`. Claimed, as std documents it: the string's text
/// gains `c` at its end and is otherwise unchanged.
#[verifier::external_body]
pub(crate) fn push_char(s: &mut String, c: char)
    ensures
        final(s)@ == old(s)@.push(c),
{
    s.push(c)
}

/// The characters of a string, in order.
fn chars_of(s: &str) -> (v: Vec<char>)
    ensures
        v@ == s@,
{
    let mut v: Vec<char> = Vec::new();
    for c in it: s.chars()
        invariant
            v@ == it.seq().take(it.index()),
    {
        v.push(c);
    }
    v
}

/// Position of the last `'.'` in `v`, if there is one.
fn find_last_dot(v: &Vec<char>) -> (r: Option<usize>)
    ensures
        match r {
            Some(i) => i < v.len() && last_dot(v@) == i as int,
            None => last_dot(v@) == -1,
        },
{
    let mut i: usize = v.len();
    assert(v@.take(i as int) =~= v@);
    while i > 0
        invariant
            i <= v.len(),
            last_dot(v@) == last_dot(v@.take(i as int)),
        decreases i,
    {
        assert(v@.take(i as int).drop_last() =~= v@.take(i - 1));
        if v[i - 1] == '.' {
            return Some(i - 1);
        }
        i = i - 1;
    }
    None
}

/// The extension of a file name (see [`file_extension`]).
pub fn extension_of(name: &str) -> (ext: Option<String>)
    ensures
        match ext {
            Some(e) => file_extension(name@) == Some(e@),
            None => file_extension(name@) is None,
        },
        ext matches Some(e) ==> name@ != ".."@ && (exists|k: int|
            #![trigger name@[k]]
            0 < k < name@.len() && name@[k] == '.' && name@.skip(k + 1) == e@) && (forall|j: int|
            0 <= j < e@.len() ==> e@[j] != '.'),
        ext is None ==> name@ == ".."@ || (forall|k: int|
            0 < k < name@.len() ==> name@[k] != '.'),
{
    proof {
        lemma_extension_is_after_last_dot(name@);
    }
    let v = chars_of(name);
    proof {
        reveal_strlit("..");
    }
    if v.len() == 2 && v[0] == '.' && v[1] == '.' {
        assert(name@ =~= ".."@);
        return None;
    }
    assert(name@ != ".."@);
    match find_last_dot(&v) {
        None => None,
        Some(d) => {
            if d == 0 {
                None
            } else {
                let mut s = String::new();
                let mut j: usize = d + 1;
                while j < v.len()
                    invariant
                        d < j <= v.len(),
                        s@ == v@.subrange(d + 1, j as int),
                    decreases v.len() - j,
                {
                    push_char(&mut s, v[j]);
                    assert(s@ =~= v@.subrange(d + 1, j + 1));
                    j = j + 1;
                }
                assert(s@ =~= name@.skip(d + 1));
                Some(s)
            }
        },
    }
}

/// Whether a file name names a video file: its extension is one of
/// `mp4`, `mkv`, `avi` or `webm` (letter case counts).
pub fn is_video_file(name: &str) -> (b: bool)
    ensures
        b == is_video_file_name(name@),
        b <==> (file_extension(name@) == Some("mp4"@) || file_extension(name@) == Some("mkv"@)
            || file_extension(name@) == Some("avi"@) || file_extension(name@) == Some("webm"@)),
{
    proof {
        lemma_video_names(name@);
    }
    match extension_of(name) {
        Some(ext) => {
            ext == "mp4".to_owned() || ext == "mkv".to_owned() || ext == "avi".to_owned()
                || ext == "webm".to_owned()
        },
        None => false,
    }
}

/// Decides what a walk for video files does with one directory entry:
/// directories are walked into, regular files named like videos are kept,
/// everything else is skipped.
pub fn entry_action(entry: &DirEntryInfo) -> (action: EntryAction)
    ensures
        action == video_walk_action(entry.name@, entry.kind),
        action == EntryAction::Descend <==> entry.kind == EntryKind::Directory,
        action == EntryAction::Keep <==> (entry.kind == EntryKind::File && (file_extension(
            entry.name@,
        ) == Some("mp4"@) || file_extension(entry.name@) == Some("mkv"@) || file_extension(
            entry.name@,
        ) == Some("avi"@) || file_extension(entry.name@) == Some("webm"@))),
{
    proof {
        lemma_walk_actions(entry.name@, entry.kind);
    }
    match entry.kind {
        EntryKind::Directory => EntryAction::Descend,
        EntryKind::File => if is_video_file(entry.name.as_str()) {
            EntryAction::Keep
        } else {
            EntryAction::Skip
        },
        EntryKind::Other => EntryAction::Skip,
    }
}

/// Positions of the subdirectories in a directory listing, in listing order.
pub fn subdirectory_positions(entries: &Vec<DirEntryInfo>) -> (pos: Vec<usize>)
    ensures
        pos@ == directory_positions(entries@, entries@.len() as int),
        forall|i: int|
            0 <= i < entries@.len() ==> (entries@[i].kind is Directory <==> pos@.contains(
                i as usize,
            )),
        forall|k: int| 0 <= k < pos@.len() ==> #[trigger] pos@[k] < entries@.len(),
        forall|a: int, b: int| 0 <= a < b < pos@.len() ==> pos@[a] < pos@[b],
{
    let mut pos: Vec<usize> = Vec::new();
    let mut i: usize = 0;
    while i < entries.len()
        invariant
            i <= entries.len(),
            pos@ == directory_positions(entries@, i as int),
        decreases entries.len() - i,
    {
        match entries[i].kind {
            EntryKind::Directory => {
                pos.push(i);
            },
            _ => {},
        }
        i = i + 1;
    }
    proof {
        lemma_directory_positions(entries@, entries@.len() as int);
    }
    pos
}

/// The last dot: it is a dot, and no dot follows it.
pub proof fn lemma_last_dot(name: Seq<char>)
    ensures
        -1 <= last_dot(name) < name.len(),
        last_dot(name) >= 0 ==> name[last_dot(name)] == '.',
        forall|k: int| last_dot(name) < k < name.len() ==> name[k] != '.',
    decreases name.len(),
{
    if name.len() > 0 {
        lemma_last_dot(name.drop_last());
        if name.last() != '.' {
            assert forall|k: int| last_dot(name) < k < name.len() implies name[k] != '.' by {
                if k < name.len() - 1 {
                    assert(name[k] == name.drop_last()[k]);
                }
            }
        }
    }
}

/// A file name's extension is what follows a dot that is not its first
/// character, and holds no dot itself; a name has no extension exactly
/// when it is `..` or has no dot past its first character.
pub proof fn lemma_extension_is_after_last_dot(name: Seq<char>)
    ensures
        file_extension(name) matches Some(e) ==> name != ".."@ && (exists|k: int|
            #![trigger name[k]]
            0 < k < name.len() && name[k] == '.' && name.skip(k + 1) == e) && (forall|j: int|
            0 <= j < e.len() ==> e[j] != '.'),
        file_extension(name) is None ==> name == ".."@ || (forall|k: int|
            0 < k < name.len() ==> name[k] != '.'),
{
    lemma_last_dot(name);
    let d = last_dot(name);
    if let Some(e) = file_extension(name) {
        assert(name[d] == '.');
        assert forall|j: int| 0 <= j < e.len() implies e[j] != '.' by {
            assert(e[j] == name[d + 1 + j]);
        }
    }
}

/// A file name names a video exactly when its extension is `mp4`, `mkv`,
/// `avi` or `webm`.
pub proof fn lemma_video_names(name: Seq<char>)
    ensures
        is_video_file_name(name) <==> (file_extension(name) == Some("mp4"@) || file_extension(
            name,
        ) == Some("mkv"@) || file_extension(name) == Some("avi"@) || file_extension(name)
            == Some("webm"@)),
{
}

/// A walk for video files walks into directories and nothing else, and
/// keeps exactly the regular files whose extension is `mp4`, `mkv`, `avi`
/// or `webm`.
pub proof fn lemma_walk_actions(name: Seq<char>, kind: EntryKind)
    ensures
        video_walk_action(name, kind) == EntryAction::Descend <==> kind == EntryKind::Directory,
        video_walk_action(name, kind) == EntryAction::Keep <==> (kind == EntryKind::File && (
        file_extension(name) == Some("mp4"@) || file_extension(name) == Some("mkv"@)
            || file_extension(name) == Some("avi"@) || file_extension(name) == Some("webm"@))),
{
    lemma_video_names(name);
}

/// The directory positions among the first `n` entries are exactly the
/// positions below `n` whose entry is a directory, in increasing order.
pub proof fn lemma_directory_positions(entries: Seq<DirEntryInfo>, n: int)
    requires
        0 <= n <= entries.len(),
        entries.len() <= usize::MAX,
    ensures
        forall|i: int|
            0 <= i < n ==> (entries[i].kind is Directory <==> directory_positions(
                entries,
                n,
            ).contains(i as usize)),
        forall|k: int|
            0 <= k < directory_positions(entries, n).len() ==> #[trigger] directory_positions(
                entries,
                n,
            )[k] < n,
        forall|a: int, b: int|
            0 <= a < b < directory_positions(entries, n).len() ==> directory_positions(
                entries,
                n,
            )[a] < directory_positions(entries, n)[b],
    decreases n,
{
    if n > 0 {
        lemma_directory_positions(entries, n - 1);
        let prev = directory_positions(entries, n - 1);
        let cur = directory_positions(entries, n);
        if entries[n - 1].kind is Directory {
            assert(cur == prev.push((n - 1) as usize));
            assert forall|i: int| 0 <= i < n implies (entries[i].kind is Directory
                <==> cur.contains(i as usize)) by {
                if i < n - 1 {
                    if prev.contains(i as usize) {
                        let k = choose|k: int| 0 <= k < prev.len() && prev[k] == i as usize;
                        assert(cur[k] == prev[k]);
                    }
                    if cur.contains(i as usize) {
                        let k = choose|k: int| 0 <= k < cur.len() && cur[k] == i as usize;
                        if k < prev.len() {
                            assert(prev[k] == cur[k]);
                            assert(prev.contains(i as usize));
                        } else {
                            assert(cur[k] == (n - 1) as usize);
                        }
                    }
                } else {
                    assert(cur[cur.len() - 1] == i as usize);
                }
            }
            assert forall|a: int, b: int| 0 <= a < b < cur.len() implies cur[a] < cur[b] by {
                if b < prev.len() {
                    assert(cur[a] == prev[a] && cur[b] == prev[b]);
                } else {
                    assert(cur[a] == prev[a]);
                    assert(prev[a] < n - 1);
                }
            }
            assert forall|k: int| 0 <= k < cur.len() implies #[trigger] cur[k] < n by {
                if k < prev.len() {
                    assert(cur[k] == prev[k]);
                }
            }
        } else {
            assert(cur == prev);
            assert forall|i: int| 0 <= i < n implies (entries[i].kind is Directory
                <==> cur.contains(i as usize)) by {
                if i == n - 1 {
                    if cur.contains(i as usize) {
                        let k = choose|k: int| 0 <= k < cur.len() && cur[k] == i as usize;
                        assert(prev[k] < n - 1);
                    }
                }
            }
        }
    }
}

} // verus!
