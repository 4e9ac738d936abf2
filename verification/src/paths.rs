//! Paths as text, and the store of recently used paths. The store maps a
//! display name to an absolute path and remembers the directory that was
//! used last. No key is empty and every path is absolute.

use vstd::prelude::*;
use crate::text::{copy_range, from_chars, same_chars, to_chars};

verus! {

/// The characters that separate the parts of a path.
pub open spec fn is_separator(c: char) -> bool {
    c == '/' || c == '\\'
}

/// The position of the last character of `s` that is `a` or `b`; `-1` when
/// there is none.
pub open spec fn last_index_of(s: Seq<char>, a: char, b: char) -> int
    decreases s.len(),
{
    if s.len() == 0 {
        -1
    } else if s.last() == a || s.last() == b {
        s.len() - 1
    } else {
        last_index_of(s.drop_last(), a, b)
    }
}

/// The part of a path after its last separator: the whole path when it has
/// none.
pub open spec fn file_name(path: Seq<char>) -> Seq<char> {
    path.skip(last_index_of(path, '/', '\\') + 1)
}

/// The part of a path before its last separator; the separator itself when
/// the path begins with it; none for a path without separator.
pub open spec fn parent(path: Seq<char>) -> Option<Seq<char>> {
    let at = last_index_of(path, '/', '\\');
    if at < 0 {
        None
    } else if at == 0 {
        Some(path.take(1))
    } else {
        Some(path.take(at))
    }
}

/// The part of the file name after its last dot; empty when the name has no
/// dot or only begins with one.
pub open spec fn extension(path: Seq<char>) -> Seq<char> {
    let name = file_name(path);
    let dot = last_index_of(name, '.', '.');
    if dot <= 0 {
        Seq::empty()
    } else {
        name.skip(dot + 1)
    }
}

/// The file name without its extension and the dot before it.
pub open spec fn file_stem(path: Seq<char>) -> Seq<char> {
    let name = file_name(path);
    let dot = last_index_of(name, '.', '.');
    if dot <= 0 {
        name
    } else {
        name.take(dot)
    }
}

/// Whether the extension is `iso`, in upper or lower case.
pub open spec fn is_iso(path: Seq<char>) -> bool {
    let e = extension(path);
    &&& e.len() == 3
    &&& (e[0] == 'i' || e[0] == 'I')
    &&& (e[1] == 's' || e[1] == 'S')
    &&& (e[2] == 'o' || e[2] == 'O')
}

/// Whether a text is `tar`, in upper or lower case.
pub open spec fn is_tar(e: Seq<char>) -> bool {
    &&& e.len() == 3
    &&& (e[0] == 't' || e[0] == 'T')
    &&& (e[1] == 'a' || e[1] == 'A')
    &&& (e[2] == 'r' || e[2] == 'R')
}

/// Whether a text is `gz`, in upper or lower case.
pub open spec fn is_gz(e: Seq<char>) -> bool {
    &&& e.len() == 2
    &&& (e[0] == 'g' || e[0] == 'G')
    &&& (e[1] == 'z' || e[1] == 'Z')
}

/// Whether a path names an archive of images: its extension is `tar`, or
/// it is `gz` and what is left of the file name has the extension `tar`.
/// Upper and lower case are not told apart.
pub open spec fn is_archive(path: Seq<char>) -> bool {
    ||| is_tar(extension(path))
    ||| is_gz(extension(path)) && is_tar(extension(file_stem(path)))
}

/// Whether `c` is a letter that can name a drive.
pub open spec fn is_drive_letter(c: char) -> bool {
    ('a' <= c && c <= 'z') || ('A' <= c && c <= 'Z')
}

/// Whether a path is absolute: it begins with a separator, or with a drive
/// letter, a colon and a separator.
pub open spec fn is_absolute(path: Seq<char>) -> bool {
    ||| path.len() >= 1 && is_separator(path[0])
    ||| path.len() >= 3 && is_drive_letter(path[0]) && path[1] == ':' && is_separator(path[2])
}

/// The name offered for the image made of an ISO file: the stem of the file
/// name, or `custom-image` when that is empty.
pub open spec fn suggested_name(path: Seq<char>) -> Seq<char> {
    if file_stem(path).len() == 0 {
        "custom-image"@
    } else {
        file_stem(path)
    }
}

/// `last_index_of` is the greatest position that holds `a` or `b`.
pub proof fn lemma_last_index_of(s: Seq<char>, a: char, b: char)
    ensures
        -1 <= last_index_of(s, a, b) < s.len(),
        last_index_of(s, a, b) >= 0 ==> s[last_index_of(s, a, b)] == a || s[last_index_of(s, a, b)]
            == b,
        forall|j: int| last_index_of(s, a, b) < j < s.len() ==> s[j] != a && s[j] != b,
    decreases s.len(),
{
    if s.len() == 0 {
    } else if s.last() == a || s.last() == b {
    } else {
        let rest = s.drop_last();
        lemma_last_index_of(rest, a, b);
        assert forall|j: int| last_index_of(s, a, b) < j < s.len() implies s[j] != a && s[j]
            != b by {
            if j < rest.len() {
                assert(s[j] == rest[j]);
            }
        }
        if last_index_of(s, a, b) >= 0 {
            assert(s[last_index_of(s, a, b)] == rest[last_index_of(rest, a, b)]);
        }
    }
}

/// The position of the last `a` or `b` in `v`, counted from one; zero when
/// there is none.
fn last_position(v: &Vec<char>, a: char, b: char) -> (at: usize)
    ensures
        at == last_index_of(v@, a, b) + 1,
        at <= v@.len(),
{
    proof {
        lemma_last_index_of(v@, a, b);
    }
    let mut i: usize = v.len();
    assert(v@.take(i as int) =~= v@);
    while i > 0
        invariant
            i <= v.len(),
            last_index_of(v@, a, b) == last_index_of(v@.take(i as int), a, b),
        decreases i,
    {
        if v[i - 1] == a || v[i - 1] == b {
            return i;
        }
        assert(v@.take(i as int).drop_last() =~= v@.take(i - 1));
        i -= 1;
    }
    0
}

fn file_name_chars(path: &Vec<char>) -> (name: Vec<char>)
    ensures
        name@ == file_name(path@),
{
    let at = last_position(path, '/', '\\');
    copy_range(path, at, path.len())
}

/// The part of a path after its last separator.
pub fn file_name_of(path: &str) -> (name: String)
    ensures
        name@ == file_name(path@),
{
    let chars = to_chars(path);
    let name = file_name_chars(&chars);
    from_chars(&name)
}

/// The part of a path before its last separator.
pub fn parent_of(path: &str) -> (dir: Option<String>)
    ensures
        dir is Some <==> parent(path@) is Some,
        dir is Some ==> dir->Some_0@ == parent(path@)->Some_0,
{
    let chars = to_chars(path);
    let at = last_position(&chars, '/', '\\');
    if at == 0 {
        None
    } else if at == 1 {
        let head = copy_range(&chars, 0, 1);
        Some(from_chars(&head))
    } else {
        let head = copy_range(&chars, 0, at - 1);
        Some(from_chars(&head))
    }
}

/// The extension of a path's file name.
pub fn extension_of(path: &str) -> (ext: String)
    ensures
        ext@ == extension(path@),
{
    let chars = to_chars(path);
    let name = file_name_chars(&chars);
    let dot = last_position(&name, '.', '.');
    if dot <= 1 {
        String::new()
    } else {
        let tail = copy_range(&name, dot, name.len());
        from_chars(&tail)
    }
}

/// The file name of a path without its extension.
pub fn file_stem_of(path: &str) -> (stem: String)
    ensures
        stem@ == file_stem(path@),
{
    let chars = to_chars(path);
    let name = file_name_chars(&chars);
    let dot = last_position(&name, '.', '.');
    if dot <= 1 {
        from_chars(&name)
    } else {
        let head = copy_range(&name, 0, dot - 1);
        from_chars(&head)
    }
}

/// Whether a path names an ISO file.
pub fn has_iso_extension(path: &str) -> (iso: bool)
    ensures
        iso == is_iso(path@),
{
    let ext = extension_of(path);
    let e = to_chars(ext.as_str());
    e.len() == 3 && (e[0] == 'i' || e[0] == 'I') && (e[1] == 's' || e[1] == 'S') && (e[2] == 'o'
        || e[2] == 'O')
}

fn chars_are_tar(e: &Vec<char>) -> (r: bool)
    ensures
        r == is_tar(e@),
{
    e.len() == 3 && (e[0] == 't' || e[0] == 'T') && (e[1] == 'a' || e[1] == 'A') && (e[2] == 'r'
        || e[2] == 'R')
}

/// Whether a path names an archive of images.
pub fn has_archive_extension(path: &str) -> (archive: bool)
    ensures
        archive == is_archive(path@),
{
    let ext = extension_of(path);
    let e = to_chars(ext.as_str());
    if chars_are_tar(&e) {
        return true;
    }
    if e.len() == 2 && (e[0] == 'g' || e[0] == 'G') && (e[1] == 'z' || e[1] == 'Z') {
        let stem = file_stem_of(path);
        let inner = extension_of(stem.as_str());
        let i = to_chars(inner.as_str());
        chars_are_tar(&i)
    } else {
        false
    }
}

/// Whether a path is absolute.
pub fn is_absolute_path(path: &str) -> (r: bool)
    ensures
        r == is_absolute(path@),
{
    let p = to_chars(path);
    if p.len() >= 1 && (p[0] == '/' || p[0] == '\\') {
        return true;
    }
    p.len() >= 3 && (('a' <= p[0] && p[0] <= 'z') || ('A' <= p[0] && p[0] <= 'Z')) && p[1] == ':'
        && (p[2] == '/' || p[2] == '\\')
}

/// The name offered for the image made of an ISO file.
pub fn suggested_image_name(path: &str) -> (name: String)
    ensures
        name@ == suggested_name(path@),
{
    let stem = file_stem_of(path);
    if stem.as_str().is_empty() {
        "custom-image".to_owned()
    } else {
        stem
    }
}

/// What a store holds after a file was picked: the directory of the file
/// is the directory used last, and the path stands under the file name. A
/// path without a directory leaves the directory as it was; a path that may
/// not be stored leaves the mapping as it was.
pub open spec fn remembered(store: PathStorageView, path: Seq<char>) -> PathStorageView {
    PathStorageView {
        recent_paths: if file_name(path).len() > 0 && is_absolute(path) {
            store.recent_paths.insert(file_name(path), path)
        } else {
            store.recent_paths
        },
        last_directory: match parent(path) {
            Some(dir) => Some(dir),
            None => store.last_directory,
        },
    }
}

/// One entry of the store: a display name and the path it stands for.
#[derive(Clone, Debug, PartialEq, Eq)]
pub struct RecentPath {
    pub name: String,
    pub path: String,
}

/// What a `RecentPath` holds, as mathematical text.
pub struct RecentPathView {
    pub name: Seq<char>,
    pub path: Seq<char>,
}

impl View for RecentPath {
    type V = RecentPathView;

    open spec fn view(&self) -> RecentPathView {
        RecentPathView { name: self.name@, path: self.path@ }
    }
}

/// The views of the entries in a sequence.
pub open spec fn entry_views(s: Seq<RecentPath>) -> Seq<RecentPathView> {
    s.map_values(|e: RecentPath| e@)
}

/// Whether an entry may be stored: its name is not empty and its path is
/// absolute.
pub open spec fn storable(e: RecentPathView) -> bool {
    e.name.len() > 0 && is_absolute(e.path)
}

/// The mapping that a run of entries stands for. Where a name occurs twice,
/// the later entry wins.
pub open spec fn mapping_of(entries: Seq<RecentPathView>) -> Map<Seq<char>, Seq<char>>
    decreases entries.len(),
{
    if entries.len() == 0 {
        Map::empty()
    } else {
        mapping_of(entries.drop_last()).insert(entries.last().name, entries.last().path)
    }
}

/// Whether every entry of a run may be stored.
pub open spec fn all_storable(entries: Seq<RecentPathView>) -> bool {
    forall|i: int| 0 <= i < entries.len() ==> storable(#[trigger] entries[i])
}

/// Whether no name occurs twice in a run of entries.
pub open spec fn distinct_names(entries: Seq<RecentPathView>) -> bool {
    forall|i: int, j: int|
        0 <= i < j < entries.len() ==> (#[trigger] entries[i]).name != (#[trigger] entries[j]).name
}

/// Whether a mapping obeys the rules of the store.
pub open spec fn valid_mapping(m: Map<Seq<char>, Seq<char>>) -> bool {
    forall|k: Seq<char>| #[trigger] m.contains_key(k) ==> k.len() > 0 && is_absolute(m[k])
}

/// The keys of the mapping are the names of the entries, and a run of
/// storable entries stands for a valid mapping.
pub proof fn lemma_mapping_of(entries: Seq<RecentPathView>)
    ensures
        forall|k: Seq<char>| #[trigger]
            mapping_of(entries).contains_key(k) <==> exists|i: int|
                0 <= i < entries.len() && (#[trigger] entries[i]).name == k,
        all_storable(entries) ==> valid_mapping(mapping_of(entries)),
        mapping_of(entries).dom().finite(),
    decreases entries.len(),
{
    if entries.len() > 0 {
        let rest = entries.drop_last();
        lemma_mapping_of(rest);
        assert forall|k: Seq<char>| #[trigger]
            mapping_of(entries).contains_key(k) <==> exists|i: int|
                0 <= i < entries.len() && (#[trigger] entries[i]).name == k by {
            if mapping_of(entries).contains_key(k) {
                if k == entries.last().name {
                    assert(entries[entries.len() - 1].name == k);
                } else {
                    assert(mapping_of(rest).contains_key(k));
                    let i = choose|i: int| 0 <= i < rest.len() && (#[trigger] rest[i]).name == k;
                    assert(entries[i].name == k);
                }
            }
            if exists|i: int| 0 <= i < entries.len() && (#[trigger] entries[i]).name == k {
                let i = choose|i: int| 0 <= i < entries.len() && (#[trigger] entries[i]).name == k;
                if i < rest.len() {
                    assert(rest[i].name == k);
                }
            }
        }
        if all_storable(entries) {
            assert forall|i: int| 0 <= i < rest.len() implies storable(#[trigger] rest[i]) by {
                assert(rest[i] == entries[i]);
            }
            assert(storable(entries[entries.len() - 1]));
        }
    }
}

/// In a run without repeated names, each entry is what the mapping holds
/// under its name.
pub proof fn lemma_mapping_holds_entries(entries: Seq<RecentPathView>)
    requires
        distinct_names(entries),
    ensures
        forall|i: int|
            0 <= i < entries.len() ==> mapping_of(entries).contains_key(
                (#[trigger] entries[i]).name,
            ) && mapping_of(entries)[entries[i].name] == entries[i].path,
    decreases entries.len(),
{
    if entries.len() > 0 {
        let rest = entries.drop_last();
        assert forall|i: int, j: int| 0 <= i < j < rest.len() implies (#[trigger] rest[i]).name != (
        #[trigger] rest[j]).name by {
            assert(rest[i] == entries[i] && rest[j] == entries[j]);
        }
        lemma_mapping_holds_entries(rest);
        assert forall|i: int| 0 <= i < entries.len() implies mapping_of(entries).contains_key(
            (#[trigger] entries[i]).name,
        ) && mapping_of(entries)[entries[i].name] == entries[i].path by {
            if i < rest.len() {
                assert(rest[i] == entries[i]);
                assert(entries[i].name != entries[entries.len() - 1].name);
            }
        }
    }
}

/// The recently used paths by display name, and the directory used last.
pub struct PathStorage {
    entries: Vec<RecentPath>,
    last_directory: Option<String>,
}

/// What a `PathStorage` holds: a mapping from display names to paths, and
/// the directory used last.
pub struct PathStorageView {
    pub recent_paths: Map<Seq<char>, Seq<char>>,
    pub last_directory: Option<Seq<char>>,
}

/// The view of an optional text.
pub open spec fn optional_text(t: Option<String>) -> Option<Seq<char>> {
    match t {
        Some(s) => Some(s@),
        None => None,
    }
}

impl View for PathStorage {
    type V = PathStorageView;

    closed spec fn view(&self) -> PathStorageView {
        PathStorageView {
            recent_paths: mapping_of(entry_views(self.entries@)),
            last_directory: optional_text(self.last_directory),
        }
    }
}

impl PathStorage {
    #[verifier::type_invariant]
    spec fn well_formed(self) -> bool {
        all_storable(entry_views(self.entries@)) && distinct_names(entry_views(self.entries@))
    }

    /// The entries in the order in which their names were first stored.
    pub closed spec fn listed(&self) -> Seq<RecentPathView> {
        entry_views(self.entries@)
    }

    /// A store without entries and without a directory.
    pub fn new() -> (store: PathStorage)
        ensures
            store@.recent_paths == Map::<Seq<char>, Seq<char>>::empty(),
            store@.last_directory is None,
            store.listed() == Seq::<RecentPathView>::empty(),
    {
        let store = PathStorage { entries: Vec::new(), last_directory: None };
        assert(entry_views(store.entries@) =~= Seq::<RecentPathView>::empty());
        store
    }

    /// States what holds of every store: its mapping has no empty key and
    /// only absolute paths, and its entries are the mapping, each name once.
    pub fn check(&self)
        ensures
            valid_mapping(self@.recent_paths),
            self@.recent_paths == mapping_of(self.listed()),
            all_storable(self.listed()),
            distinct_names(self.listed()),
    {
        proof {
            use_type_invariant(self);
            lemma_mapping_of(entry_views(self.entries@));
        }
    }

    fn position(&self, name: &Vec<char>) -> (at: usize)
        ensures
            at <= self.entries@.len(),
            at < self.entries@.len() ==> self.entries@[at as int].name@ == name@,
            forall|i: int| 0 <= i < at ==> self.entries@[i].name@ != name@,
    {
        let mut i: usize = 0;
        while i < self.entries.len()
            invariant
                i <= self.entries.len(),
                forall|j: int| 0 <= j < i ==> self.entries@[j].name@ != name@,
            decreases self.entries.len() - i,
        {
            let key = to_chars(self.entries[i].name.as_str());
            if same_chars(&key, name) {
                return i;
            }
            i += 1;
        }
        i
    }

    /// The path stored under a name.
    pub fn get(&self, name: &str) -> (path: Option<String>)
        ensures
            path is Some <==> self@.recent_paths.contains_key(name@),
            path is Some ==> path->Some_0@ == self@.recent_paths[name@],
    {
        let key = to_chars(name);
        let at = self.position(&key);
        proof {
            use_type_invariant(self);
            lemma_mapping_of(entry_views(self.entries@));
            lemma_mapping_holds_entries(entry_views(self.entries@));
            if at < self.entries@.len() {
                assert(entry_views(self.entries@)[at as int].name == name@);
            } else {
                assert forall|i: int| 0 <= i < self.entries@.len() implies (#[trigger] entry_views(
                    self.entries@,
                )[i]).name != name@ by {}
            }
        }
        if at < self.entries.len() {
            Some(self.entries[at].path.clone())
        } else {
            None
        }
    }

    /// Stores a path under a name; a path stored under that name before is
    /// replaced. An empty name or a path that is not absolute is refused,
    /// and the store stays as it was.
    pub fn insert(&mut self, name: &str, path: &str) -> (stored: bool)
        ensures
            stored == (name@.len() > 0 && is_absolute(path@)),
            stored ==> final(self)@.recent_paths == old(self)@.recent_paths.insert(name@, path@),
            !stored ==> final(self)@.recent_paths == old(self)@.recent_paths,
            final(self)@.last_directory == old(self)@.last_directory,
    {
        proof {
            use_type_invariant(&*self);
        }
        if name.is_empty() || !is_absolute_path(path) {
            return false;
        }
        let key = to_chars(name);
        let at = self.position(&key);
        let ghost before = entry_views(self.entries@);
        let entry = RecentPath { name: name.to_owned(), path: path.to_owned() };
        let mut entries: Vec<RecentPath> = Vec::new();
        std::mem::swap(&mut self.entries, &mut entries);
        if at < entries.len() {
            entries[at] = entry;
            proof {
                let after = entry_views(entries@);
                assert(after =~= before.update(at as int, entry@));
                lemma_update_mapping(before, at as int, entry@);
                assert forall|i: int| 0 <= i < after.len() implies storable(
                    #[trigger] after[i],
                ) by {
                    if i != at {
                        assert(after[i] == before[i]);
                    }
                }
                assert forall|i: int, j: int| 0 <= i < j < after.len() implies (
                #[trigger] after[i]).name != (#[trigger] after[j]).name by {
                    assert(after[i].name == before[i].name);
                    assert(after[j].name == before[j].name);
                }
            }
        } else {
            entries.push(entry);
            proof {
                let after = entry_views(entries@);
                assert(after =~= before.push(entry@));
                assert(after.drop_last() =~= before);
                assert forall|i: int| 0 <= i < after.len() implies storable(
                    #[trigger] after[i],
                ) by {
                    if i < before.len() {
                        assert(after[i] == before[i]);
                    }
                }
                assert forall|i: int, j: int| 0 <= i < j < after.len() implies (
                #[trigger] after[i]).name != (#[trigger] after[j]).name by {
                    assert(after[i] == before[i]);
                    if j < before.len() {
                        assert(after[j] == before[j]);
                    }
                }
            }
        }
        std::mem::swap(&mut self.entries, &mut entries);
        true
    }

    /// The directory used last.
    pub fn last_directory(&self) -> (dir: Option<String>)
        ensures
            optional_text(dir) == self@.last_directory,
    {
        match &self.last_directory {
            Some(d) => Some(d.clone()),
            None => None,
        }
    }

    /// Remembers the directory used last.
    pub fn set_last_directory(&mut self, dir: Option<String>)
        ensures
            final(self)@.last_directory == optional_text(dir),
            final(self)@.recent_paths == old(self)@.recent_paths,
            final(self).listed() == old(self).listed(),
    {
        proof {
            use_type_invariant(&*self);
        }
        self.last_directory = dir;
    }

    /// Remembers a file that was picked, and says whether its path was
    /// stored.
    pub fn remember(&mut self, path: &str) -> (stored: bool)
        ensures
            stored == (file_name(path@).len() > 0 && is_absolute(path@)),
            final(self)@ == remembered(old(self)@, path@),
    {
        match parent_of(path) {
            Some(dir) => {
                self.set_last_directory(Some(dir));
            },
            None => {},
        }
        let name = file_name_of(path);
        self.insert(name.as_str(), path)
    }

    /// Copies of the entries, each name once.
    pub fn entries(&self) -> (out: Vec<RecentPath>)
        ensures
            entry_views(out@) == self.listed(),
            mapping_of(entry_views(out@)) == self@.recent_paths,
    {
        let mut out: Vec<RecentPath> = Vec::new();
        let mut i: usize = 0;
        while i < self.entries.len()
            invariant
                i <= self.entries.len(),
                entry_views(out@) == entry_views(self.entries@.take(i as int)),
            decreases self.entries.len() - i,
        {
            let e = RecentPath {
                name: self.entries[i].name.clone(),
                path: self.entries[i].path.clone(),
            };
            proof {
                let all = self.entries@;
                assert(all.take(i + 1) =~= all.take(i as int).push(all[i as int]));
                assert(entry_views(out@.push(e)) =~= entry_views(out@).push(e@));
                assert(entry_views(all.take(i as int).push(all[i as int])) =~= entry_views(
                    all.take(i as int),
                ).push(all[i as int]@));
            }
            out.push(e);
            i += 1;
        }
        proof {
            assert(self.entries@.take(self.entries.len() as int) =~= self.entries@);
        }
        out
    }

    /// A store of its own that holds the same: what comes of saving this
    /// store as entries and directory and loading them again.
    pub fn duplicate(&self) -> (copy: PathStorage)
        ensures
            copy@ == self@,
    {
        self.check();
        let entries = self.entries();
        let dir = self.last_directory();
        let copy = PathStorage::load(Some((entries, dir)));
        proof {
            lemma_saved_store_loads_back(self@, self.listed());
        }
        copy
    }

    /// The store that persisted data stands for. Data that could not be read
    /// or decoded (`None`), and data with an entry that may not be stored,
    /// give the empty store; otherwise the store holds the directory and the
    /// mapping of the entries, later entries winning over earlier ones of
    /// the same name.
    pub fn load(decoded: Option<(Vec<RecentPath>, Option<String>)>) -> (store: PathStorage)
        ensures
            store@ == loaded(decoded_view(decoded)),
    {
        let mut store = PathStorage::new();
        match decoded {
            Some((entries, dir)) => {
                let mut i: usize = 0;
                assert(entry_views(entries@).take(0) =~= Seq::<RecentPathView>::empty());
                while i < entries.len()
                    invariant
                        i <= entries.len(),
                        decoded == Some((entries, dir)),
                        all_storable(entry_views(entries@).take(i as int)),
                        store@.recent_paths == mapping_of(entry_views(entries@).take(i as int)),
                        store@.last_directory is None,
                    decreases entries.len() - i,
                {
                    let stored = store.insert(entries[i].name.as_str(), entries[i].path.as_str());
                    proof {
                        let all = entry_views(entries@);
                        assert(all.take(i + 1).drop_last() =~= all.take(i as int));
                        assert(all.take(i + 1).last() == entries@[i as int]@);
                    }
                    if !stored {
                        proof {
                            let all = entry_views(entries@);
                            assert(!storable(all[i as int]));
                        }
                        let empty = PathStorage::new();
                        assert(!all_storable(entry_views(entries@)));
                        return empty;
                    }
                    proof {
                        let all = entry_views(entries@);
                        assert forall|k: int| 0 <= k < all.take(i + 1).len() implies storable(
                            #[trigger] all.take(i + 1)[k],
                        ) by {
                            if k < i {
                                assert(all.take(i + 1)[k] == all.take(i as int)[k]);
                            }
                        }
                    }
                    i += 1;
                }
                proof {
                    assert(entry_views(entries@).take(entries.len() as int) =~= entry_views(
                        entries@,
                    ));
                }
                store.set_last_directory(dir);
                assert(store@ =~= loaded(decoded_view(decoded)));
                store
            },
            None => {
                assert(store@ =~= loaded(decoded_view(decoded)));
                store
            },
        }
    }
}

/// The view of what was decoded from persisted data.
pub open spec fn decoded_view(decoded: Option<(Vec<RecentPath>, Option<String>)>) -> Option<
    (Seq<RecentPathView>, Option<Seq<char>>),
> {
    match decoded {
        Some((entries, dir)) => Some((entry_views(entries@), optional_text(dir))),
        None => None,
    }
}

/// What persisted data stands for: nothing, when it could not be decoded or
/// holds an entry that may not be stored; else the mapping of its entries
/// and its directory.
pub open spec fn loaded(decoded: Option<(Seq<RecentPathView>, Option<Seq<char>>)>) -> PathStorageView {
    match decoded {
        Some((entries, dir)) => if all_storable(entries) {
            PathStorageView { recent_paths: mapping_of(entries), last_directory: dir }
        } else {
            PathStorageView { recent_paths: Map::empty(), last_directory: None }
        },
        None => PathStorageView { recent_paths: Map::empty(), last_directory: None },
    }
}

/// Replacing the entry of a name, in a run without repeated names, stores
/// the new path under that name.
pub proof fn lemma_update_mapping(entries: Seq<RecentPathView>, at: int, e: RecentPathView)
    requires
        0 <= at < entries.len(),
        entries[at].name == e.name,
        distinct_names(entries),
    ensures
        mapping_of(entries.update(at, e)) == mapping_of(entries).insert(e.name, e.path),
    decreases entries.len(),
{
    let rest = entries.drop_last();
    let updated = entries.update(at, e);
    assert forall|i: int, j: int| 0 <= i < j < rest.len() implies (#[trigger] rest[i]).name != (
    #[trigger] rest[j]).name by {
        assert(rest[i] == entries[i] && rest[j] == entries[j]);
    }
    if at == entries.len() - 1 {
        assert(updated.drop_last() =~= rest);
        assert(mapping_of(rest).insert(entries.last().name, entries.last().path).insert(
            e.name,
            e.path,
        ) =~= mapping_of(rest).insert(e.name, e.path));
    } else {
        lemma_update_mapping(rest, at, e);
        assert(updated.drop_last() =~= rest.update(at, e));
        assert(updated.last() == entries.last());
        assert(entries[at].name != entries[entries.len() - 1].name);
        assert(mapping_of(rest).insert(e.name, e.path).insert(
            entries.last().name,
            entries.last().path,
        ) =~= mapping_of(rest).insert(entries.last().name, entries.last().path).insert(
            e.name,
            e.path,
        ));
    }
}

/// Saving a store and loading what was saved gives the store back: what
/// the entries of a store and its directory load to is the mapping and the
/// directory of that store, and the mapping obeys the rules of the store.
pub proof fn lemma_saved_store_loads_back(store: PathStorageView, listed: Seq<RecentPathView>)
    requires
        all_storable(listed),
        store.recent_paths == mapping_of(listed),
    ensures
        loaded(Some((listed, store.last_directory))) == store,
        valid_mapping(store.recent_paths),
{
    lemma_mapping_of(listed);
}

} // verus!
