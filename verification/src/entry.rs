//! Snapshot entries and the canonical entry order.
//!
//! A snapshot is an ordered list of entries, one per filesystem node.  A
//! file entry carries its content, base64-encoded so that it embeds safely
//! in the line-oriented snapshot document; a directory entry carries none.
//! The canonical order puts every directory entry before every file entry
//! while keeping the relative order within each kind.

use vstd::prelude::*;

verus! {

/// The kind of one captured filesystem node.
#[derive(Clone, Copy, Debug, PartialEq, Eq, Structural)]
pub enum StreamEntryType {
    File,
    Directory,
}

/// One filesystem node captured by a snapshot: its kind, its path relative
/// to the snapshot root, and, for a file, its base64-encoded content.
#[derive(Clone, Debug, PartialEq, Eq)]
pub struct StreamEntry {
    pub entry_type: StreamEntryType,
    pub relative_path: Vec<u8>,
    pub content: Option<Vec<u8>>,
}

/// The mathematical value of a [`StreamEntry`].
pub struct EntryModel {
    pub entry_type: StreamEntryType,
    pub relative_path: Seq<u8>,
    pub content: Option<Seq<u8>>,
}

impl View for StreamEntry {
    type V = EntryModel;

    open spec fn view(&self) -> EntryModel {
        EntryModel {
            entry_type: self.entry_type,
            relative_path: self.relative_path@,
            content: match self.content {
                Some(c) => Some(c@),
                None => None,
            },
        }
    }
}

/// An ordered list of entries: the complete capture of a directory tree.
#[derive(Clone, Debug, PartialEq, Eq)]
pub struct StreamEntriesSet {
    pub entries: Vec<StreamEntry>,
}

/// The sequence of entry models of a sequence of entries.
pub open spec fn views_of(s: Seq<StreamEntry>) -> Seq<EntryModel> {
    s.map_values(|e: StreamEntry| e@)
}

impl View for StreamEntriesSet {
    type V = Seq<EntryModel>;

    open spec fn view(&self) -> Seq<EntryModel> {
        views_of(self.entries@)
    }
}

/// A byte that may appear in a relative path: anything but the line
/// terminator of the snapshot document.
pub open spec fn path_byte_ok(b: u8) -> bool {
    b != 10
}

/// A byte of the standard base64 alphabet, including the padding byte.
pub open spec fn is_b64_byte(b: u8) -> bool {
    ||| 65 <= b <= 90  // 'A'..'Z'
    ||| 97 <= b <= 122  // 'a'..'z'
    ||| 48 <= b <= 57  // '0'..'9'
    ||| b == 43  // '+'
    ||| b == 47  // '/'
    ||| b == 61  // '='
}

/// A well-formed entry: a nonempty path free of line terminators, and
/// content present exactly on file entries, made of base64 bytes.
pub open spec fn entry_wf(e: EntryModel) -> bool {
    &&& e.relative_path.len() > 0
    &&& forall|i: int| 0 <= i < e.relative_path.len() ==> path_byte_ok(#[trigger] e.relative_path[i])
    &&& (e.entry_type == StreamEntryType::File <==> e.content is Some)
    &&& match e.content {
        Some(c) => forall|i: int| 0 <= i < c.len() ==> is_b64_byte(#[trigger] c[i]),
        None => true,
    }
}

/// Every entry of the sequence is well formed.
pub open spec fn entries_wf(s: Seq<EntryModel>) -> bool {
    forall|i: int| 0 <= i < s.len() ==> entry_wf(#[trigger] s[i])
}

/// No two entries of the sequence share a relative path.
pub open spec fn paths_unique(s: Seq<EntryModel>) -> bool {
    forall|i: int, j: int|
        0 <= i < j < s.len() ==> (#[trigger] s[i]).relative_path != (#[trigger] s[j]).relative_path
}

/// A well-formed snapshot: well-formed entries with pairwise distinct paths.
pub open spec fn snapshot_wf(s: Seq<EntryModel>) -> bool {
    entries_wf(s) && paths_unique(s)
}

/// True of directory entries.
pub open spec fn is_directory_entry(e: EntryModel) -> bool {
    e.entry_type == StreamEntryType::Directory
}

/// True of file entries.
pub open spec fn is_file_entry(e: EntryModel) -> bool {
    e.entry_type == StreamEntryType::File
}

/// The subsequence of directory entries, in order.
pub open spec fn dir_entries(s: Seq<EntryModel>) -> Seq<EntryModel> {
    s.filter(|e: EntryModel| is_directory_entry(e))
}

/// The subsequence of file entries, in order.
pub open spec fn file_entries(s: Seq<EntryModel>) -> Seq<EntryModel> {
    s.filter(|e: EntryModel| is_file_entry(e))
}

/// The canonical order of a snapshot: all directory entries first, then all
/// file entries, each kind keeping its relative order.
pub open spec fn canonical_spec(s: Seq<EntryModel>) -> Seq<EntryModel> {
    dir_entries(s) + file_entries(s)
}

impl StreamEntry {
    /// Builds an entry from its parts.
    pub fn create(entry_type: StreamEntryType, relative_path: Vec<u8>, content: Option<Vec<u8>>) -> (r:
        StreamEntry)
        ensures
            r@.entry_type == entry_type,
            r@.relative_path == relative_path@,
            r@.content == match content {
                Some(c) => Some(c@),
                None => None::<Seq<u8>>,
            },
    {
        StreamEntry { entry_type, relative_path, content }
    }
}

impl StreamEntryType {
    /// The kind of a filesystem node that is a directory when `is_dir`
    /// holds, a file otherwise.
    pub fn for_path(is_dir: bool) -> (r: StreamEntryType)
        ensures
            r == if is_dir {
                StreamEntryType::Directory
            } else {
                StreamEntryType::File
            },
    {
        if is_dir {
            StreamEntryType::Directory
        } else {
            StreamEntryType::File
        }
    }
}

/// Copies one entry.
pub fn copy_entry(e: &StreamEntry) -> (r: StreamEntry)
    ensures
        r@ == e@,
{
    let content = match &e.content {
        Some(c) => Some(crate::bytes::copy_bytes(c)),
        None => None,
    };
    StreamEntry {
        entry_type: e.entry_type,
        relative_path: crate::bytes::copy_bytes(&e.relative_path),
        content,
    }
}

/// Reorders a snapshot into the canonical order: directory entries first,
/// then file entries, each kind keeping its relative order.
pub fn canonicalize(set: &StreamEntriesSet) -> (r: StreamEntriesSet)
    ensures
        r@ == canonical_spec(set@),
        set@.len() == r@.len(),
        entries_wf(set@) ==> entries_wf(r@),
{
    let mut out: Vec<StreamEntry> = Vec::new();
    let mut i: usize = 0;
    while i < set.entries.len()
        invariant
            0 <= i <= set.entries.len(),
            views_of(out@) == dir_entries(set@.take(i as int)),
        decreases set.entries.len() - i,
    {
        let ghost prev = views_of(out@);
        proof {
            lemma_dir_entries_take_step(set@, i as int);
            assert(set@[i as int] == set.entries@[i as int]@);
        }
        let e = &set.entries[i];
        if e.entry_type == StreamEntryType::Directory {
            let copy = copy_entry(e);
            out.push(copy);
            proof {
                assert(views_of(out@) =~= prev.push(set@[i as int]));
            }
        } else {
            proof {
                assert(!is_directory_entry(set@[i as int]));
            }
        }
        i += 1;
    }
    let ghost dirs = dir_entries(set@);
    proof {
        assert(set@.take(set@.len() as int) =~= set@);
    }
    let mut j: usize = 0;
    while j < set.entries.len()
        invariant
            0 <= j <= set.entries.len(),
            views_of(out@) == dirs + file_entries(set@.take(j as int)),
            dirs == dir_entries(set@),
        decreases set.entries.len() - j,
    {
        let ghost prev = views_of(out@);
        proof {
            lemma_file_entries_take_step(set@, j as int);
            assert(set@[j as int] == set.entries@[j as int]@);
        }
        let e = &set.entries[j];
        if e.entry_type == StreamEntryType::File {
            let copy = copy_entry(e);
            out.push(copy);
            proof {
                assert(views_of(out@) =~= prev.push(set@[j as int]));
                assert(prev.push(set@[j as int]) =~= dirs + file_entries(set@.take(j as int)).push(
                    set@[j as int],
                ));
            }
        } else {
            proof {
                assert(!is_file_entry(set@[j as int]));
            }
        }
        j += 1;
    }
    proof {
        assert(set@.take(set@.len() as int) =~= set@);
        lemma_canonical_len(set@);
        if entries_wf(set@) {
            lemma_canonical_wf(set@);
        }
    }
    StreamEntriesSet { entries: out }
}

/// Taking one more element extends the directory subsequence by that element
/// exactly when it is a directory entry.
proof fn lemma_dir_entries_take_step(s: Seq<EntryModel>, i: int)
    requires
        0 <= i < s.len(),
    ensures
        dir_entries(s.take(i + 1)) == if is_directory_entry(s[i]) {
            dir_entries(s.take(i)).push(s[i])
        } else {
            dir_entries(s.take(i))
        },
{
    reveal(Seq::filter);
    let t1 = s.take(i + 1);
    assert(t1.len() == i + 1);
    assert(t1.drop_last() =~= s.take(i));
    assert(t1.last() == s[i]);
}

/// Taking one more element extends the file subsequence by that element
/// exactly when it is a file entry.
proof fn lemma_file_entries_take_step(s: Seq<EntryModel>, i: int)
    requires
        0 <= i < s.len(),
    ensures
        file_entries(s.take(i + 1)) == if is_file_entry(s[i]) {
            file_entries(s.take(i)).push(s[i])
        } else {
            file_entries(s.take(i))
        },
{
    reveal(Seq::filter);
    let t1 = s.take(i + 1);
    assert(t1.len() == i + 1);
    assert(t1.drop_last() =~= s.take(i));
    assert(t1.last() == s[i]);
}

/// The directory and file subsequences together keep every entry: their
/// lengths add up to the length of the snapshot.
pub proof fn lemma_canonical_len(s: Seq<EntryModel>)
    ensures
        canonical_spec(s).len() == s.len(),
    decreases s.len(),
{
    reveal(Seq::filter);
    if s.len() == 0 {
    } else {
        lemma_canonical_len(s.drop_last());
    }
}

/// The directory subsequence holds only well-formed entries when the
/// snapshot does.
proof fn lemma_dir_entries_wf(s: Seq<EntryModel>)
    requires
        entries_wf(s),
    ensures
        entries_wf(dir_entries(s)),
    decreases s.len(),
{
    reveal(Seq::filter);
    if s.len() > 0 {
        assert(entries_wf(s.drop_last()));
        lemma_dir_entries_wf(s.drop_last());
        let f = dir_entries(s.drop_last());
        if is_directory_entry(s.last()) {
            assert forall|i: int| 0 <= i < f.push(s.last()).len() implies entry_wf(
                #[trigger] f.push(s.last())[i],
            ) by {
                if i < f.len() {
                    assert(entry_wf(f[i]));
                } else {
                    assert(f.push(s.last())[i] == s.last());
                    assert(entry_wf(s[s.len() - 1]));
                }
            }
        }
    }
}

/// The file subsequence holds only well-formed entries when the snapshot
/// does.
proof fn lemma_file_entries_wf(s: Seq<EntryModel>)
    requires
        entries_wf(s),
    ensures
        entries_wf(file_entries(s)),
    decreases s.len(),
{
    reveal(Seq::filter);
    if s.len() > 0 {
        assert(entries_wf(s.drop_last()));
        lemma_file_entries_wf(s.drop_last());
        let f = file_entries(s.drop_last());
        if is_file_entry(s.last()) {
            assert forall|i: int| 0 <= i < f.push(s.last()).len() implies entry_wf(
                #[trigger] f.push(s.last())[i],
            ) by {
                if i < f.len() {
                    assert(entry_wf(f[i]));
                } else {
                    assert(f.push(s.last())[i] == s.last());
                    assert(entry_wf(s[s.len() - 1]));
                }
            }
        }
    }
}

/// The canonical reordering keeps well-formedness of the entries.
pub proof fn lemma_canonical_wf(s: Seq<EntryModel>)
    requires
        entries_wf(s),
    ensures
        entries_wf(canonical_spec(s)),
{
    lemma_dir_entries_wf(s);
    lemma_file_entries_wf(s);
    let d = dir_entries(s);
    let f = file_entries(s);
    assert forall|i: int| 0 <= i < (d + f).len() implies entry_wf(#[trigger] (d + f)[i]) by {
        if i < d.len() {
            assert((d + f)[i] == d[i]);
            assert(entry_wf(d[i]));
        } else {
            assert((d + f)[i] == f[i - d.len()]);
            assert(entry_wf(f[i - d.len()]));
        }
    }
}

/// A directory entry of the snapshot appears in the directory subsequence.
pub proof fn lemma_dir_entries_contains(s: Seq<EntryModel>, i: int)
    requires
        0 <= i < s.len(),
        is_directory_entry(s[i]),
    ensures
        dir_entries(s).contains(s[i]),
    decreases s.len(),
{
    reveal(Seq::filter);
    if i == s.len() - 1 {
        assert(s.last() == s[i]);
        assert(dir_entries(s).last() == s[i]);
    } else {
        assert(s.drop_last()[i] == s[i]);
        lemma_dir_entries_contains(s.drop_last(), i);
        let f = dir_entries(s.drop_last());
        let j = choose|j: int| 0 <= j < f.len() && f[j] == s[i];
        assert(dir_entries(s)[j] == s[i]);
    }
}

/// A file entry of the snapshot appears in the file subsequence.
pub proof fn lemma_file_entries_contains(s: Seq<EntryModel>, i: int)
    requires
        0 <= i < s.len(),
        is_file_entry(s[i]),
    ensures
        file_entries(s).contains(s[i]),
    decreases s.len(),
{
    reveal(Seq::filter);
    if i == s.len() - 1 {
        assert(s.last() == s[i]);
        assert(file_entries(s).last() == s[i]);
    } else {
        assert(s.drop_last()[i] == s[i]);
        lemma_file_entries_contains(s.drop_last(), i);
        let f = file_entries(s.drop_last());
        let j = choose|j: int| 0 <= j < f.len() && f[j] == s[i];
        assert(file_entries(s)[j] == s[i]);
    }
}

/// An element of the directory subsequence is a directory entry drawn from
/// the snapshot.
pub proof fn lemma_dir_entries_elem(s: Seq<EntryModel>, j: int)
    requires
        0 <= j < dir_entries(s).len(),
    ensures
        is_directory_entry(dir_entries(s)[j]),
        s.contains(dir_entries(s)[j]),
    decreases s.len(),
{
    reveal(Seq::filter);
    if s.len() == 0 {
    } else {
        let f = dir_entries(s.drop_last());
        if j < f.len() {
            lemma_dir_entries_elem(s.drop_last(), j);
            let i = choose|i: int| 0 <= i < s.drop_last().len() && s.drop_last()[i] == f[j];
            assert(s[i] == f[j]);
            assert(dir_entries(s)[j] == f[j]);
        } else {
            assert(is_directory_entry(s.last()));
            assert(dir_entries(s)[j] == s.last());
            assert(s[s.len() - 1] == s.last());
        }
    }
}

/// An element of the file subsequence is a file entry drawn from the
/// snapshot.
pub proof fn lemma_file_entries_elem(s: Seq<EntryModel>, j: int)
    requires
        0 <= j < file_entries(s).len(),
    ensures
        is_file_entry(file_entries(s)[j]),
        s.contains(file_entries(s)[j]),
    decreases s.len(),
{
    reveal(Seq::filter);
    if s.len() == 0 {
    } else {
        let f = file_entries(s.drop_last());
        if j < f.len() {
            lemma_file_entries_elem(s.drop_last(), j);
            let i = choose|i: int| 0 <= i < s.drop_last().len() && s.drop_last()[i] == f[j];
            assert(s[i] == f[j]);
            assert(file_entries(s)[j] == f[j]);
        } else {
            assert(is_file_entry(s.last()));
            assert(file_entries(s)[j] == s.last());
            assert(s[s.len() - 1] == s.last());
        }
    }
}

/// Every entry of a snapshot appears in its canonical reordering.
pub proof fn lemma_canonical_contains(s: Seq<EntryModel>, i: int)
    requires
        0 <= i < s.len(),
    ensures
        canonical_spec(s).contains(s[i]),
{
    let d = dir_entries(s);
    let f = file_entries(s);
    if is_directory_entry(s[i]) {
        lemma_dir_entries_contains(s, i);
        let j = choose|j: int| 0 <= j < d.len() && d[j] == s[i];
        assert(canonical_spec(s)[j] == s[i]);
    } else {
        lemma_file_entries_contains(s, i);
        let j = choose|j: int| 0 <= j < f.len() && f[j] == s[i];
        assert(canonical_spec(s)[d.len() + j] == s[i]);
    }
}

/// Every entry of the canonical reordering is drawn from the snapshot.
pub proof fn lemma_canonical_elem(s: Seq<EntryModel>, j: int)
    requires
        0 <= j < canonical_spec(s).len(),
    ensures
        s.contains(canonical_spec(s)[j]),
{
    let d = dir_entries(s);
    let f = file_entries(s);
    if j < d.len() {
        lemma_dir_entries_elem(s, j);
        assert(canonical_spec(s)[j] == d[j]);
    } else {
        lemma_file_entries_elem(s, j - d.len());
        assert(canonical_spec(s)[j] == f[j - d.len()]);
    }
}

/// The directory subsequence keeps paths pairwise distinct.
proof fn lemma_dir_entries_unique(s: Seq<EntryModel>)
    requires
        paths_unique(s),
    ensures
        paths_unique(dir_entries(s)),
    decreases s.len(),
{
    reveal(Seq::filter);
    if s.len() > 0 {
        assert(paths_unique(s.drop_last()));
        lemma_dir_entries_unique(s.drop_last());
        let f = dir_entries(s.drop_last());
        if is_directory_entry(s.last()) {
            let g = f.push(s.last());
            assert forall|i: int, j: int|
                0 <= i < j < g.len() implies (#[trigger] g[i]).relative_path != (
            #[trigger] g[j]).relative_path by {
                if j < f.len() {
                    assert(f[i].relative_path != f[j].relative_path);
                } else {
                    assert(g[j] == s.last());
                    lemma_dir_entries_elem(s.drop_last(), i);
                    let m = choose|m: int|
                        0 <= m < s.drop_last().len() && s.drop_last()[m] == f[i];
                    assert(s[m] == f[i]);
                    assert(s[m].relative_path != s[s.len() - 1].relative_path);
                }
            }
        }
    }
}

/// The file subsequence keeps paths pairwise distinct.
proof fn lemma_file_entries_unique(s: Seq<EntryModel>)
    requires
        paths_unique(s),
    ensures
        paths_unique(file_entries(s)),
    decreases s.len(),
{
    reveal(Seq::filter);
    if s.len() > 0 {
        assert(paths_unique(s.drop_last()));
        lemma_file_entries_unique(s.drop_last());
        let f = file_entries(s.drop_last());
        if is_file_entry(s.last()) {
            let g = f.push(s.last());
            assert forall|i: int, j: int|
                0 <= i < j < g.len() implies (#[trigger] g[i]).relative_path != (
            #[trigger] g[j]).relative_path by {
                if j < f.len() {
                    assert(f[i].relative_path != f[j].relative_path);
                } else {
                    assert(g[j] == s.last());
                    lemma_file_entries_elem(s.drop_last(), i);
                    let m = choose|m: int|
                        0 <= m < s.drop_last().len() && s.drop_last()[m] == f[i];
                    assert(s[m] == f[i]);
                    assert(s[m].relative_path != s[s.len() - 1].relative_path);
                }
            }
        }
    }
}

/// Law: the canonical reordering keeps paths pairwise distinct.
pub proof fn lemma_canonical_paths_unique(s: Seq<EntryModel>)
    requires
        paths_unique(s),
    ensures
        paths_unique(canonical_spec(s)),
{
    lemma_dir_entries_unique(s);
    lemma_file_entries_unique(s);
    let d = dir_entries(s);
    let f = file_entries(s);
    let c = canonical_spec(s);
    assert forall|i: int, j: int|
        0 <= i < j < c.len() implies (#[trigger] c[i]).relative_path != (
    #[trigger] c[j]).relative_path by {
        if j < d.len() {
            assert(c[i] == d[i] && c[j] == d[j]);
        } else if i >= d.len() {
            assert(c[i] == f[i - d.len()] && c[j] == f[j - d.len()]);
        } else {
            assert(c[i] == d[i] && c[j] == f[j - d.len()]);
            lemma_dir_entries_elem(s, i);
            lemma_file_entries_elem(s, j - d.len());
            let a = choose|a: int| 0 <= a < s.len() && s[a] == d[i];
            let b = choose|b: int| 0 <= b < s.len() && s[b] == f[j - d.len()];
            assert(s[a].entry_type != s[b].entry_type);
            assert(a != b);
            assert(s[a].relative_path != s[b].relative_path);
        }
    }
}

} // verus!
