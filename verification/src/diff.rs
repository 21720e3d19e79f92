//! The diff renderer: the readable report of what changed between two
//! snapshots.
//!
//! Entries are matched across the two snapshots by relative path.  An entry
//! present in both is a candidate for modification: a textual patch between
//! the two decoded contents, included only when non-empty.  An entry only in
//! the new snapshot is an addition, one only in the old snapshot a removal;
//! each gets a prefixed path header and, for files, a patch against empty
//! content or an empty-file marker.  A path header is suppressed when the
//! path is a non-empty directory on the live filesystem, whose state the
//! caller hands in as a value: the directory's own files already produce
//! headers of their own.
//!
//! The textual patch itself is an outside call; the library relies on the
//! patch being a function of the two texts and on it being empty exactly
//! when the texts are equal.

use crate::b64::b64_decode;
use crate::b64::b64_of;
use crate::bytes::bytes_eq;
use crate::bytes::copy_bytes;
use crate::bytes::push_bytes;
use crate::codec::LINE_END;
use crate::entry::EntryModel;
use crate::entry::StreamEntriesSet;
use crate::entry::StreamEntry;
use crate::entry::StreamEntryType;
use crate::entry::paths_unique;
use crate::errors::VersionsError;
use crate::locator::PATH_SEP;
use crate::meta::ModulePtr;
use crate::meta::ModulePtrModel;
use crate::tree::entry_content_decodes;
use vstd::prelude::*;

verus! {

/// What the diff needs to know of the live filesystem: the paths that are
/// non-empty directories on disk right now.
pub struct FsView {
    pub nonempty_dirs: Vec<Vec<u8>>,
}

/// The mathematical value of an [`FsView`]: the listed paths.
pub open spec fn path_views(s: Seq<Vec<u8>>) -> Seq<Seq<u8>> {
    s.map_values(|p: Vec<u8>| p@)
}

impl View for FsView {
    type V = Seq<Seq<u8>>;

    open spec fn view(&self) -> Seq<Seq<u8>> {
        path_views(self.nonempty_dirs@)
    }
}

/// The path occurs among the non-empty directories of the filesystem view.
pub open spec fn fs_nonempty_dir(fs: Seq<Seq<u8>>, path: Seq<u8>) -> bool {
    exists|i: int| 0 <= i < fs.len() && fs[i] == path
}

/// The path of an entry as the report displays it: under its module's
/// working directory.
pub open spec fn displayed_path(module: ModulePtrModel, rel: Seq<u8>) -> Seq<u8> {
    module.module_dir + seq![PATH_SEP] + rel
}

/// The path of an entry on the live filesystem: under the repository root
/// and the module's working directory.
pub open spec fn full_disk_path(module: ModulePtrModel, rel: Seq<u8>) -> Seq<u8> {
    module.repository_path + seq![PATH_SEP] + module.module_dir + seq![PATH_SEP] + rel
}

/// An entry gets a path header unless it is a non-empty directory on the
/// live filesystem, whose files report for themselves.
pub open spec fn should_print_header_spec(
    rel: Seq<u8>,
    module: ModulePtrModel,
    fs: Seq<Seq<u8>>,
) -> bool {
    !fs_nonempty_dir(fs, full_disk_path(module, rel))
}

/// Reports whether `path` is listed as a non-empty directory.
fn fs_lists_dir(fs: &FsView, path: &Vec<u8>) -> (r: bool)
    ensures
        r == fs_nonempty_dir(fs@, path@),
{
    let mut i: usize = 0;
    while i < fs.nonempty_dirs.len()
        invariant
            0 <= i <= fs.nonempty_dirs.len(),
            forall|k: int| 0 <= k < i ==> fs@[k] != path@,
        decreases fs.nonempty_dirs.len() - i,
    {
        if bytes_eq(&fs.nonempty_dirs[i], path) {
            proof {
                assert(fs@[i as int] == fs.nonempty_dirs@[i as int]@);
            }
            return true;
        }
        proof {
            assert(fs@[i as int] == fs.nonempty_dirs@[i as int]@);
        }
        i += 1;
    }
    false
}

/// Decides the header rule for one entry path.
pub fn should_print_header(rel: &Vec<u8>, module: &ModulePtr, fs: &FsView) -> (r: bool)
    ensures
        r == should_print_header_spec(rel@, module@, fs@),
{
    let mut full = copy_bytes(&module.repository_path);
    full.push(PATH_SEP);
    push_bytes(&mut full, &module.module_dir);
    full.push(PATH_SEP);
    push_bytes(&mut full, rel);
    proof {
        assert(full@ =~= full_disk_path(module@, rel@));
    }
    !fs_lists_dir(fs, &full)
}

/// Builds the displayed path of an entry, after an optional prefix.
fn displayed_path_vec(prefix: Option<u8>, rel: &Vec<u8>, module: &ModulePtr) -> (r: Vec<u8>)
    ensures
        r@ == match prefix {
            Some(p) => seq![p, 32u8] + displayed_path(module@, rel@),
            None => displayed_path(module@, rel@),
        },
{
    let mut r: Vec<u8> = Vec::new();
    match prefix {
        Some(p) => {
            r.push(p);
            r.push(32);
        },
        None => {},
    }
    push_bytes(&mut r, &module.module_dir);
    r.push(PATH_SEP);
    push_bytes(&mut r, rel);
    proof {
        match prefix {
            Some(p) => {
                assert(r@ =~= seq![p, 32u8] + displayed_path(module@, rel@));
            },
            None => {
                assert(r@ =~= displayed_path(module@, rel@));
            },
        }
    }
    r
}

/// The marker reported for a file whose patch against empty content is
/// itself empty: `<Empty file>`.
pub open spec fn empty_file_mark() -> Seq<u8> {
    seq![60u8, 69u8, 109u8, 112u8, 116u8, 121u8, 32u8, 102u8, 105u8, 108u8, 101u8, 62u8]
}

/// Writes the empty-file marker.
fn empty_file_mark_vec() -> (r: Vec<u8>)
    ensures
        r@ == empty_file_mark(),
{
    let mut r: Vec<u8> = Vec::new();
    r.push(60);
    r.push(69);
    r.push(109);
    r.push(112);
    r.push(116);
    r.push(121);
    r.push(32);
    r.push(102);
    r.push(105);
    r.push(108);
    r.push(101);
    r.push(62);
    proof {
        assert(r@ =~= empty_file_mark());
    }
    r
}

/// The rendered patch between two texts; nothing when the texts are equal.
pub uninterp spec fn patch_of(original: Seq<u8>, modified: Seq<u8>) -> Option<Seq<u8>>;

/// Relies on diffy's `create_patch_bytes` and `Patch::to_bytes`: the patch
/// is a function of the two texts alone, and it has hunks exactly when the
/// texts differ.
#[verifier::external_body]
fn render_patch(original: &Vec<u8>, modified: &Vec<u8>) -> (r: Option<Vec<u8>>)
    ensures
        match r {
            Some(p) => patch_of(original@, modified@) == Some(p@),
            None => patch_of(original@, modified@) is None,
        },
        (r is None) == (original@ == modified@),
{
    let patch = diffy::create_patch_bytes(original, modified);
    if patch.hunks().is_empty() {
        None
    } else {
        Some(patch.to_bytes())
    }
}

/// The text an entry contributes to a patch: the byte sequence whose base64
/// text a file entry carries, and the empty sequence for anything else.
/// Meaningful only when the content is genuine base64 text.
pub open spec fn decoded_or_empty(e: EntryModel) -> Seq<u8> {
    if e.entry_type == StreamEntryType::File {
        match e.content {
            Some(c) => choose|b: Seq<u8>| c == b64_of(b),
            None => Seq::empty(),
        }
    } else {
        Seq::empty()
    }
}

/// Decodes a file entry's content to the raw bytes it stands for; the empty
/// sequence for a directory entry or a file entry without content.
fn decode_entry_content(e: &StreamEntry) -> (r: Result<Vec<u8>, VersionsError>)
    ensures
        entry_content_decodes(e@) ==> (r matches Ok(v) && v@ == decoded_or_empty(e@)),
        !(e@.entry_type == StreamEntryType::File && e@.content is Some) ==> (r matches Ok(v) && v@
            == decoded_or_empty(e@)),
        r matches Err(err) ==> err == VersionsError::BaseDecodeError,
{
    if e.entry_type == StreamEntryType::File {
        match &e.content {
            Some(c) => {
                match b64_decode(c) {
                    Ok(v) => {
                        proof {
                            if exists|b: Seq<u8>| c@ == b64_of(b) {
                                let w = choose|b: Seq<u8>| c@ == b64_of(b);
                                assert(v@ == w);
                            }
                        }
                        Ok(v)
                    },
                    Err(err) => Err(err),
                }
            },
            None => {
                let v: Vec<u8> = Vec::new();
                proof {
                    assert(v@ =~= decoded_or_empty(e@));
                }
                Ok(v)
            },
        }
    } else {
        let v: Vec<u8> = Vec::new();
        proof {
            assert(v@ =~= decoded_or_empty(e@));
        }
        Ok(v)
    }
}

/// The model of an optional entry reference.
pub open spec fn opt_model(o: Option<&StreamEntry>) -> Option<EntryModel> {
    match o {
        Some(e) => Some(e@),
        None => None,
    }
}

/// The report blocks of one entry pair: nothing for an unchanged pair, a
/// header and patch for a modification, a prefixed header with a patch or
/// empty-file marker for an addition or removal.
pub open spec fn entry_blocks_spec(
    o: Option<EntryModel>,
    m: Option<EntryModel>,
    module: ModulePtrModel,
    fs: Seq<Seq<u8>>,
) -> Seq<Seq<u8>> {
    match (o, m) {
        (Some(oe), Some(me)) => match patch_of(decoded_or_empty(oe), decoded_or_empty(me)) {
            None => Seq::empty(),
            Some(p) => if should_print_header_spec(me.relative_path, module, fs) {
                seq![displayed_path(module, me.relative_path), p]
            } else {
                seq![p]
            },
        },
        (Some(oe), None) => {
            let hdr: Seq<Seq<u8>> = if should_print_header_spec(oe.relative_path, module, fs) {
                seq![seq![45u8, 32u8] + displayed_path(module, oe.relative_path)]
            } else {
                Seq::empty()
            };
            let body: Seq<Seq<u8>> = if oe.entry_type == StreamEntryType::File {
                match patch_of(decoded_or_empty(oe), Seq::empty()) {
                    Some(p) => seq![p],
                    None => seq![empty_file_mark()],
                }
            } else {
                Seq::empty()
            };
            hdr + body
        },
        (None, Some(me)) => {
            let hdr: Seq<Seq<u8>> = if should_print_header_spec(me.relative_path, module, fs) {
                seq![seq![43u8, 32u8] + displayed_path(module, me.relative_path)]
            } else {
                Seq::empty()
            };
            let body: Seq<Seq<u8>> = if me.entry_type == StreamEntryType::File {
                match patch_of(Seq::empty(), decoded_or_empty(me)) {
                    Some(p) => seq![p],
                    None => seq![empty_file_mark()],
                }
            } else {
                Seq::empty()
            };
            hdr + body
        },
        (None, None) => Seq::empty(),
    }
}

/// The blocks of one entry pair, as byte vectors.
pub open spec fn block_views(s: Seq<Vec<u8>>) -> Seq<Seq<u8>> {
    s.map_values(|b: Vec<u8>| b@)
}

/// Renders the report blocks of one entry pair.  Unchanged pairs produce no
/// block; in particular two entries with equal model produce none.
fn entry_diff_blocks(
    original: Option<&StreamEntry>,
    modified: Option<&StreamEntry>,
    module: &ModulePtr,
    fs: &FsView,
) -> (r: Result<Vec<Vec<u8>>, VersionsError>)
    ensures
        opt_decodes(opt_model(original)) && opt_decodes(opt_model(modified)) ==> (r matches Ok(
            bs,
        ) && block_views(bs@) == entry_blocks_spec(
            opt_model(original),
            opt_model(modified),
            module@,
            fs@,
        )),
        r matches Err(err) ==> err == VersionsError::BaseDecodeError,
        (original matches Some(oe) && modified matches Some(me) && oe@ == me@
            && entry_content_decodes(oe@)) ==> (r matches Ok(bs) && bs@.len() == 0),
{
    match (original, modified) {
        (Some(oe), Some(me)) => {
            let ghost same = oe@ == me@ && entry_content_decodes(oe@);
            let ov = decode_entry_content(oe)?;
            let mv = decode_entry_content(me)?;
            proof {
                if same {
                    assert(ov@ == decoded_or_empty(oe@));
                    assert(mv@ == decoded_or_empty(me@));
                }
            }
            let mut bs: Vec<Vec<u8>> = Vec::new();
            match render_patch(&ov, &mv) {
                None => {},
                Some(p) => {
                    if should_print_header(&me.relative_path, module, fs) {
                        bs.push(displayed_path_vec(None, &me.relative_path, module));
                    }
                    bs.push(p);
                },
            }
            proof {
                if opt_decodes(opt_model(original)) && opt_decodes(opt_model(modified)) {
                    assert(block_views(bs@) =~= entry_blocks_spec(
                        opt_model(original),
                        opt_model(modified),
                        module@,
                        fs@,
                    ));
                }
            }
            Ok(bs)
        },
        (Some(oe), None) => {
            let ov = decode_entry_content(oe)?;
            let mut bs: Vec<Vec<u8>> = Vec::new();
            if should_print_header(&oe.relative_path, module, fs) {
                bs.push(displayed_path_vec(Some(45), &oe.relative_path, module));
            }
            if oe.entry_type == StreamEntryType::File {
                let empty: Vec<u8> = Vec::new();
                match render_patch(&ov, &empty) {
                    Some(p) => {
                        bs.push(p);
                    },
                    None => {
                        bs.push(empty_file_mark_vec());
                    },
                }
            }
            proof {
                if opt_decodes(opt_model(original)) {
                    assert(block_views(bs@) =~= entry_blocks_spec(
                        opt_model(original),
                        opt_model(modified),
                        module@,
                        fs@,
                    ));
                }
            }
            Ok(bs)
        },
        (None, Some(me)) => {
            let mv = decode_entry_content(me)?;
            let mut bs: Vec<Vec<u8>> = Vec::new();
            if should_print_header(&me.relative_path, module, fs) {
                bs.push(displayed_path_vec(Some(43), &me.relative_path, module));
            }
            if me.entry_type == StreamEntryType::File {
                let empty: Vec<u8> = Vec::new();
                match render_patch(&empty, &mv) {
                    Some(p) => {
                        bs.push(p);
                    },
                    None => {
                        bs.push(empty_file_mark_vec());
                    },
                }
            }
            proof {
                if opt_decodes(opt_model(modified)) {
                    assert(block_views(bs@) =~= entry_blocks_spec(
                        opt_model(original),
                        opt_model(modified),
                        module@,
                        fs@,
                    ));
                }
            }
            Ok(bs)
        },
        (None, None) => {
            let bs: Vec<Vec<u8>> = Vec::new();
            proof {
                assert(block_views(bs@) =~= entry_blocks_spec(
                    opt_model(original),
                    opt_model(modified),
                    module@,
                    fs@,
                ));
            }
            Ok(bs)
        },
    }
}

/// An optional entry whose content, when present, is genuine base64 text.
pub open spec fn opt_decodes(o: Option<EntryModel>) -> bool {
    match o {
        Some(e) => entry_content_decodes(e),
        None => true,
    }
}

/// Every file entry of the snapshot carries genuine base64 text.
pub open spec fn all_contents_decode(s: Seq<EntryModel>) -> bool {
    forall|i: int| 0 <= i < s.len() ==> entry_content_decodes(#[trigger] s[i])
}

/// The first entry of the snapshot at the given path.
pub open spec fn find_by_path(s: Seq<EntryModel>, path: Seq<u8>) -> Option<EntryModel>
    decreases s.len(),
{
    if s.len() == 0 {
        None
    } else if s.first().relative_path == path {
        Some(s.first())
    } else {
        find_by_path(s.drop_first(), path)
    }
}

/// A first match characterizes `find_by_path`.
proof fn lemma_find_by_path_first(s: Seq<EntryModel>, path: Seq<u8>, i: int)
    requires
        0 <= i < s.len(),
        s[i].relative_path == path,
        forall|k: int| 0 <= k < i ==> s[k].relative_path != path,
    ensures
        find_by_path(s, path) == Some(s[i]),
    decreases i,
{
    if i == 0 {
    } else {
        assert(s.first().relative_path != path);
        assert(forall|k: int| 0 <= k < i - 1 ==> s.drop_first()[k] == s[k + 1]);
        assert(s.drop_first()[i - 1] == s[i]);
        lemma_find_by_path_first(s.drop_first(), path, i - 1);
    }
}

/// No match characterizes `find_by_path`.
proof fn lemma_find_by_path_none(s: Seq<EntryModel>, path: Seq<u8>)
    requires
        forall|k: int| 0 <= k < s.len() ==> (#[trigger] s[k]).relative_path != path,
    ensures
        find_by_path(s, path) is None,
    decreases s.len(),
{
    if s.len() > 0 {
        assert(forall|k: int| 0 <= k < s.drop_first().len() ==> s.drop_first()[k] == s[k + 1]);
        lemma_find_by_path_none(s.drop_first(), path);
    }
}

/// With pairwise distinct paths, looking an entry's own path up finds that
/// entry.
pub proof fn lemma_find_by_path_self(s: Seq<EntryModel>, i: int)
    requires
        paths_unique(s),
        0 <= i < s.len(),
    ensures
        find_by_path(s, s[i].relative_path) == Some(s[i]),
{
    lemma_find_by_path_first(s, s[i].relative_path, i);
}

/// Two snapshots that answer every path lookup alike: every entry of
/// `after` is found unchanged in `before` by its own path, and every path of
/// `before` still exists in `after`.  Comparing such snapshots reports
/// nothing, whatever order their entries come in.
pub open spec fn reports_clean(before: Seq<EntryModel>, after: Seq<EntryModel>) -> bool {
    &&& forall|i: int|
        0 <= i < after.len() ==> find_by_path(before, (#[trigger] after[i]).relative_path)
            == Some(after[i])
    &&& forall|j: int|
        0 <= j < before.len() ==> find_by_path(after, (#[trigger] before[j]).relative_path)
            is Some
}

/// Law: a snapshot with pairwise distinct paths answers every lookup with
/// itself, so comparing it against itself reports nothing.
pub proof fn lemma_equal_snapshots_clean(s: Seq<EntryModel>)
    requires
        paths_unique(s),
    ensures
        reports_clean(s, s),
{
    assert forall|i: int|
        0 <= i < s.len() implies find_by_path(s, (#[trigger] s[i]).relative_path) == Some(
        s[i],
    ) by {
        lemma_find_by_path_self(s, i);
    }
}

/// Finds the index of the first entry with the given path.
fn find_entry_index(set: &StreamEntriesSet, path: &Vec<u8>) -> (r: Option<usize>)
    ensures
        match r {
            Some(k) => k < set.entries.len() && find_by_path(set@, path@) == Some(
                set@[k as int],
            ),
            None => find_by_path(set@, path@) is None,
        },
{
    let mut i: usize = 0;
    while i < set.entries.len()
        invariant
            0 <= i <= set.entries.len(),
            forall|k: int| 0 <= k < i ==> (#[trigger] set@[k]).relative_path != path@,
        decreases set.entries.len() - i,
    {
        proof {
            assert(set@[i as int] == set.entries@[i as int]@);
        }
        if bytes_eq(&set.entries[i].relative_path, path) {
            proof {
                lemma_find_by_path_first(set@, path@, i as int);
            }
            return Some(i);
        }
        i += 1;
    }
    proof {
        lemma_find_by_path_none(set@, path@);
    }
    None
}

/// The blocks of the first pass: for every entry of `after`, in order, the
/// blocks of its pair with the entry of `before` at the same path.
pub open spec fn pass1_blocks(
    before: Seq<EntryModel>,
    after: Seq<EntryModel>,
    module: ModulePtrModel,
    fs: Seq<Seq<u8>>,
) -> Seq<Seq<u8>>
    decreases after.len(),
{
    if after.len() == 0 {
        Seq::empty()
    } else {
        pass1_blocks(before, after.drop_last(), module, fs) + entry_blocks_spec(
            find_by_path(before, after.last().relative_path),
            Some(after.last()),
            module,
            fs,
        )
    }
}

/// The blocks of the second pass: for every entry of `before` with no match
/// in `after`, in order, its removal blocks.
pub open spec fn pass2_blocks(
    before: Seq<EntryModel>,
    after: Seq<EntryModel>,
    module: ModulePtrModel,
    fs: Seq<Seq<u8>>,
) -> Seq<Seq<u8>>
    decreases before.len(),
{
    if before.len() == 0 {
        Seq::empty()
    } else {
        pass2_blocks(before.drop_last(), after, module, fs) + (if find_by_path(
            after,
            before.last().relative_path,
        ) is Some {
            Seq::<Seq<u8>>::empty()
        } else {
            entry_blocks_spec(Some(before.last()), None, module, fs)
        })
    }
}

/// All report blocks of a snapshot pair.
pub open spec fn report_blocks_spec(
    before: Seq<EntryModel>,
    after: Seq<EntryModel>,
    module: ModulePtrModel,
    fs: Seq<Seq<u8>>,
) -> Seq<Seq<u8>> {
    pass1_blocks(before, after, module, fs) + pass2_blocks(before, after, module, fs)
}

/// The report text: the blocks joined by the line terminator.
pub open spec fn join_blocks(bs: Seq<Seq<u8>>) -> Seq<u8>
    decreases bs.len(),
{
    if bs.len() == 0 {
        Seq::empty()
    } else if bs.len() == 1 {
        bs[0]
    } else {
        join_blocks(bs.drop_last()) + seq![LINE_END] + bs.last()
    }
}

/// The whole report of a snapshot pair: the joined blocks, or nothing when
/// there are none.
pub open spec fn report_spec(
    before: Seq<EntryModel>,
    after: Seq<EntryModel>,
    module: ModulePtrModel,
    fs: Seq<Seq<u8>>,
) -> Option<Seq<u8>> {
    let blocks = report_blocks_spec(before, after, module, fs);
    if blocks.len() == 0 {
        None
    } else {
        Some(join_blocks(blocks))
    }
}

/// Appending one block extends the joined text by a separator, except for
/// the first block.
proof fn lemma_join_push(bs: Seq<Seq<u8>>, b: Seq<u8>)
    ensures
        join_blocks(bs.push(b)) == if bs.len() == 0 {
            b
        } else {
            join_blocks(bs) + seq![LINE_END] + b
        },
{
    assert(bs.push(b).drop_last() =~= bs);
    assert(bs.push(b).last() == b);
    if bs.len() == 0 {
        assert(join_blocks(bs.push(b)) == bs.push(b)[0]);
    }
}

/// One first-pass step extends the first-pass blocks by one entry's blocks.
proof fn lemma_pass1_take_step(
    before: Seq<EntryModel>,
    after: Seq<EntryModel>,
    module: ModulePtrModel,
    fs: Seq<Seq<u8>>,
    i: int,
)
    requires
        0 <= i < after.len(),
    ensures
        pass1_blocks(before, after.take(i + 1), module, fs) == pass1_blocks(
            before,
            after.take(i),
            module,
            fs,
        ) + entry_blocks_spec(
            find_by_path(before, after[i].relative_path),
            Some(after[i]),
            module,
            fs,
        ),
{
    let t1 = after.take(i + 1);
    assert(t1.len() == i + 1);
    assert(t1.drop_last() =~= after.take(i));
    assert(t1.last() == after[i]);
}

/// One second-pass step extends the second-pass blocks by one entry's
/// removal blocks, or by nothing when the entry still exists.
proof fn lemma_pass2_take_step(
    before: Seq<EntryModel>,
    after: Seq<EntryModel>,
    module: ModulePtrModel,
    fs: Seq<Seq<u8>>,
    i: int,
)
    requires
        0 <= i < before.len(),
    ensures
        pass2_blocks(before.take(i + 1), after, module, fs) == pass2_blocks(
            before.take(i),
            after,
            module,
            fs,
        ) + (if find_by_path(after, before[i].relative_path) is Some {
            Seq::<Seq<u8>>::empty()
        } else {
            entry_blocks_spec(Some(before[i]), None, module, fs)
        }),
{
    let t1 = before.take(i + 1);
    assert(t1.len() == i + 1);
    assert(t1.drop_last() =~= before.take(i));
    assert(t1.last() == before[i]);
}

/// The model of an optional report.
pub open spec fn report_model(r: Option<Vec<u8>>) -> Option<Seq<u8>> {
    match r {
        Some(v) => Some(v@),
        None => None,
    }
}

/// Computes the report of the differences between two snapshots, matched by
/// relative path.  Returns no report when nothing differs; in particular,
/// comparing a snapshot against itself reports nothing.
pub fn get_version_files_diff(
    original: &StreamEntriesSet,
    modified: &StreamEntriesSet,
    module: &ModulePtr,
    fs: &FsView,
) -> (r: Result<Option<Vec<u8>>, VersionsError>)
    ensures
        all_contents_decode(original@) && all_contents_decode(modified@) ==> (r matches Ok(rep)
            && report_model(rep) == report_spec(original@, modified@, module@, fs@)),
        r matches Err(e) ==> e == VersionsError::BaseDecodeError,
        reports_clean(original@, modified@) && all_contents_decode(original@)
            && all_contents_decode(modified@) ==> (r matches Ok(rep) && rep is None),
{
    let ghost decode_ok = all_contents_decode(original@) && all_contents_decode(modified@);
    let ghost clean = reports_clean(original@, modified@) && all_contents_decode(original@)
        && all_contents_decode(modified@);
    let mut out: Vec<u8> = Vec::new();
    let mut any = false;
    let ghost mut blocks: Seq<Seq<u8>> = Seq::empty();
    let mut i: usize = 0;
    while i < modified.entries.len()
        invariant
            0 <= i <= modified.entries.len(),
            decode_ok == (all_contents_decode(original@) && all_contents_decode(modified@)),
            clean == (reports_clean(original@, modified@) && all_contents_decode(original@)
                && all_contents_decode(modified@)),
            decode_ok ==> blocks == pass1_blocks(original@, modified@.take(i as int), module@, fs@),
            out@ == join_blocks(blocks),
            any == (blocks.len() > 0),
            clean ==> blocks.len() == 0,
        decreases modified.entries.len() - i,
    {
        let m = &modified.entries[i];
        proof {
            assert(modified@[i as int] == modified.entries@[i as int]@);
            if decode_ok {
                lemma_pass1_take_step(original@, modified@, module@, fs@, i as int);
            }
        }
        let found = find_entry_index(original, &m.relative_path);
        let bs = match found {
            Some(k) => entry_diff_blocks(Some(&original.entries[k]), Some(m), module, fs)?,
            None => entry_diff_blocks(None, Some(m), module, fs)?,
        };
        proof {
            if let Some(k) = found {
                assert(original@[k as int] == original.entries@[k as int]@);
            }
            if clean {
                assert(find_by_path(original@, modified@[i as int].relative_path) == Some(
                    modified@[i as int],
                ));
                assert(bs@.len() == 0);
            }
        }
        let ghost newblocks = block_views(bs@);
        append_report_blocks(&mut out, &mut any, &bs, Ghost(blocks));
        proof {
            blocks = blocks + newblocks;
        }
        i += 1;
    }
    proof {
        assert(modified@.take(modified@.len() as int) =~= modified@);
    }
    let mut j: usize = 0;
    while j < original.entries.len()
        invariant
            0 <= j <= original.entries.len(),
            decode_ok == (all_contents_decode(original@) && all_contents_decode(modified@)),
            clean == (reports_clean(original@, modified@) && all_contents_decode(original@)
                && all_contents_decode(modified@)),
            decode_ok ==> blocks == pass1_blocks(original@, modified@, module@, fs@)
                + pass2_blocks(original@.take(j as int), modified@, module@, fs@),
            out@ == join_blocks(blocks),
            any == (blocks.len() > 0),
            clean ==> blocks.len() == 0,
        decreases original.entries.len() - j,
    {
        let o = &original.entries[j];
        proof {
            assert(original@[j as int] == original.entries@[j as int]@);
            if decode_ok {
                lemma_pass2_take_step(original@, modified@, module@, fs@, j as int);
            }
        }
        let found = find_entry_index(modified, &o.relative_path);
        match found {
            Some(_) => {
                proof {
                    if decode_ok {
                        assert(blocks + Seq::<Seq<u8>>::empty() =~= blocks);
                    }
                }
            },
            None => {
                proof {
                    if clean {
                        assert(find_by_path(modified@, original@[j as int].relative_path)
                            is Some);
                        assert(false);
                    }
                }
                let bs = entry_diff_blocks(Some(o), None, module, fs)?;
                let ghost newblocks = block_views(bs@);
                append_report_blocks(&mut out, &mut any, &bs, Ghost(blocks));
                proof {
                    blocks = blocks + newblocks;
                }
            },
        }
        j += 1;
    }
    proof {
        assert(original@.take(original@.len() as int) =~= original@);
    }
    if any {
        Ok(Some(out))
    } else {
        proof {
            if decode_ok {
                assert(report_blocks_spec(original@, modified@, module@, fs@).len() == 0);
            }
        }
        Ok(None)
    }
}

/// Appends a group of blocks to the report being built, putting the line
/// terminator between blocks.
fn append_report_blocks(
    out: &mut Vec<u8>,
    any: &mut bool,
    bs: &Vec<Vec<u8>>,
    Ghost(blocks): Ghost<Seq<Seq<u8>>>,
)
    requires
        old(out)@ == join_blocks(blocks),
        *old(any) == (blocks.len() > 0),
    ensures
        final(out)@ == join_blocks(blocks + block_views(bs@)),
        *final(any) == ((blocks + block_views(bs@)).len() > 0),
{
    let mut i: usize = 0;
    while i < bs.len()
        invariant
            0 <= i <= bs.len(),
            out@ == join_blocks(blocks + block_views(bs@).take(i as int)),
            *any == ((blocks + block_views(bs@).take(i as int)).len() > 0),
        decreases bs.len() - i,
    {
        let ghost sofar = blocks + block_views(bs@).take(i as int);
        proof {
            lemma_join_push(sofar, bs@[i as int]@);
            assert(sofar.push(bs@[i as int]@) =~= blocks + block_views(bs@).take(i as int + 1));
        }
        if *any {
            out.push(LINE_END);
        }
        push_bytes(out, &bs[i]);
        *any = true;
        proof {
            if sofar.len() == 0 {
                assert(out@ =~= join_blocks(sofar.push(bs@[i as int]@)));
            } else {
                assert(out@ =~= join_blocks(sofar) + seq![LINE_END] + bs@[i as int]@);
            }
        }
        i += 1;
    }
    proof {
        assert(block_views(bs@).take(block_views(bs@).len() as int) =~= block_views(bs@));
    }
}

} // verus!
