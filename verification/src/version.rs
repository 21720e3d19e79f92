//! A version: a named, independently snapshottable state of a module's
//! working directory.
//!
//! The lifecycle has two implicit states, inferred from whether the
//! version's stored object exists: never saved, and saved.  Saving turns a
//! walked working tree into a compressed object to be written at the
//! version's storage key, overwriting any earlier one.  Loading requires the
//! object and yields the snapshot to materialize into the emptied working
//! directory.  Status diffs the stored snapshot (or an empty one) against
//! the current tree.  Removing requires the object and deletes it.  The
//! surrounding layer performs the walks, reads, writes and deletions; every
//! decision and every transformation of the data happens here.

use crate::bytes::copy_bytes;
use crate::codec::decode;
use crate::codec::decode_spec;
use crate::codec::encode;
use crate::codec::encode_spec;
use crate::diff::FsView;
use crate::diff::all_contents_decode;
use crate::diff::get_version_files_diff;
use crate::diff::report_model;
use crate::diff::report_spec;
use crate::diff::reports_clean;
use crate::entry::EntryModel;
use crate::entry::StreamEntriesSet;
use crate::entry::entries_wf;
use crate::entry::lemma_canonical_elem;
use crate::entry::paths_unique;
use crate::errors::VersionsError;
use crate::flate::compress;
use crate::flate::decompress;
use crate::flate::gunzip_of;
use crate::meta::ModulePtr;
use crate::meta::ModulePtrModel;
use crate::meta::copy_module_ptr;
use crate::tree::RawNode;
use crate::tree::build_snapshot;
use crate::tree::capture_spec;
use crate::tree::entries_of_nodes;
use crate::tree::entry_content_decodes;
use crate::tree::entry_of_node;
use crate::tree::node_views;
use vstd::prelude::*;

verus! {

/// A named version of a module's working tree.  Its stored object, when one
/// exists, holds the compressed snapshot of the tree at the last save.
#[derive(Clone, Debug)]
pub struct Version {
    pub name: Vec<u8>,
    pub module: ModulePtr,
}

/// The mathematical value of a [`Version`].
pub struct VersionModel {
    pub name: Seq<u8>,
    pub module: ModulePtrModel,
}

impl View for Version {
    type V = VersionModel;

    open spec fn view(&self) -> VersionModel {
        VersionModel { name: self.name@, module: self.module@ }
    }
}

/// The sequence of version models of a sequence of versions.
pub open spec fn version_views(s: Seq<Version>) -> Seq<VersionModel> {
    s.map_values(|v: Version| v@)
}

/// Copies a version record.
pub fn copy_version(v: &Version) -> (r: Version)
    ensures
        r@ == v@,
{
    Version { name: copy_bytes(&v.name), module: copy_module_ptr(&v.module) }
}

/// The model of an optional stored object.
pub open spec fn stored_model(o: Option<&Vec<u8>>) -> Option<Seq<u8>> {
    match o {
        Some(b) => Some(b@),
        None => None,
    }
}

/// Every entry captured from a walked tree carries genuine base64 text.
pub proof fn lemma_capture_contents_decode(nodes: Seq<crate::tree::RawNodeModel>)
    ensures
        all_contents_decode(capture_spec(nodes)),
{
    let entries = entries_of_nodes(nodes);
    let snap = capture_spec(nodes);
    assert forall|i: int| 0 <= i < snap.len() implies entry_content_decodes(
        #[trigger] snap[i],
    ) by {
        lemma_canonical_elem(entries, i);
        let e = snap[i];
        let k = choose|k: int| 0 <= k < entries.len() && entries[k] == e;
        assert(entries[k] == entry_of_node(nodes[k]));
        if !nodes[k].is_dir {
            assert(e.content == Some(crate::b64::b64_of(nodes[k].content)));
        }
    }
}

/// Law: saving is idempotent.  Two stored objects written for the same
/// walked tree decode to the same snapshot — the canonical capture of the
/// tree — and when the tree's node paths are pairwise distinct that
/// snapshot also satisfies everything the status report needs to come back
/// empty against an unchanged tree: distinct paths and decodable contents.
pub proof fn lemma_idempotent_save(
    nodes: Seq<crate::tree::RawNodeModel>,
    obj1: Seq<u8>,
    obj2: Seq<u8>,
)
    requires
        entries_wf(capture_spec(nodes)),
        crate::tree::node_paths_unique(nodes),
        gunzip_of(obj1) == Some(encode_spec(capture_spec(nodes))),
        gunzip_of(obj2) == Some(encode_spec(capture_spec(nodes))),
    ensures
        gunzip_of(obj1) == gunzip_of(obj2),
        match gunzip_of(obj1) {
            Some(doc) => decode_spec(doc) == Some(capture_spec(nodes)),
            None => false,
        },
        paths_unique(capture_spec(nodes)),
        all_contents_decode(capture_spec(nodes)),
        reports_clean(capture_spec(nodes), capture_spec(nodes)),
{
    lemma_stored_object_round_trip(capture_spec(nodes), obj1);
    crate::tree::lemma_capture_paths_unique(nodes);
    lemma_capture_contents_decode(nodes);
    crate::diff::lemma_equal_snapshots_clean(capture_spec(nodes));
}

/// Law: a stored object written for a well-formed snapshot decodes back to
/// that snapshot unchanged — the compression round trip composed with the
/// document round trip.
pub proof fn lemma_stored_object_round_trip(snap: Seq<EntryModel>, obj: Seq<u8>)
    requires
        entries_wf(snap),
        gunzip_of(obj) == Some(encode_spec(snap)),
    ensures
        match gunzip_of(obj) {
            Some(doc) => decode_spec(doc) == Some(snap),
            None => false,
        },
{
    crate::codec::lemma_decode_encode_round_trip(snap);
}

impl Version {
    /// Turns a walked working tree into the bytes of the stored object: the
    /// canonical snapshot of the tree, encoded and compressed.  The object
    /// decompresses to exactly that snapshot's document, whatever tree was
    /// walked; only an I/O failure inside the compressor is passed through.
    pub fn save(&self, nodes: &Vec<RawNode>) -> (r: Result<Vec<u8>, VersionsError>)
        ensures
            r matches Ok(obj) ==> gunzip_of(obj@) == Some(
                encode_spec(capture_spec(node_views(nodes@))),
            ),
            r matches Err(e) ==> e matches VersionsError::IoError(_),
    {
        let snapshot = build_snapshot(nodes);
        let document = encode(&snapshot);
        compress(&document)
    }

    /// Turns the stored object into the snapshot to materialize.  Fails
    /// exactly when there is no stored object (the version was never saved,
    /// or was removed), when the object is not a valid compressed stream, or
    /// when the decompressed document is malformed.
    pub fn load(&self, stored: Option<&Vec<u8>>) -> (r: Result<
        StreamEntriesSet,
        VersionsError,
    >)
        ensures
            stored is None ==> (r matches Err(e) && e matches VersionsError::VersionNotSaved(n)
                && n@ == self@.name),
            stored matches Some(b) ==> match gunzip_of(b@) {
                None => r matches Err(e) && e == VersionsError::MalformedObject,
                Some(doc) => match decode_spec(doc) {
                    None => r matches Err(e) && e == VersionsError::MalformedSnapshot,
                    Some(es) => r matches Ok(set) && set@ == es,
                },
            },
    {
        match stored {
            None => Err(VersionsError::VersionNotSaved(copy_bytes(&self.name))),
            Some(b) => {
                let document = match decompress(b) {
                    Ok(d) => d,
                    Err(e) => {
                        return Err(e);
                    },
                };
                decode(&document)
            },
        }
    }

    /// Reports the differences between the stored snapshot — an empty one
    /// when no object is stored — and the current working tree.  Returns no
    /// report when nothing differs; in particular, when the stored snapshot
    /// equals the current capture, nothing is reported.
    pub fn status(&self, stored: Option<&Vec<u8>>, current_nodes: &Vec<RawNode>, fs: &FsView) -> (r:
        Result<Option<Vec<u8>>, VersionsError>)
        ensures
            match stored_model(stored) {
                None => status_report_clauses(
                    Seq::<EntryModel>::empty(),
                    node_views(current_nodes@),
                    self@.module,
                    fs@,
                    r,
                ),
                Some(b) => match gunzip_of(b) {
                    None => r matches Err(e) && e == VersionsError::MalformedObject,
                    Some(doc) => match decode_spec(doc) {
                        None => r matches Err(e) && e == VersionsError::MalformedSnapshot,
                        Some(before) => status_report_clauses(
                            before,
                            node_views(current_nodes@),
                            self@.module,
                            fs@,
                            r,
                        ),
                    },
                },
            },
    {
        let current = build_snapshot(current_nodes);
        proof {
            lemma_capture_contents_decode(node_views(current_nodes@));
        }
        let saved = match stored {
            None => StreamEntriesSet { entries: Vec::new() },
            Some(b) => {
                let document = match decompress(b) {
                    Ok(d) => d,
                    Err(e) => {
                        return Err(e);
                    },
                };
                match decode(&document) {
                    Ok(set) => set,
                    Err(e) => {
                        return Err(e);
                    },
                }
            },
        };
        proof {
            if stored is None {
                assert(saved@ =~= Seq::<EntryModel>::empty());
            }
        }
        get_version_files_diff(&saved, &current, &self.module, fs)
    }

    /// Decides a removal: with no stored object the version was never
    /// saved, and removing fails; otherwise the object is to be deleted.
    pub fn remove(&self, stored_exists: bool) -> (r: Result<(), VersionsError>)
        ensures
            stored_exists <==> r is Ok,
            r matches Err(e) ==> (e matches VersionsError::VersionNotSaved(n) && n@
                == self@.name),
    {
        if stored_exists {
            Ok(())
        } else {
            Err(VersionsError::VersionNotSaved(copy_bytes(&self.name)))
        }
    }
}

/// What a status report says, given the snapshot `before` the working tree
/// is compared against: the report of the path-matched diff, no report when
/// the stored snapshot equals the current capture, and a decode error only
/// when some stored file content is not genuine base64 text.
pub open spec fn status_report_clauses(
    before: Seq<EntryModel>,
    nodes: Seq<crate::tree::RawNodeModel>,
    module: ModulePtrModel,
    fs: Seq<Seq<u8>>,
    r: Result<Option<Vec<u8>>, VersionsError>,
) -> bool {
    let after = capture_spec(nodes);
    &&& all_contents_decode(before) ==> (r matches Ok(rep) && report_model(rep) == report_spec(
        before,
        after,
        module,
        fs,
    ))
    &&& (r matches Err(e) ==> e == VersionsError::BaseDecodeError)
    &&& (reports_clean(before, after) && all_contents_decode(before)) ==> (r matches Ok(rep)
        && rep is None)
}

} // verus!
