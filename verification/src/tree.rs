//! Capturing a directory tree as a snapshot, and materializing a snapshot
//! back into a tree.
//!
//! The surrounding layer walks the filesystem and hands in one raw node per
//! filesystem entry; capture turns them into a canonical snapshot, base64
//! encoding file content on the way.  Materializing goes the other way: a
//! snapshot becomes a plan of directory creations and file writes, with
//! content decoded back to raw bytes, which the surrounding layer executes.
//! [`lemma_capture_materialize_round_trip`] shows the round trip: the plan
//! of a captured tree carries exactly the captured nodes, paths and raw
//! content bytes intact.

use crate::b64::b64_decode;
use crate::b64::b64_encode;
use crate::b64::b64_of;
use crate::bytes::copy_bytes;
use crate::entry::EntryModel;
use crate::entry::StreamEntriesSet;
use crate::entry::StreamEntry;
use crate::entry::StreamEntryType;
use crate::entry::canonical_spec;
use crate::entry::canonicalize;
use crate::entry::entries_wf;
use crate::entry::entry_wf;
use crate::entry::lemma_canonical_contains;
use crate::entry::lemma_canonical_elem;
use crate::entry::lemma_canonical_len;
use crate::entry::path_byte_ok;
use crate::entry::views_of;
use crate::errors::VersionsError;
use vstd::prelude::*;

verus! {

/// One filesystem node as the surrounding layer reads it: its kind, its
/// path relative to the tree root, and, for a file, its raw bytes.
pub struct RawNode {
    pub is_dir: bool,
    pub relative_path: Vec<u8>,
    pub content: Vec<u8>,
}

/// The mathematical value of a [`RawNode`].
pub struct RawNodeModel {
    pub is_dir: bool,
    pub relative_path: Seq<u8>,
    pub content: Seq<u8>,
}

impl View for RawNode {
    type V = RawNodeModel;

    open spec fn view(&self) -> RawNodeModel {
        RawNodeModel {
            is_dir: self.is_dir,
            relative_path: self.relative_path@,
            content: self.content@,
        }
    }
}

/// The sequence of node models of a sequence of nodes.
pub open spec fn node_views(s: Seq<RawNode>) -> Seq<RawNodeModel> {
    s.map_values(|n: RawNode| n@)
}

/// A well-formed raw node: a nonempty path free of line terminators, and no
/// content on a directory.
pub open spec fn node_wf(n: RawNodeModel) -> bool {
    &&& n.relative_path.len() > 0
    &&& forall|i: int| 0 <= i < n.relative_path.len() ==> path_byte_ok(#[trigger] n.relative_path[i])
    &&& (n.is_dir ==> n.content.len() == 0)
}

/// Every node of the sequence is well formed.
pub open spec fn nodes_wf(s: Seq<RawNodeModel>) -> bool {
    forall|i: int| 0 <= i < s.len() ==> node_wf(#[trigger] s[i])
}

/// No two nodes of the sequence share a relative path.
pub open spec fn node_paths_unique(s: Seq<RawNodeModel>) -> bool {
    forall|i: int, j: int|
        0 <= i < j < s.len() ==> (#[trigger] s[i]).relative_path != (#[trigger] s[j]).relative_path
}

/// The snapshot entry of one raw node: directories keep only their path,
/// files get their content carried as base64 text.
pub open spec fn entry_of_node(n: RawNodeModel) -> EntryModel {
    if n.is_dir {
        EntryModel {
            entry_type: StreamEntryType::Directory,
            relative_path: n.relative_path,
            content: None,
        }
    } else {
        EntryModel {
            entry_type: StreamEntryType::File,
            relative_path: n.relative_path,
            content: Some(b64_of(n.content)),
        }
    }
}

/// The entries of a list of raw nodes, in walk order.
pub open spec fn entries_of_nodes(s: Seq<RawNodeModel>) -> Seq<EntryModel> {
    s.map_values(|n: RawNodeModel| entry_of_node(n))
}

/// The snapshot captured from a list of raw nodes: their entries in the
/// canonical order.
pub open spec fn capture_spec(s: Seq<RawNodeModel>) -> Seq<EntryModel> {
    canonical_spec(entries_of_nodes(s))
}

/// Law: capturing nodes with pairwise distinct paths yields a snapshot with
/// pairwise distinct paths.
pub proof fn lemma_capture_paths_unique(s: Seq<RawNodeModel>)
    requires
        node_paths_unique(s),
    ensures
        crate::entry::paths_unique(capture_spec(s)),
{
    let entries = entries_of_nodes(s);
    assert forall|i: int, j: int|
        0 <= i < j < entries.len() implies (#[trigger] entries[i]).relative_path != (
    #[trigger] entries[j]).relative_path by {
        assert(entries[i] == entry_of_node(s[i]));
        assert(entries[j] == entry_of_node(s[j]));
        assert(s[i].relative_path != s[j].relative_path);
    }
    crate::entry::lemma_canonical_paths_unique(entries);
}

/// Builds the canonical snapshot of a walked tree.
pub fn build_snapshot(nodes: &Vec<RawNode>) -> (r: StreamEntriesSet)
    ensures
        r@ == capture_spec(node_views(nodes@)),
        nodes_wf(node_views(nodes@)) ==> entries_wf(r@),
        node_paths_unique(node_views(nodes@)) ==> crate::entry::paths_unique(r@),
{
    proof {
        if node_paths_unique(node_views(nodes@)) {
            lemma_capture_paths_unique(node_views(nodes@));
        }
    }
    let mut entries: Vec<StreamEntry> = Vec::new();
    let mut i: usize = 0;
    while i < nodes.len()
        invariant
            0 <= i <= nodes.len(),
            views_of(entries@) == entries_of_nodes(node_views(nodes@.take(i as int))),
            nodes_wf(node_views(nodes@)) ==> entries_wf(views_of(entries@)),
        decreases nodes.len() - i,
    {
        let ghost prev = views_of(entries@);
        let n = &nodes[i];
        let entry = if n.is_dir {
            StreamEntry {
                entry_type: StreamEntryType::Directory,
                relative_path: copy_bytes(&n.relative_path),
                content: None,
            }
        } else {
            StreamEntry {
                entry_type: StreamEntryType::File,
                relative_path: copy_bytes(&n.relative_path),
                content: Some(b64_encode(&n.content)),
            }
        };
        proof {
            assert(node_views(nodes@)[i as int] == nodes@[i as int]@);
            assert(entry@ == entry_of_node(nodes@[i as int]@));
        }
        entries.push(entry);
        proof {
            assert(views_of(entries@) =~= prev.push(entry_of_node(nodes@[i as int]@)));
            assert(entries_of_nodes(node_views(nodes@.take(i as int + 1))) =~= entries_of_nodes(
                node_views(nodes@.take(i as int)),
            ).push(entry_of_node(nodes@[i as int]@)));
            if nodes_wf(node_views(nodes@)) {
                assert(node_wf(nodes@[i as int]@));
                assert(entry_wf(entry@));
                assert forall|k: int| 0 <= k < views_of(entries@).len() implies entry_wf(
                    #[trigger] views_of(entries@)[k],
                ) by {
                    if k < prev.len() {
                        assert(views_of(entries@)[k] == prev[k]);
                        assert(entry_wf(prev[k]));
                    } else {
                        assert(views_of(entries@)[k] == entry@);
                    }
                }
            }
        }
        i += 1;
    }
    proof {
        assert(nodes@.take(nodes@.len() as int) =~= nodes@);
    }
    canonicalize(&StreamEntriesSet { entries })
}

/// One step of materializing a snapshot: create a directory, or write a
/// file's raw bytes.
pub enum Action {
    MkDir(Vec<u8>),
    WriteFile(Vec<u8>, Vec<u8>),
}

/// The mathematical value of an [`Action`].
pub enum ActionModel {
    MkDir(Seq<u8>),
    WriteFile(Seq<u8>, Seq<u8>),
}

impl View for Action {
    type V = ActionModel;

    open spec fn view(&self) -> ActionModel {
        match self {
            Action::MkDir(p) => ActionModel::MkDir(p@),
            Action::WriteFile(p, b) => ActionModel::WriteFile(p@, b@),
        }
    }
}

/// The sequence of action models of a sequence of actions.
pub open spec fn action_views(s: Seq<Action>) -> Seq<ActionModel> {
    s.map_values(|a: Action| a@)
}

/// The action materializing one snapshot entry: a directory entry becomes a
/// directory creation at its path; a file entry becomes a write of bytes
/// whose base64 text is the entry's content.
pub open spec fn action_matches(e: EntryModel, a: ActionModel) -> bool {
    if e.entry_type == StreamEntryType::Directory {
        a == ActionModel::MkDir(e.relative_path)
    } else {
        match (e.content, a) {
            (Some(c), ActionModel::WriteFile(p, b)) => p == e.relative_path && (forall|bb: Seq<u8>|
                c == b64_of(bb) ==> b == bb),
            _ => false,
        }
    }
}

/// The plan carries one matching action per snapshot entry, in order.
pub open spec fn plan_matches(snapshot: Seq<EntryModel>, actions: Seq<ActionModel>) -> bool {
    &&& actions.len() == snapshot.len()
    &&& forall|i: int|
        0 <= i < snapshot.len() ==> action_matches(#[trigger] snapshot[i], actions[i])
}

/// A file entry whose content is genuine base64 text: the text of some byte
/// sequence.
pub open spec fn entry_content_decodes(e: EntryModel) -> bool {
    e.entry_type == StreamEntryType::File ==> match e.content {
        Some(c) => exists|b: Seq<u8>| c == b64_of(b),
        None => false,
    }
}

/// Turns a snapshot into the plan of directory creations and file writes
/// that materializes it.  Fails on a file entry without content (a
/// malformed snapshot) or with content that is not base64 text.
pub fn materialize_plan(set: &StreamEntriesSet) -> (r: Result<Vec<Action>, VersionsError>)
    ensures
        r matches Ok(actions) ==> plan_matches(set@, action_views(actions@)),
        r matches Err(e) ==> (e == VersionsError::MalformedSnapshot || e
            == VersionsError::BaseDecodeError),
        entries_wf(set@) ==> !(r matches Err(e) && e == VersionsError::MalformedSnapshot),
        (forall|i: int| 0 <= i < set@.len() ==> entry_content_decodes(#[trigger] set@[i])) ==> r
            is Ok,
{
    let mut actions: Vec<Action> = Vec::new();
    let mut i: usize = 0;
    while i < set.entries.len()
        invariant
            0 <= i <= set.entries.len(),
            action_views(actions@).len() == i as int,
            forall|k: int|
                0 <= k < i ==> action_matches(#[trigger] set@[k], action_views(actions@)[k]),
        decreases set.entries.len() - i,
    {
        let ghost prev = action_views(actions@);
        let e = &set.entries[i];
        proof {
            assert(set@[i as int] == set.entries@[i as int]@);
        }
        if e.entry_type == StreamEntryType::Directory {
            actions.push(Action::MkDir(copy_bytes(&e.relative_path)));
            proof {
                assert(action_views(actions@) =~= prev.push(
                    ActionModel::MkDir(e@.relative_path),
                ));
            }
        } else {
            let content = match &e.content {
                Some(c) => c,
                None => {
                    proof {
                        assert(!entry_content_decodes(set@[i as int]));
                        assert(!crate::entry::entry_wf(set@[i as int]));
                    }
                    return Err(VersionsError::MalformedSnapshot);
                },
            };
            let raw = match b64_decode(content) {
                Ok(raw) => raw,
                Err(err) => {
                    proof {
                        assert(forall|bb: Seq<u8>| content@ != b64_of(bb));
                        assert(!entry_content_decodes(set@[i as int]));
                    }
                    return Err(err);
                },
            };
            actions.push(Action::WriteFile(copy_bytes(&e.relative_path), raw));
            proof {
                assert(action_views(actions@) =~= prev.push(
                    ActionModel::WriteFile(e@.relative_path, raw@),
                ));
                assert(action_matches(set@[i as int], action_views(actions@)[i as int]));
            }
        }
        i += 1;
    }
    Ok(actions)
}

/// The action that reproduces one raw node: its directory created, or its
/// raw bytes written back, at its own path.
pub open spec fn action_for_node(n: RawNodeModel, a: ActionModel) -> bool {
    if n.is_dir {
        a == ActionModel::MkDir(n.relative_path)
    } else {
        a == ActionModel::WriteFile(n.relative_path, n.content)
    }
}

/// Some action of the plan reproduces node `i`.
pub open spec fn node_materialized(
    nodes: Seq<RawNodeModel>,
    actions: Seq<ActionModel>,
    i: int,
) -> bool {
    exists|j: int| 0 <= j < actions.len() && action_for_node(nodes[i], #[trigger] actions[j])
}

/// Action `j` of the plan reproduces some node of the tree.
pub open spec fn action_justified(
    nodes: Seq<RawNodeModel>,
    actions: Seq<ActionModel>,
    j: int,
) -> bool {
    exists|i: int| 0 <= i < nodes.len() && action_for_node(#[trigger] nodes[i], actions[j])
}

/// Law: materializing a captured tree reproduces the tree.  The plan of the
/// canonical snapshot of a walked tree holds exactly one kind of action per
/// walked node — the same paths, the same raw file bytes, the same
/// directories — and nothing else.
pub proof fn lemma_capture_materialize_round_trip(
    nodes: Seq<RawNodeModel>,
    actions: Seq<ActionModel>,
)
    requires
        plan_matches(capture_spec(nodes), actions),
    ensures
        actions.len() == nodes.len(),
        forall|i: int| 0 <= i < nodes.len() ==> #[trigger] node_materialized(nodes, actions, i),
        forall|j: int| 0 <= j < actions.len() ==> #[trigger] action_justified(nodes, actions, j),
{
    let entries = entries_of_nodes(nodes);
    let snap = capture_spec(nodes);
    lemma_canonical_len(entries);
    assert(actions.len() == nodes.len());
    assert forall|i: int| 0 <= i < nodes.len() implies #[trigger] node_materialized(
        nodes,
        actions,
        i,
    ) by {
        let e = entry_of_node(nodes[i]);
        assert(entries[i] == e);
        lemma_canonical_contains(entries, i);
        let j = choose|j: int| 0 <= j < snap.len() && snap[j] == e;
        assert(action_matches(e, actions[j]));
        lemma_action_matches_node(nodes[i], actions[j]);
        assert(action_for_node(nodes[i], actions[j]));
    }
    assert forall|j: int| 0 <= j < actions.len() implies #[trigger] action_justified(
        nodes,
        actions,
        j,
    ) by {
        lemma_canonical_elem(entries, j);
        let e = snap[j];
        let i = choose|i: int| 0 <= i < entries.len() && entries[i] == e;
        assert(entries[i] == entry_of_node(nodes[i]));
        assert(action_matches(e, actions[j]));
        lemma_action_matches_node(nodes[i], actions[j]);
        assert(action_for_node(nodes[i], actions[j]));
    }
}

/// A matching action for a node's entry is the node's own action: base64
/// text determines the bytes it encodes.
proof fn lemma_action_matches_node(n: RawNodeModel, a: ActionModel)
    requires
        action_matches(entry_of_node(n), a),
    ensures
        action_for_node(n, a),
{
    let e = entry_of_node(n);
    if !n.is_dir {
        assert(e.content == Some(b64_of(n.content)));
        match a {
            ActionModel::WriteFile(p, b) => {
                assert(b64_of(n.content) == b64_of(n.content));
                assert(b == n.content);
            },
            _ => {
                assert(false);
            },
        }
    }
}

/// Serializes a walked tree: the canonical snapshot of its nodes, written
/// out as the snapshot document.
pub fn stream_dir(nodes: &Vec<RawNode>) -> (r: Vec<u8>)
    ensures
        r@ == crate::codec::encode_spec(capture_spec(node_views(nodes@))),
{
    let snapshot = build_snapshot(nodes);
    crate::codec::encode(&snapshot)
}

/// Reads a snapshot document back and plans the tree it describes: the
/// directory creations and file writes that reproduce it.  Fails exactly
/// when the document is malformed or some file content is not genuine
/// base64 text.
pub fn destream_dir(content: &Vec<u8>) -> (r: Result<Vec<Action>, VersionsError>)
    ensures
        match crate::codec::decode_spec(content@) {
            None => r matches Err(e) && e == VersionsError::MalformedSnapshot,
            Some(es) => {
                &&& (r matches Ok(actions) ==> plan_matches(es, action_views(actions@)))
                &&& (r matches Err(e) ==> e == VersionsError::BaseDecodeError)
                &&& ((forall|i: int|
                    0 <= i < es.len() ==> entry_content_decodes(#[trigger] es[i])) ==> r is Ok)
            },
        },
{
    let snapshot = match crate::codec::decode(content) {
        Ok(set) => set,
        Err(e) => {
            return Err(e);
        },
    };
    proof {
        assert(crate::codec::decode_spec(content@) == Some(snapshot@));
        assert(crate::entry::entries_wf(snapshot@));
    }
    let plan = materialize_plan(&snapshot);
    proof {
        let es = crate::codec::decode_spec(content@)->Some_0;
        assert(es == snapshot@);
        assert(plan matches Ok(actions) ==> plan_matches(es, action_views(actions@)));
        assert(plan matches Err(e) ==> e == VersionsError::BaseDecodeError);
        assert((forall|i: int| 0 <= i < es.len() ==> entry_content_decodes(#[trigger] es[i]))
            ==> plan is Ok);
    }
    plan
}

} // verus!
