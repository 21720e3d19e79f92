//! The snapshot document format.
//!
//! A snapshot is written as a line-oriented byte document.  A directory
//! entry becomes one line, `D <path>`; a file entry becomes two, `F <path>`
//! followed by `C <base64 content>`.  Paths never contain the line
//! terminator and content is base64 text, so the encoding is unambiguous:
//! decoding an encoded snapshot yields the snapshot unchanged, which is
//! proved here as [`lemma_decode_encode_round_trip`].

use crate::entry::EntryModel;
use crate::entry::StreamEntriesSet;
use crate::entry::StreamEntry;
use crate::entry::StreamEntryType;
use crate::entry::entries_wf;
use crate::entry::entry_wf;
use crate::entry::is_b64_byte;
use crate::entry::views_of;
use crate::errors::VersionsError;
use vstd::prelude::*;

verus! {

/// The tag byte of a directory line, `D`.
pub const TAG_DIR: u8 = 68;

/// The tag byte of a file line, `F`.
pub const TAG_FILE: u8 = 70;

/// The tag byte of a content line, `C`.
pub const TAG_CONTENT: u8 = 67;

/// The byte separating a tag from its payload, a space.
pub const FIELD_SEP: u8 = 32;

/// The line terminator.
pub const LINE_END: u8 = 10;

/// Every byte of the sequence belongs to the base64 alphabet.
pub open spec fn all_b64(c: Seq<u8>) -> bool {
    forall|i: int| 0 <= i < c.len() ==> is_b64_byte(#[trigger] c[i])
}

/// The content of an entry, the empty sequence when it has none.
pub open spec fn content_or_empty(e: EntryModel) -> Seq<u8> {
    match e.content {
        Some(c) => c,
        None => Seq::empty(),
    }
}

/// The document lines of one entry.
pub open spec fn encode_entry_spec(e: EntryModel) -> Seq<u8> {
    if e.entry_type == StreamEntryType::Directory {
        seq![TAG_DIR, FIELD_SEP] + e.relative_path + seq![LINE_END]
    } else {
        seq![TAG_FILE, FIELD_SEP] + e.relative_path + seq![LINE_END, TAG_CONTENT, FIELD_SEP]
            + content_or_empty(e) + seq![LINE_END]
    }
}

/// The document of a whole snapshot: the lines of its entries in order.
pub open spec fn encode_spec(s: Seq<EntryModel>) -> Seq<u8>
    decreases s.len(),
{
    if s.len() == 0 {
        Seq::empty()
    } else {
        encode_entry_spec(s.first()) + encode_spec(s.drop_first())
    }
}

/// The position of the first occurrence of `b` in `s` at or after `i`.
pub open spec fn find_byte_spec(s: Seq<u8>, b: u8, i: int) -> Option<int>
    decreases s.len() - i,
{
    if i < 0 || i >= s.len() {
        None
    } else if s[i] == b {
        Some(i)
    } else {
        find_byte_spec(s, b, i + 1)
    }
}

/// One entry read from the head of a document, together with the number of
/// bytes it occupies; `None` when the head of the document is not a
/// well-formed entry.
pub open spec fn parse_entry_spec(s: Seq<u8>) -> Option<(EntryModel, int)> {
    if s.len() < 2 {
        None
    } else if s[0] != TAG_DIR && s[0] != TAG_FILE {
        None
    } else if s[1] != FIELD_SEP {
        None
    } else {
        match find_byte_spec(s, LINE_END, 2) {
            None => None,
            Some(nl1) => {
                let path = s.subrange(2, nl1);
                if path.len() == 0 {
                    None
                } else if s[0] == TAG_DIR {
                    Some(
                        (
                            EntryModel {
                                entry_type: StreamEntryType::Directory,
                                relative_path: path,
                                content: None,
                            },
                            nl1 + 1,
                        ),
                    )
                } else if nl1 + 2 >= s.len() {
                    None
                } else if s[nl1 + 1] != TAG_CONTENT || s[nl1 + 2] != FIELD_SEP {
                    None
                } else {
                    match find_byte_spec(s, LINE_END, nl1 + 3) {
                        None => None,
                        Some(nl2) => {
                            let content = s.subrange(nl1 + 3, nl2);
                            if all_b64(content) {
                                Some(
                                    (
                                        EntryModel {
                                            entry_type: StreamEntryType::File,
                                            relative_path: path,
                                            content: Some(content),
                                        },
                                        nl2 + 1,
                                    ),
                                )
                            } else {
                                None
                            }
                        },
                    }
                }
            },
        }
    }
}

/// The snapshot read from a whole document; `None` when the document is not
/// a well-formed sequence of entries.
pub open spec fn decode_spec(s: Seq<u8>) -> Option<Seq<EntryModel>>
    decreases s.len(),
{
    if s.len() == 0 {
        Some(Seq::empty())
    } else {
        match parse_entry_spec(s) {
            None => None,
            Some((e, n)) => {
                if 0 < n <= s.len() {
                    match decode_spec(s.skip(n)) {
                        None => None,
                        Some(rest) => Some(seq![e] + rest),
                    }
                } else {
                    None
                }
            },
        }
    }
}

/// A found byte characterizes `find_byte_spec`: if `s[j]` is the first
/// occurrence of `b` at or after `i`, the search returns `j`.
proof fn lemma_find_byte_found(s: Seq<u8>, b: u8, i: int, j: int)
    requires
        0 <= i <= j < s.len(),
        s[j] == b,
        forall|k: int| i <= k < j ==> s[k] != b,
    ensures
        find_byte_spec(s, b, i) == Some(j),
    decreases j - i,
{
    if i == j {
    } else {
        lemma_find_byte_found(s, b, i + 1, j);
    }
}

/// What a successful or failed search says of the bytes of `s`.
proof fn lemma_find_byte_props(s: Seq<u8>, b: u8, i: int)
    requires
        0 <= i,
    ensures
        match find_byte_spec(s, b, i) {
            Some(j) => i <= j < s.len() && s[j] == b && forall|k: int| i <= k < j ==> s[k] != b,
            None => forall|k: int| i <= k < s.len() ==> s[k] != b,
        },
    decreases s.len() - i,
{
    if i >= s.len() {
    } else if s[i] == b {
    } else {
        lemma_find_byte_props(s, b, i + 1);
    }
}

/// Parsing the head of an encoded entry followed by anything yields exactly
/// that entry and consumes exactly its encoding.
proof fn lemma_parse_encode_entry(e: EntryModel, tail: Seq<u8>)
    requires
        entry_wf(e),
    ensures
        parse_entry_spec(encode_entry_spec(e) + tail) == Some(
            (e, encode_entry_spec(e).len() as int),
        ),
{
    let enc = encode_entry_spec(e);
    let s = enc + tail;
    let plen = e.relative_path.len() as int;
    if e.entry_type == StreamEntryType::Directory {
        assert(s[0] == TAG_DIR);
        assert(s[1] == FIELD_SEP);
        assert(s[2 + plen] == LINE_END);
        assert(forall|k: int| 2 <= k < 2 + plen ==> s[k] == e.relative_path[k - 2]);
        lemma_find_byte_found(s, LINE_END, 2, 2 + plen);
        assert(s.subrange(2, 2 + plen) =~= e.relative_path);
        assert(e.content is None);
        let parsed = parse_entry_spec(s)->Some_0.0;
        assert(parsed.entry_type == e.entry_type);
        assert(parsed.relative_path == e.relative_path);
        assert(parsed.content == e.content);
        assert(enc.len() == plen + 3);
    } else {
        let c = content_or_empty(e);
        let clen = c.len() as int;
        assert(s[0] == TAG_FILE);
        assert(s[1] == FIELD_SEP);
        assert(s[2 + plen] == LINE_END);
        assert(forall|k: int| 2 <= k < 2 + plen ==> s[k] == e.relative_path[k - 2]);
        lemma_find_byte_found(s, LINE_END, 2, 2 + plen);
        assert(s.subrange(2, 2 + plen) =~= e.relative_path);
        let nl1 = 2 + plen;
        assert(s[nl1 + 1] == TAG_CONTENT);
        assert(s[nl1 + 2] == FIELD_SEP);
        assert(forall|k: int| nl1 + 3 <= k < nl1 + 3 + clen ==> s[k] == c[k - (nl1 + 3)]);
        assert(forall|k: int| nl1 + 3 <= k < nl1 + 3 + clen ==> s[k] != LINE_END);
        assert(s[nl1 + 3 + clen] == LINE_END);
        lemma_find_byte_found(s, LINE_END, nl1 + 3, nl1 + 3 + clen);
        assert(s.subrange(nl1 + 3, nl1 + 3 + clen) =~= c);
        assert(e.content == Some(c));
        let parsed = parse_entry_spec(s)->Some_0.0;
        assert(parsed.entry_type == e.entry_type);
        assert(parsed.relative_path == e.relative_path);
        assert(parsed.content == e.content);
        assert(enc.len() == plen + clen + 6);
    }
}

/// The encoding of a well-formed entry is never empty.
proof fn lemma_encode_entry_len(e: EntryModel)
    ensures
        encode_entry_spec(e).len() >= 3 + e.relative_path.len(),
{
}

/// Law: decoding an encoded snapshot yields the snapshot unchanged, for
/// every snapshot whose entries are well formed.
pub proof fn lemma_decode_encode_round_trip(s: Seq<EntryModel>)
    requires
        entries_wf(s),
    ensures
        decode_spec(encode_spec(s)) == Some(s),
    decreases s.len(),
{
    if s.len() == 0 {
        assert(encode_spec(s).len() == 0);
        assert(decode_spec(encode_spec(s)) == Some(Seq::<EntryModel>::empty()));
        assert(Seq::<EntryModel>::empty() =~= s);
    } else {
        let e = s.first();
        let rest = s.drop_first();
        let enc_e = encode_entry_spec(e);
        let enc = encode_spec(s);
        assert(entry_wf(s[0]));
        lemma_encode_entry_len(e);
        lemma_parse_encode_entry(e, encode_spec(rest));
        assert(enc == enc_e + encode_spec(rest));
        assert(enc.len() > 0);
        assert(parse_entry_spec(enc) == Some((e, enc_e.len() as int)));
        assert(enc.skip(enc_e.len() as int) =~= encode_spec(rest));
        assert(entries_wf(rest)) by {
            assert(forall|i: int| 0 <= i < rest.len() ==> rest[i] == s[i + 1]);
        }
        lemma_decode_encode_round_trip(rest);
        assert(decode_spec(enc) == Some(seq![e] + rest));
        assert(seq![e] + rest =~= s);
    }
}

/// Law: the encoding is injective on well-formed snapshots; two snapshots
/// with the same document are the same snapshot.
pub proof fn lemma_encode_injective(s1: Seq<EntryModel>, s2: Seq<EntryModel>)
    requires
        entries_wf(s1),
        entries_wf(s2),
        encode_spec(s1) == encode_spec(s2),
    ensures
        s1 == s2,
{
    lemma_decode_encode_round_trip(s1);
    lemma_decode_encode_round_trip(s2);
}

/// Appending one entry appends its lines to the document.
proof fn lemma_encode_push(s: Seq<EntryModel>, e: EntryModel)
    ensures
        encode_spec(s.push(e)) == encode_spec(s) + encode_entry_spec(e),
    decreases s.len(),
{
    if s.len() == 0 {
        assert(s.push(e).first() == e);
        assert(s.push(e).drop_first() =~= Seq::<EntryModel>::empty());
        assert(encode_spec(s.push(e).drop_first()) == Seq::<u8>::empty());
        assert(encode_entry_spec(e) + Seq::<u8>::empty() =~= encode_entry_spec(e));
        assert(Seq::<u8>::empty() + encode_entry_spec(e) =~= encode_entry_spec(e));
    } else {
        assert(s.push(e).first() == s.first());
        assert(s.push(e).drop_first() =~= s.drop_first().push(e));
        lemma_encode_push(s.drop_first(), e);
        assert(encode_entry_spec(s.first()) + (encode_spec(s.drop_first()) + encode_entry_spec(e))
            =~= (encode_entry_spec(s.first()) + encode_spec(s.drop_first())) + encode_entry_spec(
            e,
        ));
    }
}

/// Writes the document lines of one entry onto the end of `out`.
fn encode_entry_into(out: &mut Vec<u8>, e: &StreamEntry)
    ensures
        final(out)@ == old(out)@ + encode_entry_spec(e@),
{
    match e.entry_type {
        StreamEntryType::Directory => {
            out.push(TAG_DIR);
            out.push(FIELD_SEP);
            crate::bytes::push_bytes(out, &e.relative_path);
            out.push(LINE_END);
            assert(out@ =~= old(out)@ + encode_entry_spec(e@));
        },
        StreamEntryType::File => {
            out.push(TAG_FILE);
            out.push(FIELD_SEP);
            crate::bytes::push_bytes(out, &e.relative_path);
            out.push(LINE_END);
            out.push(TAG_CONTENT);
            out.push(FIELD_SEP);
            match &e.content {
                Some(c) => {
                    crate::bytes::push_bytes(out, c);
                },
                None => {},
            }
            out.push(LINE_END);
            assert(out@ =~= old(out)@ + encode_entry_spec(e@));
        },
    }
}

/// Encodes a snapshot as its document.
pub fn encode(set: &StreamEntriesSet) -> (r: Vec<u8>)
    ensures
        r@ == encode_spec(set@),
{
    let mut out: Vec<u8> = Vec::new();
    let mut i: usize = 0;
    while i < set.entries.len()
        invariant
            0 <= i <= set.entries.len(),
            out@ == encode_spec(set@.take(i as int)),
        decreases set.entries.len() - i,
    {
        proof {
            assert(set@[i as int] == set.entries@[i as int]@);
            lemma_encode_push(set@.take(i as int), set@[i as int]);
            assert(set@.take(i as int).push(set@[i as int]) =~= set@.take(i as int + 1));
        }
        encode_entry_into(&mut out, &set.entries[i]);
        i += 1;
    }
    proof {
        assert(set@.take(set@.len() as int) =~= set@);
    }
    out
}

/// Finds the first occurrence of `b` in `input` at or after `from`.
fn find_byte(input: &Vec<u8>, b: u8, from: usize) -> (r: Option<usize>)
    ensures
        match r {
            Some(j) => from <= j < input@.len() && input@[j as int] == b && forall|k: int|
                from <= k < j ==> input@[k] != b,
            None => forall|k: int| from <= k < input@.len() ==> input@[k] != b,
        },
{
    let mut i: usize = from;
    while i < input.len()
        invariant
            from <= i,
            forall|k: int| from <= k < i ==> input@[k] != b,
        decreases input.len() - i,
    {
        if input[i] == b {
            return Some(i);
        }
        i += 1;
    }
    None
}

/// Tests whether a byte belongs to the base64 alphabet.
fn b64_byte(b: u8) -> (r: bool)
    ensures
        r == is_b64_byte(b),
{
    (65 <= b && b <= 90) || (97 <= b && b <= 122) || (48 <= b && b <= 57) || b == 43 || b == 47
        || b == 61
}

/// Tests whether every byte of `c` belongs to the base64 alphabet.
fn all_b64_check(c: &Vec<u8>) -> (r: bool)
    ensures
        r == all_b64(c@),
{
    let mut i: usize = 0;
    while i < c.len()
        invariant
            0 <= i <= c@.len(),
            forall|k: int| 0 <= k < i ==> is_b64_byte(#[trigger] c@[k]),
        decreases c.len() - i,
    {
        if !b64_byte(c[i]) {
            assert(!is_b64_byte(c@[i as int]));
            return false;
        }
        i += 1;
    }
    true
}

/// Decodes a snapshot document.  Returns the snapshot it encodes, or
/// reports a malformed document.
pub fn decode(input: &Vec<u8>) -> (r: Result<StreamEntriesSet, VersionsError>)
    ensures
        match r {
            Ok(set) => decode_spec(input@) == Some(set@) && entries_wf(set@),
            Err(e) => decode_spec(input@) is None && e == VersionsError::MalformedSnapshot,
        },
{
    proof {
        lemma_decode_wf(input@);
    }
    let mut entries: Vec<StreamEntry> = Vec::new();
    let mut p: usize = 0;
    proof {
        assert(input@.skip(0) =~= input@);
        if decode_spec(input@) is Some {
            let whole = decode_spec(input@)->Some_0;
            assert(views_of(entries@) + whole =~= whole);
        }
    }
    while p < input.len()
        invariant
            0 <= p <= input@.len(),
            match decode_spec(input@.skip(p as int)) {
                Some(rest) => decode_spec(input@) == Some(views_of(entries@) + rest),
                None => decode_spec(input@) is None,
            },
        decreases input.len() - p,
    {
        let ghost head = input@.skip(p as int);
        proof {
            assert(head.len() == input@.len() - p);
            assert(forall|k: int| 0 <= k < head.len() ==> head[k] == input@[p + k]);
        }
        if input.len() - p < 2 {
            proof {
                assert(head.len() < 2);
                assert(parse_entry_spec(head) is None);
            }
            return Err(VersionsError::MalformedSnapshot);
        }
        let tag = input[p];
        if tag != TAG_DIR && tag != TAG_FILE {
            proof {
                assert(head[0] == tag);
                assert(parse_entry_spec(head) is None);
            }
            return Err(VersionsError::MalformedSnapshot);
        }
        if input[p + 1] != FIELD_SEP {
            proof {
                assert(head[1] != FIELD_SEP);
                assert(parse_entry_spec(head) is None);
            }
            return Err(VersionsError::MalformedSnapshot);
        }
        let nl1_abs = match find_byte(input, LINE_END, p + 2) {
            Some(j) => j,
            None => {
                proof {
                    lemma_find_byte_props(head, LINE_END, 2);
                    if find_byte_spec(head, LINE_END, 2) is Some {
                        let j = find_byte_spec(head, LINE_END, 2)->Some_0;
                        assert(input@[p + j] == LINE_END);
                    }
                    assert(parse_entry_spec(head) is None);
                }
                return Err(VersionsError::MalformedSnapshot);
            },
        };
        let ghost nl1 = nl1_abs - p as int;
        proof {
            lemma_find_byte_found(head, LINE_END, 2, nl1);
            assert(find_byte_spec(head, LINE_END, 2) == Some(nl1));
        }
        if nl1_abs == p + 2 {
            proof {
                assert(head.subrange(2, nl1).len() == 0);
                assert(parse_entry_spec(head) is None);
            }
            return Err(VersionsError::MalformedSnapshot);
        }
        let ghost path_spec = head.subrange(2, nl1);
        let path = crate::bytes::subrange_vec(input, p + 2, nl1_abs);
        proof {
            assert(path@ =~= path_spec);
        }
        if tag == TAG_DIR {
            let entry = StreamEntry {
                entry_type: StreamEntryType::Directory,
                relative_path: path,
                content: None,
            };
            let ghost prev = views_of(entries@);
            entries.push(entry);
            proof {
                let parsed = parse_entry_spec(head)->Some_0;
                assert(parsed.0 == entry@);
                assert(parsed.1 == nl1 + 1);
                lemma_decode_step(input@, p as int, entry@, nl1 + 1, prev);
                assert(views_of(entries@) =~= prev.push(entry@));
            }
            p = nl1_abs + 1;
        } else {
            if input.len() - nl1_abs <= 2 {
                proof {
                    assert(nl1 + 2 >= head.len());
                    assert(parse_entry_spec(head) is None);
                }
                return Err(VersionsError::MalformedSnapshot);
            }
            if input[nl1_abs + 1] != TAG_CONTENT || input[nl1_abs + 2] != FIELD_SEP {
                proof {
                    assert(head[nl1 + 1] == input@[nl1_abs + 1]);
                    assert(head[nl1 + 2] == input@[nl1_abs + 2]);
                    assert(parse_entry_spec(head) is None);
                }
                return Err(VersionsError::MalformedSnapshot);
            }
            let nl2_abs = match find_byte(input, LINE_END, nl1_abs + 3) {
                Some(j) => j,
                None => {
                    proof {
                        lemma_find_byte_props(head, LINE_END, nl1 + 3);
                        if find_byte_spec(head, LINE_END, nl1 + 3) is Some {
                            let j = find_byte_spec(head, LINE_END, nl1 + 3)->Some_0;
                            assert(input@[p + j] == LINE_END);
                        }
                        assert(parse_entry_spec(head) is None);
                    }
                    return Err(VersionsError::MalformedSnapshot);
                },
            };
            let ghost nl2 = nl2_abs - p as int;
            proof {
                lemma_find_byte_found(head, LINE_END, nl1 + 3, nl2);
                assert(find_byte_spec(head, LINE_END, nl1 + 3) == Some(nl2));
            }
            let ghost content_spec = head.subrange(nl1 + 3, nl2);
            let content = crate::bytes::subrange_vec(input, nl1_abs + 3, nl2_abs);
            proof {
                assert(content@ =~= content_spec);
            }
            if !all_b64_check(&content) {
                proof {
                    assert(!all_b64(content_spec));
                    assert(parse_entry_spec(head) is None);
                }
                return Err(VersionsError::MalformedSnapshot);
            }
            proof {
                assert(all_b64(content_spec));
            }
            let entry = StreamEntry {
                entry_type: StreamEntryType::File,
                relative_path: path,
                content: Some(content),
            };
            let ghost prev = views_of(entries@);
            entries.push(entry);
            proof {
                let parsed = parse_entry_spec(head)->Some_0;
                assert(parsed.0.relative_path == entry@.relative_path);
                assert(parsed.0.content == entry@.content);
                assert(parsed.0 == entry@);
                assert(parsed.1 == nl2 + 1);
                lemma_decode_step(input@, p as int, entry@, nl2 + 1, prev);
                assert(views_of(entries@) =~= prev.push(entry@));
            }
            p = nl2_abs + 1;
        }
    }
    proof {
        assert(input@.skip(p as int) =~= Seq::<u8>::empty());
        assert(decode_spec(input@.skip(p as int)) == Some(Seq::<EntryModel>::empty()));
        assert(views_of(entries@) + Seq::<EntryModel>::empty() =~= views_of(entries@));
    }
    Ok(StreamEntriesSet { entries })
}

/// One decoding step: when the head of the remaining document parses as
/// entry `e` of `n` bytes, decoding the whole document equals decoding what
/// remains after those bytes, with `e` appended to the entries seen so far.
proof fn lemma_decode_step(input: Seq<u8>, p: int, e: EntryModel, n: int, prev: Seq<EntryModel>)
    requires
        0 <= p,
        p + n <= input.len(),
        0 < n,
        parse_entry_spec(input.skip(p)) == Some((e, n)),
        match decode_spec(input.skip(p)) {
            Some(rest) => decode_spec(input) == Some(prev + rest),
            None => decode_spec(input) is None,
        },
    ensures
        match decode_spec(input.skip(p + n)) {
            Some(rest2) => decode_spec(input) == Some(prev.push(e) + rest2),
            None => decode_spec(input) is None,
        },
{
    let head = input.skip(p);
    assert(head.len() > 0);
    assert(head.skip(n) =~= input.skip(p + n));
    match decode_spec(input.skip(p + n)) {
        Some(rest2) => {
            assert(decode_spec(head) == Some(seq![e] + rest2));
            assert(prev + (seq![e] + rest2) =~= prev.push(e) + rest2);
        },
        None => {
            assert(decode_spec(head) is None);
        },
    }
}

/// Every entry a parse yields is well formed.
proof fn lemma_parse_entry_wf(s: Seq<u8>)
    ensures
        parse_entry_spec(s) matches Some(pr) ==> entry_wf(pr.0),
{
    if parse_entry_spec(s) is Some {
        let pr = parse_entry_spec(s)->Some_0;
        lemma_find_byte_props(s, LINE_END, 2);
        let nl1 = find_byte_spec(s, LINE_END, 2)->Some_0;
        assert(forall|k: int|
            0 <= k < pr.0.relative_path.len() ==> pr.0.relative_path[k] == s[2 + k]);
        if s[0] == TAG_FILE {
            lemma_find_byte_props(s, LINE_END, nl1 + 3);
        }
    }
}

/// Every snapshot a decode yields has only well-formed entries.
pub proof fn lemma_decode_wf(s: Seq<u8>)
    ensures
        decode_spec(s) matches Some(es) ==> entries_wf(es),
    decreases s.len(),
{
    if s.len() == 0 {
    } else {
        match parse_entry_spec(s) {
            None => {},
            Some((e, n)) => {
                if 0 < n <= s.len() {
                    lemma_parse_entry_wf(s);
                    lemma_decode_wf(s.skip(n));
                    if decode_spec(s.skip(n)) is Some {
                        let rest = decode_spec(s.skip(n))->Some_0;
                        let es = seq![e] + rest;
                        assert forall|i: int| 0 <= i < es.len() implies entry_wf(
                            #[trigger] es[i],
                        ) by {
                            if i == 0 {
                                assert(es[0] == e);
                            } else {
                                assert(es[i] == rest[i - 1]);
                                assert(entry_wf(rest[i - 1]));
                            }
                        }
                    }
                }
            },
        }
    }
}

} // verus!
