//! The content locator: deriving the storage key of a version's object.
//!
//! A version's stored object lives in a flat objects directory under a name
//! derived from the pair (module working-directory name, version name): the
//! two joined with a separator byte, digested, and the digest rendered as
//! lowercase hexadecimal.  The key is a pure function of the pair, which is
//! what makes saving overwrite rather than append; it is only ever used as
//! a lookup name and never parsed back.

use crate::bytes::copy_bytes;
use crate::bytes::push_bytes;
use crate::version::Version;
use crate::version::VersionModel;
use sha2::Digest;
use sha2::Sha256;
use vstd::prelude::*;

verus! {

/// The byte joining the module directory to the version name, `#`.
pub const KEY_SEPARATOR: u8 = 35;

/// The path separator byte, `/`.
pub const PATH_SEP: u8 = 47;

/// The digest of a byte sequence.
pub uninterp spec fn sha256_of(b: Seq<u8>) -> Seq<u8>;

/// Relies on sha2's `Sha256::digest`: a 32-byte digest that depends on the
/// input bytes alone.
#[verifier::external_body]
fn sha256(data: &Vec<u8>) -> (r: Vec<u8>)
    ensures
        r@ == sha256_of(data@),
        r@.len() == 32,
{
    Sha256::digest(data).to_vec()
}

/// The lowercase hexadecimal digit of a value below sixteen.
pub open spec fn hex_digit(n: int) -> u8 {
    if n < 10 {
        (48 + n) as u8
    } else {
        (87 + n) as u8
    }
}

/// The lowercase hexadecimal rendering of a byte sequence, two digits per
/// byte.
pub open spec fn hex_of(b: Seq<u8>) -> Seq<u8>
    decreases b.len(),
{
    if b.len() == 0 {
        Seq::empty()
    } else {
        seq![hex_digit(b.first() as int / 16), hex_digit(b.first() as int % 16)] + hex_of(
            b.drop_first(),
        )
    }
}

/// Rendering one more byte appends its two digits.
proof fn lemma_hex_push(b: Seq<u8>, x: u8)
    ensures
        hex_of(b.push(x)) == hex_of(b) + seq![hex_digit(x as int / 16), hex_digit(x as int % 16)],
    decreases b.len(),
{
    let d = seq![hex_digit(x as int / 16), hex_digit(x as int % 16)];
    if b.len() == 0 {
        assert(b.push(x).first() == x);
        assert(b.push(x).drop_first() =~= Seq::<u8>::empty());
        assert(hex_of(b.push(x).drop_first()) == Seq::<u8>::empty());
        assert(d + Seq::<u8>::empty() =~= d);
        assert(Seq::<u8>::empty() + d =~= d);
    } else {
        assert(b.push(x).first() == b.first());
        assert(b.push(x).drop_first() =~= b.drop_first().push(x));
        lemma_hex_push(b.drop_first(), x);
        let h = seq![hex_digit(b.first() as int / 16), hex_digit(b.first() as int % 16)];
        assert(h + (hex_of(b.drop_first()) + d) =~= (h + hex_of(b.drop_first())) + d);
    }
}

/// Renders bytes as lowercase hexadecimal.
pub fn to_hex(b: &Vec<u8>) -> (r: Vec<u8>)
    ensures
        r@ == hex_of(b@),
{
    let mut r: Vec<u8> = Vec::new();
    let mut i: usize = 0;
    while i < b.len()
        invariant
            0 <= i <= b.len(),
            r@ == hex_of(b@.take(i as int)),
        decreases b.len() - i,
    {
        let hi = b[i] / 16;
        let lo = b[i] % 16;
        let hd: u8 = if hi < 10 {
            48 + hi
        } else {
            87 + hi
        };
        let ld: u8 = if lo < 10 {
            48 + lo
        } else {
            87 + lo
        };
        proof {
            lemma_hex_push(b@.take(i as int), b@[i as int]);
            assert(b@.take(i as int).push(b@[i as int]) =~= b@.take(i as int + 1));
            assert(hd == hex_digit(b@[i as int] as int / 16));
            assert(ld == hex_digit(b@[i as int] as int % 16));
        }
        r.push(hd);
        r.push(ld);
        proof {
            assert(r@ =~= hex_of(b@.take(i as int)) + seq![hd, ld]);
        }
        i += 1;
    }
    proof {
        assert(b@.take(b@.len() as int) =~= b@);
    }
    r
}

/// The identity text a storage key is derived from: the module directory
/// and the version name joined by the separator byte.
pub open spec fn key_input_spec(module_dir: Seq<u8>, version_name: Seq<u8>) -> Seq<u8> {
    module_dir + seq![KEY_SEPARATOR] + version_name
}

/// The storage key of an identity pair: the hexadecimal digest of its
/// identity text.
pub open spec fn object_key_spec(module_dir: Seq<u8>, version_name: Seq<u8>) -> Seq<u8> {
    hex_of(sha256_of(key_input_spec(module_dir, version_name)))
}

/// The identity text of a version: its module's directory name and its own
/// name, joined by the separator byte.
pub fn get_file_name(version: &Version) -> (r: Vec<u8>)
    ensures
        r@ == key_input_spec(version@.module.module_dir, version@.name),
{
    let mut r = copy_bytes(&version.module.module_dir);
    r.push(KEY_SEPARATOR);
    push_bytes(&mut r, &version.name);
    proof {
        assert(r@ =~= key_input_spec(version@.module.module_dir, version@.name));
    }
    r
}

/// Derives the storage key of an identity pair: the lowercase hexadecimal
/// digest of its identity text.  The key is a pure function of the pair, so
/// saving the same version always lands on the same object file.
pub fn object_key(module_dir: &Vec<u8>, version_name: &Vec<u8>) -> (r: Vec<u8>)
    ensures
        r@ == object_key_spec(module_dir@, version_name@),
{
    let mut ident = copy_bytes(module_dir);
    ident.push(KEY_SEPARATOR);
    push_bytes(&mut ident, version_name);
    proof {
        assert(ident@ =~= key_input_spec(module_dir@, version_name@));
    }
    let digest = sha256(&ident);
    to_hex(&digest)
}

/// Law: the storage key is a pure function of the identity pair — computing
/// it twice for the same pair gives the same key.
pub proof fn lemma_object_key_deterministic(
    dir1: Seq<u8>,
    name1: Seq<u8>,
    dir2: Seq<u8>,
    name2: Seq<u8>,
)
    requires
        dir1 == dir2,
        name1 == name2,
    ensures
        object_key_spec(dir1, name1) == object_key_spec(dir2, name2),
{
}

/// Law: identity texts of distinct pairs differ, provided the module
/// directory names are free of the separator byte; so distinct pairs can
/// collide only through the digest itself.
pub proof fn lemma_key_input_injective(
    dir1: Seq<u8>,
    name1: Seq<u8>,
    dir2: Seq<u8>,
    name2: Seq<u8>,
)
    requires
        !crate::bytes::contains_byte(dir1, KEY_SEPARATOR),
        !crate::bytes::contains_byte(dir2, KEY_SEPARATOR),
        key_input_spec(dir1, name1) == key_input_spec(dir2, name2),
    ensures
        dir1 == dir2,
        name1 == name2,
{
    let s1 = key_input_spec(dir1, name1);
    let s2 = key_input_spec(dir2, name2);
    assert(s1[dir1.len() as int] == KEY_SEPARATOR);
    assert(s2[dir2.len() as int] == KEY_SEPARATOR);
    if dir1.len() < dir2.len() {
        assert(s2[dir1.len() as int] == dir2[dir1.len() as int]);
        assert(crate::bytes::contains_byte(dir2, KEY_SEPARATOR));
    } else if dir2.len() < dir1.len() {
        assert(s1[dir2.len() as int] == dir1[dir2.len() as int]);
        assert(crate::bytes::contains_byte(dir1, KEY_SEPARATOR));
    }
    assert(dir1.len() == dir2.len());
    assert(dir1 =~= dir2) by {
        assert(forall|i: int| 0 <= i < dir1.len() ==> s1[i] == dir1[i] && s2[i] == dir2[i]);
    }
    assert(s1.len() == dir1.len() + 1 + name1.len());
    assert(s2.len() == dir2.len() + 1 + name2.len());
    assert(name1.len() == name2.len());
    assert forall|i: int| 0 <= i < name1.len() implies name1[i] == name2[i] by {
        assert(s1[dir1.len() + 1 + i] == name1[i]);
        assert(s2[dir2.len() + 1 + i] == name2[i]);
    }
    assert(name1 =~= name2);
}

/// The name of the repository's internal directory, `.versions`.
pub open spec fn repository_dir_name() -> Seq<u8> {
    seq![46u8, 118u8, 101u8, 114u8, 115u8, 105u8, 111u8, 110u8, 115u8]
}

/// The name of the objects directory inside the internal directory.
pub open spec fn objects_dir_name() -> Seq<u8> {
    seq![111u8, 98u8, 106u8, 101u8, 99u8, 116u8, 115u8]
}

/// Writes the repository internal directory name.
pub fn repository_dir_vec() -> (r: Vec<u8>)
    ensures
        r@ == repository_dir_name(),
{
    let mut r: Vec<u8> = Vec::new();
    r.push(46);
    r.push(118);
    r.push(101);
    r.push(114);
    r.push(115);
    r.push(105);
    r.push(111);
    r.push(110);
    r.push(115);
    proof {
        assert(r@ =~= repository_dir_name());
    }
    r
}

/// Writes the objects directory name.
pub fn objects_dir_vec() -> (r: Vec<u8>)
    ensures
        r@ == objects_dir_name(),
{
    let mut r: Vec<u8> = Vec::new();
    r.push(111);
    r.push(98);
    r.push(106);
    r.push(101);
    r.push(99);
    r.push(116);
    r.push(115);
    proof {
        assert(r@ =~= objects_dir_name());
    }
    r
}

/// The path of a version's stored object: the objects directory under the
/// repository's internal directory, then the version's storage key.
pub open spec fn object_file_path_spec(v: VersionModel) -> Seq<u8> {
    v.module.repository_path + seq![PATH_SEP] + repository_dir_name() + seq![PATH_SEP]
        + objects_dir_name() + seq![PATH_SEP] + object_key_spec(v.module.module_dir, v.name)
}

/// Computes the on-disk path of a version's stored object.
pub fn get_version_object_file_path(version: &Version) -> (r: Vec<u8>)
    ensures
        r@ == object_file_path_spec(version@),
{
    let key = object_key(&version.module.module_dir, &version.name);
    let mut r = copy_bytes(&version.module.repository_path);
    r.push(PATH_SEP);
    let rd = repository_dir_vec();
    push_bytes(&mut r, &rd);
    r.push(PATH_SEP);
    let od = objects_dir_vec();
    push_bytes(&mut r, &od);
    r.push(PATH_SEP);
    push_bytes(&mut r, &key);
    proof {
        assert(r@ =~= object_file_path_spec(version@));
    }
    r
}

/// The working-tree path of a version: its module directory under the
/// repository root.
pub open spec fn working_tree_path_spec(v: VersionModel) -> Seq<u8> {
    v.module.repository_path + seq![PATH_SEP] + v.module.module_dir
}

/// Computes the working-tree path of a version.
pub fn get_working_tree_path(version: &Version) -> (r: Vec<u8>)
    ensures
        r@ == working_tree_path_spec(version@),
{
    let mut r = copy_bytes(&version.module.repository_path);
    r.push(PATH_SEP);
    push_bytes(&mut r, &version.module.module_dir);
    proof {
        assert(r@ =~= working_tree_path_spec(version@));
    }
    r
}

} // verus!
