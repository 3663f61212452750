//! The lookup key under which a requesting DNA files its claim for a remote
//! DNA and a permission.
use crate::types::DnaHash;
use vstd::prelude::*;
use vstd::string::StringExecFns;

verus! {

/// What `String::from_utf8_lossy` makes of a byte sequence.
pub uninterp spec fn utf8_lossy_of(b: Seq<u8>) -> Seq<char>;

/// True when every byte is below 0x80.
pub open spec fn is_ascii_bytes(b: Seq<u8>) -> bool {
    forall|i: int| 0 <= i < b.len() ==> b[i] < 0x80
}

/// Relies on `String::from_utf8_lossy`: the text depends on the bytes alone,
/// and ASCII bytes, being valid UTF-8, decode one character per byte.
#[verifier::external_body]
fn utf8_lossy(b: &[u8]) -> (r: String)
    ensures
        r@ == utf8_lossy_of(b@),
        is_ascii_bytes(b@) ==> r@ == b@.map_values(|c: u8| c as char),
{
    String::from_utf8_lossy(b).into_owned()
}

/// The tag for a DNA and a permission: the permission ID, a colon, and the
/// DNA hash's bytes read as UTF-8.
pub open spec fn tag_of(dna: Seq<u8>, permission_id: Seq<char>) -> Seq<char> {
    permission_id + seq![':'] + utf8_lossy_of(dna)
}

/// Joins a permission ID and the text of a DNA hash into a tag.
pub fn join_tag(permission_id: &str, dna_text: &str) -> (r: String)
    ensures
        r@ == permission_id@ + seq![':'] + dna_text@,
{
    let mut s = String::from_str(permission_id);
    s.append(":");
    s.append(dna_text);
    proof {
        reveal_strlit(":");
    }
    s
}

/// Builds the claim tag for a remote DNA and a permission ID. A hash made of
/// ASCII bytes reads as one character per byte.
pub fn get_tag_for_auth(dna: &DnaHash, permission_id: &str) -> (r: String)
    ensures
        r@ == tag_of(dna@, permission_id@),
        is_ascii_bytes(dna@) ==> utf8_lossy_of(dna@) == dna@.map_values(|c: u8| c as char),
{
    let dna_text = utf8_lossy(dna.bytes.as_slice());
    join_tag(permission_id, dna_text.as_str())
}

/// Whether a permission ID is free of the separator that a tag puts after it.
pub open spec fn no_separator(permission_id: Seq<char>) -> bool {
    !permission_id.contains(':')
}

/// Tags are equal exactly when both inputs agree: for permission IDs without
/// a colon, two tags are equal if and only if the permission IDs are equal and
/// the DNA hashes read as the same text. The same inputs always give the same tag.
pub proof fn lemma_tag_injective(dna_a: Seq<u8>, perm_a: Seq<char>, dna_b: Seq<u8>, perm_b: Seq<char>)
    requires
        no_separator(perm_a),
        no_separator(perm_b),
    ensures
        (tag_of(dna_a, perm_a) == tag_of(dna_b, perm_b)) <==> (perm_a == perm_b && utf8_lossy_of(dna_a) == utf8_lossy_of(
            dna_b,
        )),
{
    let tag_a = tag_of(dna_a, perm_a);
    let tag_b = tag_of(dna_b, perm_b);
    if tag_a == tag_b {
        if perm_a.len() < perm_b.len() {
            assert(tag_a[perm_a.len() as int] == ':');
            assert(tag_b[perm_a.len() as int] == perm_b[perm_a.len() as int]);
            assert(perm_b.contains(perm_b[perm_a.len() as int]));
        } else if perm_b.len() < perm_a.len() {
            assert(tag_b[perm_b.len() as int] == ':');
            assert(tag_a[perm_b.len() as int] == perm_a[perm_b.len() as int]);
            assert(perm_a.contains(perm_a[perm_b.len() as int]));
        }
        assert(perm_a.len() == perm_b.len());
        assert(perm_a =~= tag_a.subrange(0, perm_a.len() as int));
        assert(perm_b =~= tag_b.subrange(0, perm_b.len() as int));
        let k: int = perm_a.len() as int + 1;
        assert(utf8_lossy_of(dna_a) =~= tag_a.subrange(k, tag_a.len() as int));
        assert(utf8_lossy_of(dna_b) =~= tag_b.subrange(k, tag_b.len() as int));
    }
}

/// For DNA hashes made of ASCII bytes, which read as one character per byte
/// (as `utf8_lossy` ensures), tags are equal exactly when both the hashes and
/// the permission IDs without a colon are equal.
pub proof fn lemma_tag_distinguishes_ascii(dna_a: Seq<u8>, dna_b: Seq<u8>, perm_a: Seq<char>, perm_b: Seq<char>)
    requires
        no_separator(perm_a),
        no_separator(perm_b),
        is_ascii_bytes(dna_a),
        is_ascii_bytes(dna_b),
        utf8_lossy_of(dna_a) == dna_a.map_values(|c: u8| c as char),
        utf8_lossy_of(dna_b) == dna_b.map_values(|c: u8| c as char),
    ensures
        (tag_of(dna_a, perm_a) == tag_of(dna_b, perm_b)) <==> (perm_a == perm_b && dna_a == dna_b),
{
    lemma_tag_injective(dna_a, perm_a, dna_b, perm_b);
    let text_a = dna_a.map_values(|c: u8| c as char);
    let text_b = dna_b.map_values(|c: u8| c as char);
    if text_a == text_b {
        assert forall|i: int| 0 <= i < dna_a.len() implies dna_a[i] == dna_b[i] by {
            assert(text_a[i] == text_b[i]);
            assert(dna_a[i] < 0x80 && dna_b[i] < 0x80);
            assert((dna_a[i] as char) == (dna_b[i] as char));
        }
        assert(dna_a =~= dna_b);
    }
}

} // verus!
