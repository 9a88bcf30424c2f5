//! The branch key at rest and in diagnostics: the text form of a protected
//! key, how a stored key is read back, and how a key is masked.
use vstd::prelude::*;
use vstd::utf8::{decode_utf8, encode_scalar, encode_utf8, encode_utf8_decode_utf8, is_char_boundary};
use crate::text::{append_str, is_blank, is_blank_str, owned, starts_with, trim, trim_spec};
use vstd::string::StrSliceExecFns;
use vstd::string::StringSliceAdditionalSpecFns;

verus! {

// ---------------------------------------------------------------------------
// Masking
// ---------------------------------------------------------------------------

/// UTF-8 bytes of a concatenation are the bytes of its parts.
pub proof fn lemma_encode_utf8_concat(a: Seq<char>, b: Seq<char>)
    ensures
        encode_utf8(a + b) == encode_utf8(a) + encode_utf8(b),
    decreases a.len(),
{
    if a.len() == 0 {
        assert(a + b =~= b);
        assert(encode_utf8(a) =~= Seq::<u8>::empty());
        assert(encode_utf8(a) + encode_utf8(b) =~= encode_utf8(b));
    } else {
        assert((a + b).drop_first() =~= a.drop_first() + b);
        assert((a + b)[0] == a[0]);
        lemma_encode_utf8_concat(a.drop_first(), b);
        assert(encode_utf8(a + b) == encode_scalar(a[0] as u32) + encode_utf8(a.drop_first() + b));
        assert(encode_utf8(a) + encode_utf8(b) =~= encode_scalar(a[0] as u32) + (encode_utf8(
            a.drop_first(),
        ) + encode_utf8(b)));
    }
}

/// The UTF-8 bytes of a key once trimmed.
pub open spec fn trimmed_key_bytes(key: Seq<char>) -> Seq<u8> {
    encode_utf8(trim_spec(key))
}

/// A key can be masked: either it is short, or its first three and last
/// three bytes each end and start at a character boundary (else taking them
/// out of the text would panic).
pub open spec fn maskable(key: Seq<char>) -> bool {
    let b = trimmed_key_bytes(key);
    b.len() <= 6 || (is_char_boundary(b, 3) && is_char_boundary(b, b.len() - 3))
}

/// Whether a key can be masked.
pub fn is_maskable(key: &str) -> (b: bool)
    ensures
        b == maskable(key@),
{
    let t = trim(key);
    let n = t.as_bytes().len();
    assert(t.spec_bytes() == trimmed_key_bytes(key@));
    n <= 6 || (t.is_char_boundary(3) && t.is_char_boundary(n - 3))
}

/// The UTF-8 bytes of the mask of a key: `****` for a key of at most six
/// bytes once trimmed, else its first three bytes, `…`, and its last three.
pub open spec fn mask_bytes(key: Seq<char>) -> Seq<u8> {
    let b = trimmed_key_bytes(key);
    if b.len() <= 6 {
        encode_utf8("****"@)
    } else {
        b.subrange(0, 3) + encode_utf8("…"@) + b.subrange(b.len() - 3, b.len() as int)
    }
}

/// The text of the mask of a key: the characters whose UTF-8 bytes are
/// `mask_bytes(key)`.
pub open spec fn mask_text(key: Seq<char>) -> Seq<char> {
    decode_utf8(mask_bytes(key))
}

/// Mask of a key for logs and diagnostics: it never shows more than the
/// first three and the last three bytes of the trimmed key.
pub fn mask_key(key: &str) -> (r: String)
    requires
        maskable(key@),
    ensures
        encode_utf8(r@) == mask_bytes(key@),
        r@ == mask_text(key@),
        trimmed_key_bytes(key@).len() <= 6 ==> r@ == "****"@,
{
    let t = trim(key);
    let n = t.as_bytes().len();
    assert(t.spec_bytes() == trimmed_key_bytes(key@));
    if n <= 6 {
        let r = owned("****");
        proof {
            encode_utf8_decode_utf8(r@);
        }
        return r;
    }
    let (head, _) = t.split_at(3);
    let (_, tail) = t.split_at(n - 3);
    let mut r = owned(head);
    append_str(&mut r, "…");
    append_str(&mut r, tail);
    proof {
        lemma_encode_utf8_concat(head@, "…"@);
        lemma_encode_utf8_concat(head@ + "…"@, tail@);
        assert(r@ == head@ + "…"@ + tail@);
        encode_utf8_decode_utf8(r@);
    }
    r
}

/// A key that is longer than nine bytes once trimmed never appears in its
/// mask, which is at most nine bytes long.
pub proof fn law_mask_is_shorter_than_key(key: Seq<char>)
    requires
        trimmed_key_bytes(key).len() > 9,
    ensures
        mask_bytes(key).len() == 9,
        mask_bytes(key).len() < trimmed_key_bytes(key).len(),
{
    reveal_strlit("…");
    assert(encode_utf8("…"@).len() == 3) by {
        let e = "…"@;
        assert(e.len() == 1);
        assert(e[0] == '…');
        assert(e[0] as u32 == 0x2026u32);
        assert(e.drop_first() =~= Seq::<char>::empty());
        assert(encode_utf8(e.drop_first()) =~= Seq::<u8>::empty());
        assert(encode_scalar(0x2026u32).len() == 3);
    }
}

/// `needle` occurs in `hay` at byte `at`.
pub open spec fn bytes_at(hay: Seq<u8>, needle: Seq<u8>, at: int) -> bool {
    0 <= at && at + needle.len() <= hay.len() && hay.subrange(at, at + needle.len()) == needle
}

proof fn lemma_ellipsis_bytes()
    ensures
        encode_utf8("…"@) == seq![0xE2u8, 0x80u8, 0xA6u8],
{
    reveal_strlit("…");
    let e = "…"@;
    assert(e.len() == 1);
    assert(e[0] as u32 == 0x2026u32);
    assert(e.drop_first() =~= Seq::<char>::empty());
    assert(encode_utf8(e.drop_first()) =~= Seq::<u8>::empty());
    assert(0xE0u8 | ((0x2026u32 >> 12u32) & 0x0Fu32) as u8 == 0xE2u8) by (bit_vector);
    assert(0x80u8 | ((0x2026u32 >> 6u32) & 0x3Fu32) as u8 == 0x80u8) by (bit_vector);
    assert(0x80u8 | (0x2026u32 & 0x3Fu32) as u8 == 0xA6u8) by (bit_vector);
    assert(encode_scalar(0x2026u32) =~= seq![0xE2u8, 0x80u8, 0xA6u8]);
    assert(encode_utf8(e) =~= encode_scalar(0x2026u32));
}

/// The mask of a key longer than six bytes never holds the whole key,
/// unless the key itself holds the `…` that the mask puts in its middle.
pub proof fn law_mask_never_shows_key(key: Seq<char>, at: int)
    requires
        trimmed_key_bytes(key).len() > 6,
        forall|i: int| !bytes_at(trimmed_key_bytes(key), encode_utf8("…"@), i),
    ensures
        !bytes_at(mask_bytes(key), trimmed_key_bytes(key), at),
{
    lemma_ellipsis_bytes();
    let b = trimmed_key_bytes(key);
    let m = mask_bytes(key);
    let e = encode_utf8("…"@);
    let n = b.len() as int;
    assert(m.len() == 9);
    if bytes_at(m, b, at) {
        let j = 3 - at;
        assert(0 <= at <= 2);
        assert forall|k: int| 0 <= k < 3 implies #[trigger] b.subrange(j, j + 3)[k] == e[k] by {
            assert(m.subrange(at, at + n)[j + k] == m[at + j + k]);
            assert(m[3 + k] == e[k]);
        }
        assert(b.subrange(j, j + 3) =~= e);
        assert(bytes_at(b, e, j));
    }
}

/// A key of at most six bytes is masked entirely: the mask is the same
/// whatever the key.
pub proof fn law_short_key_fully_hidden(k1: Seq<char>, k2: Seq<char>)
    requires
        trimmed_key_bytes(k1).len() <= 6,
        trimmed_key_bytes(k2).len() <= 6,
    ensures
        mask_bytes(k1) == mask_bytes(k2),
{
}

// ---------------------------------------------------------------------------
// Base64 (the `base64` crate, standard alphabet with padding)
// ---------------------------------------------------------------------------

/// What `base64::engine::general_purpose::STANDARD.encode` gives for `bytes`.
pub uninterp spec fn base64_encoding(bytes: Seq<u8>) -> Seq<char>;

/// What `base64::engine::general_purpose::STANDARD.decode` gives for `text`:
/// the bytes, or `None` when the text is not valid base64.
pub uninterp spec fn base64_decoding(text: Seq<char>) -> Option<Seq<u8>>;

#[verifier::external_type_specification]
#[verifier::external_body]
pub struct ExDecodeError(base64::DecodeError);

/// `base64::Engine::encode` with the standard engine. Its result is named,
/// and decoding it gives back the bytes.
#[verifier::external_body]
fn base64_encode(bytes: &[u8]) -> (r: String)
    ensures
        r@ == base64_encoding(bytes@),
        base64_decoding(r@) == Some(bytes@),
{
    base64::Engine::encode(&base64::engine::general_purpose::STANDARD, bytes)
}

/// `base64::Engine::decode` with the standard engine: the decoded bytes, or
/// the crate's error when `text` is not valid base64.
#[verifier::external_body]
fn base64_decode(text: &str) -> (r: Result<Vec<u8>, base64::DecodeError>)
    ensures
        match r {
            Ok(b) => base64_decoding(text@) == Some(b@),
            Err(_) => base64_decoding(text@) is None,
        },
{
    base64::Engine::decode(&base64::engine::general_purpose::STANDARD, text)
}

// ---------------------------------------------------------------------------
// The key at rest
// ---------------------------------------------------------------------------

/// Marks a stored key as protected by Windows DPAPI.
pub const PROTECTED_PREFIX: &'static str = "dpapi:";

/// Message when a stored protected key cannot be decoded.
pub const INVALID_PROTECTED_KEY: &'static str = "La clave protegida no es válida";

/// The text stored for a key whose protected bytes are `sealed`.
pub open spec fn protected_text(sealed: Seq<u8>) -> Seq<char> {
    PROTECTED_PREFIX@ + base64_encoding(sealed)
}

/// The text stored for a key whose protected bytes are `sealed`: the
/// prefix `dpapi:` and the bytes in base64. Read back, it holds those bytes
/// again.
pub fn protected_key_text(sealed: &[u8]) -> (r: String)
    ensures
        r@ == protected_text(sealed@),
        base64_decoding(r@.skip(PROTECTED_PREFIX@.len() as int)) == Some(sealed@),
        stored_key_meaning(r@) == Ok::<Option<Seq<u8>>, ()>(Some(sealed@)),
{
    let mut r = owned(PROTECTED_PREFIX);
    let encoded = base64_encode(sealed);
    append_str(&mut r, encoded.as_str());
    proof {
        reveal_strlit("dpapi:");
        assert(r@.skip(6) =~= encoded@);
        law_protected_key_reads_back(sealed@);
    }
    r
}

/// What is to be protected for a key entered in plain text.
#[derive(Clone, Debug)]
pub enum KeyToProtect {
    /// A blank key is stored as the empty text.
    Blank,
    /// The key's UTF-8 bytes, to hand to DPAPI.
    Bytes(Vec<u8>),
}

/// The bytes to protect for `plain`, or `Blank` when it is blank.
pub fn key_to_protect(plain: &str) -> (k: KeyToProtect)
    ensures
        is_blank(plain@) ==> k is Blank,
        !is_blank(plain@) ==> (k matches KeyToProtect::Bytes(b) && b@ == encode_utf8(plain@)),
{
    if is_blank_str(plain) {
        KeyToProtect::Blank
    } else {
        KeyToProtect::Bytes(plain.as_bytes_vec())
    }
}

/// A stored key as read back.
#[derive(Clone, Debug)]
pub enum StoredKey {
    /// Nothing stored: the key is empty.
    Empty,
    /// A key stored before protection existed: used as it is.
    Plain(String),
    /// Bytes protected by DPAPI, to unprotect.
    Sealed(Vec<u8>),
}

/// What a stored key text holds: nothing when blank, the protected bytes
/// when it has the `dpapi:` prefix (an error when they are not valid
/// base64), the text itself otherwise.
pub open spec fn stored_key_meaning(stored: Seq<char>) -> Result<Option<Seq<u8>>, ()> {
    if is_blank(stored) {
        Ok(None)
    } else if PROTECTED_PREFIX@.is_prefix_of(stored) {
        match base64_decoding(stored.skip(PROTECTED_PREFIX@.len() as int)) {
            Some(b) => Ok(Some(b)),
            None => Err(()),
        }
    } else {
        Ok(None)
    }
}

/// Reads a stored key text.
pub fn read_stored_key(stored: &str) -> (r: Result<StoredKey, String>)
    ensures
        match r {
            Ok(StoredKey::Empty) => is_blank(stored@),
            Ok(StoredKey::Plain(s)) => !is_blank(stored@) && !PROTECTED_PREFIX@.is_prefix_of(stored@)
                && s@ == stored@,
            Ok(StoredKey::Sealed(b)) => !is_blank(stored@) && PROTECTED_PREFIX@.is_prefix_of(
                stored@,
            ) && base64_decoding(stored@.skip(6)) == Some(b@),
            Err(e) => !is_blank(stored@) && PROTECTED_PREFIX@.is_prefix_of(stored@)
                && base64_decoding(stored@.skip(6)) is None && e@ == INVALID_PROTECTED_KEY@,
        },
        stored_key_meaning(stored@) matches Ok(Some(m)) ==> (r matches Ok(StoredKey::Sealed(b))
            && b@ == m),
        r is Err <==> stored_key_meaning(stored@) is Err,
{
    if is_blank_str(stored) {
        return Ok(StoredKey::Empty);
    }
    if !starts_with(stored, PROTECTED_PREFIX) {
        return Ok(StoredKey::Plain(owned(stored)));
    }
    proof {
        reveal_strlit("dpapi:");
    }
    let n = stored.unicode_len();
    let encoded = stored.substring_char(6, n);
    assert(encoded@ =~= stored@.skip(6));
    match base64_decode(encoded) {
        Ok(b) => Ok(StoredKey::Sealed(b)),
        Err(_) => Err(owned(INVALID_PROTECTED_KEY)),
    }
}

/// Reading back what was stored for protected bytes gives those bytes,
/// whenever the base64 text decodes to what was encoded, as every text that
/// `protected_key_text` writes does.
pub proof fn law_protected_key_reads_back(sealed: Seq<u8>)
    requires
        base64_decoding(base64_encoding(sealed)) == Some(sealed),
    ensures
        stored_key_meaning(protected_text(sealed)) == Ok::<Option<Seq<u8>>, ()>(Some(sealed)),
{
    reveal_strlit("dpapi:");
    let t = protected_text(sealed);
    assert(t.skip(6) =~= base64_encoding(sealed));
    assert(PROTECTED_PREFIX@.is_prefix_of(t));
    assert(!is_blank(t)) by {
        assert(t[0] == 'd');
    }
}

} // verus!
