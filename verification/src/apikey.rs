//! The DeepSeek API key: how it is kept in the local fallback file (XOR
//! obfuscated, so that it never lies on disk as readable text), which stored
//! value counts, and how it is shown to the user.
//!
//! The file and the system keyring are read and written by the caller; this
//! module decides what is written and what a read means.
use vstd::prelude::*;

use crate::text::{chars_of, owned, push_chars, push_str, slice_chars, string_from_chars, trim_chars};

verus! {

// ---------------------------------------------------------------------------
// The obfuscation mask
// ---------------------------------------------------------------------------
/// The bytes of `DSonDT/v1/local-apikey-mask`. XOR with them is no encryption:
/// it only keeps the key from being readable at a glance.
pub const MASK: [u8; 27] = [
    68, 83, 111, 110, 68, 84, 47, 118, 49, 47, 108, 111, 99, 97, 108, 45, 97, 112, 105, 107,
    101, 121, 45, 109, 97, 115, 107,
];

/// `data` with each byte XORed with the mask byte at the same position,
/// the mask repeating.
pub open spec fn masked(data: Seq<u8>) -> Seq<u8> {
    Seq::new(data.len(), |i: int| data[i] ^ MASK@[i % 27])
}

/// XORs `data` with the repeating mask (see `masked`).
pub fn mask_bytes(data: &[u8]) -> (res: Vec<u8>)
    ensures
        res@ == masked(data@),
{
    let mut out: Vec<u8> = Vec::new();
    let mut i: usize = 0;
    while i < data.len()
        invariant
            i <= data.len(),
            out.len() == i,
            forall|j: int| 0 <= j < i ==> #[trigger] out@[j] == data@[j] ^ MASK@[j % 27],
        decreases data.len() - i,
    {
        let b = data[i] ^ MASK[i % 27];
        out.push(b);
        i = i + 1;
    }
    assert(out@ =~= masked(data@));
    out
}

/// Masking twice gives the data back.
pub proof fn lemma_mask_involution(data: Seq<u8>)
    ensures
        masked(masked(data)) == data,
{
    let once = masked(data);
    assert forall|i: int| 0 <= i < data.len() implies #[trigger] masked(once)[i] == data[i] by {
        let a = data[i];
        let m = MASK@[i % 27];
        assert((a ^ m) ^ m == a) by (bit_vector);
    }
    assert(masked(once) =~= data);
}

/// The key never lies on disk as plain text: every byte of the file differs
/// from the key's UTF-8 byte at the same position (no mask byte is zero).
pub proof fn lemma_no_plain_byte(key: Seq<char>)
    ensures
        key_file_bytes(key).len() == vstd::utf8::encode_utf8(key).len(),
        forall|i: int|
            0 <= i < key_file_bytes(key).len() ==> #[trigger] key_file_bytes(key)[i]
                != vstd::utf8::encode_utf8(key)[i],
{
    let bytes = vstd::utf8::encode_utf8(key);
    assert forall|i: int| 0 <= i < key_file_bytes(key).len() implies #[trigger] key_file_bytes(key)[i]
        != bytes[i] by {
        let a = bytes[i];
        let m = MASK@[i % 27];
        assert(m != 0) by {
            assert(0 <= i % 27 < 27);
        }
        assert(m != 0 ==> (a ^ m) != a) by (bit_vector);
    }
}

// ---------------------------------------------------------------------------
// The key file
// ---------------------------------------------------------------------------
/// Calls `String::from_utf8`, which succeeds exactly on valid UTF-8 and then
/// holds the decoded characters.
#[verifier::external_body]
fn utf8_string(bytes: Vec<u8>) -> (res: Option<String>)
    ensures
        res is Some <==> vstd::utf8::valid_utf8(bytes@),
        res matches Some(s) ==> s@ == vstd::utf8::decode_utf8(bytes@),
{
    String::from_utf8(bytes).ok()
}

/// The key that the raw contents of the key file stand for: the unmasked bytes
/// read as UTF-8, or the empty key when they are not valid UTF-8.
pub open spec fn key_in_file(raw: Seq<u8>) -> Seq<char> {
    let m = masked(raw);
    if vstd::utf8::valid_utf8(m) {
        vstd::utf8::decode_utf8(m)
    } else {
        Seq::empty()
    }
}

/// The contents written to the key file for the key `key`.
pub open spec fn key_file_bytes(key: Seq<char>) -> Seq<u8> {
    masked(vstd::utf8::encode_utf8(key))
}

/// Reads the key out of the raw contents of the key file (see `key_in_file`).
pub fn decode_key_file(raw: &[u8]) -> (res: String)
    ensures
        res@ == key_in_file(raw@),
{
    let m = mask_bytes(raw);
    match utf8_string(m) {
        Some(s) => s,
        None => String::new(),
    }
}

/// The contents to write to the key file for `key` (see `key_file_bytes`).
pub fn encode_key_file(key: &str) -> (res: Vec<u8>)
    ensures
        res@ == key_file_bytes(key@),
{
    mask_bytes(key.as_bytes())
}

/// What a key file holds is read back as the key written to it.
pub proof fn lemma_key_file_roundtrip(key: Seq<char>)
    ensures
        key_in_file(key_file_bytes(key)) == key,
{
    let bytes = vstd::utf8::encode_utf8(key);
    lemma_mask_involution(bytes);
    vstd::utf8::encode_utf8_valid_utf8(key);
    vstd::utf8::encode_utf8_decode_utf8(key);
}

// ---------------------------------------------------------------------------
// Saving a key
// ---------------------------------------------------------------------------
/// What to do with the key file.
#[derive(Clone, Debug)]
pub enum KeyFileAction {
    /// Remove the file (ignoring a failure).
    Remove,
    /// Write these bytes to it.
    Write(Vec<u8>),
}

/// What to do with the keyring entry (best effort, failures ignored).
#[derive(Clone, Debug)]
pub enum KeyringAction {
    /// Delete the stored credential.
    Delete,
    /// Store this password.
    Store(String),
}

/// How a key is saved: the file first (it is the one that must succeed), then
/// the keyring.
#[derive(Clone, Debug)]
pub struct SaveKeyPlan {
    pub file: KeyFileAction,
    pub keyring: KeyringAction,
}

/// Saving `key` stores its trimmed text, or clears both stores when that is
/// empty.
pub open spec fn is_save_plan(key: Seq<char>, plan: SaveKeyPlan) -> bool {
    let k = crate::text::trim(key);
    if k.len() == 0 {
        plan.file is Remove && plan.keyring is Delete
    } else {
        &&& plan.file matches KeyFileAction::Write(b) && b@ == key_file_bytes(k)
        &&& plan.keyring matches KeyringAction::Store(p) && p@ == k
    }
}

/// Decides how to save the key `key` (see `is_save_plan`).
pub fn plan_save_api_key(key: &str) -> (plan: SaveKeyPlan)
    ensures
        is_save_plan(key@, plan),
{
    let cs = chars_of(key);
    let t = trim_chars(&cs);
    if t.len() == 0 {
        return SaveKeyPlan { file: KeyFileAction::Remove, keyring: KeyringAction::Delete };
    }
    let k = string_from_chars(&t);
    let bytes = encode_key_file(k.as_str());
    SaveKeyPlan { file: KeyFileAction::Write(bytes), keyring: KeyringAction::Store(k) }
}

/// Saving a key and then reading the key file gives the saved key back: the
/// trimmed key when the file is written, and the file is only removed for a key
/// that trims to nothing (a missing file reads as the empty key).
pub proof fn lemma_save_then_read(key: Seq<char>, plan: SaveKeyPlan)
    requires
        is_save_plan(key, plan),
    ensures
        plan.file matches KeyFileAction::Write(b) ==> key_in_file(b@) == crate::text::trim(key),
        plan.file is Remove ==> crate::text::trim(key).len() == 0,
{
    lemma_key_file_roundtrip(crate::text::trim(key));
}

// ---------------------------------------------------------------------------
// Reading a key
// ---------------------------------------------------------------------------
/// A password from the keyring counts only when it is not blank; it is then
/// used as stored.
pub fn accept_keyring_password(password: Option<String>) -> (res: Option<String>)
    ensures
        password matches Some(p) ==> (crate::text::trim(p@).len() > 0 ==> res == Some(p)),
        password matches Some(p) ==> (crate::text::trim(p@).len() == 0 ==> res is None),
        password is None ==> res is None,
{
    match password {
        Some(p) => {
            let cs = chars_of(p.as_str());
            let t = trim_chars(&cs);
            if t.len() > 0 {
                Some(p)
            } else {
                None
            }
        },
        None => None,
    }
}

// ---------------------------------------------------------------------------
// Showing the key
// ---------------------------------------------------------------------------
/// Whether a key is saved, as shown in the settings.
#[derive(Clone, Debug)]
pub struct ApiKeyStatus {
    pub saved: bool,
    /// The key with its middle hidden, such as `sk-abc****wxyz`, only so that
    /// the user can see that it was stored.
    pub masked: String,
    /// Whether the keyring holds it (false: only the local file does).
    pub in_keyring: bool,
}

/// What stands for the hidden part of a short key.
pub open spec fn dots() -> Seq<char> {
    "••••"@
}

/// What stands for the hidden middle of a long key.
pub open spec fn stars() -> Seq<char> {
    "****"@
}

/// The key with its middle hidden: up to twelve characters show only their
/// first three and `••••`; longer keys show their first six, `****` and their
/// last four.
pub open spec fn masked_display(k: Seq<char>) -> Seq<char> {
    if k.len() <= 12 {
        k.take(if k.len() < 3 {
            k.len() as int
        } else {
            3
        }) + dots()
    } else {
        k.take(6) + stars() + k.skip(k.len() - 4)
    }
}

/// The status shown for the key `key`, `in_keyring` telling whether the
/// keyring holds a usable password: nothing saved for the empty key.
pub fn api_key_status(in_keyring: bool, key: &str) -> (res: ApiKeyStatus)
    ensures
        key@.len() == 0 ==> !res.saved && res.masked@.len() == 0 && !res.in_keyring,
        key@.len() > 0 ==> res.saved && res.masked@ == masked_display(key@) && res.in_keyring
            == in_keyring,
{
    let k = chars_of(key);
    if k.len() == 0 {
        return ApiKeyStatus { saved: false, masked: String::new(), in_keyring: false };
    }
    let mut out: Vec<char>;
    if k.len() <= 12 {
        let n = if k.len() < 3 {
            k.len()
        } else {
            3
        };
        out = slice_chars(&k, 0, n);
        push_str(&mut out, "••••");
    } else {
        out = slice_chars(&k, 0, 6);
        push_str(&mut out, "****");
        let tail = slice_chars(&k, k.len() - 4, k.len());
        push_chars(&mut out, &tail);
    }
    ApiKeyStatus { saved: true, masked: string_from_chars(&out), in_keyring }
}

/// The error when chatting without a configured key.
pub open spec fn missing_key_message() -> Seq<char> {
    "未配置 API Key，请在设置中填写"@
}

/// Chatting needs a key: the empty key is refused with `missing_key_message`.
pub fn require_api_key(key: &str) -> (res: Result<(), String>)
    ensures
        key@.len() == 0 <==> res is Err,
        res matches Err(e) ==> e@ == missing_key_message(),
{
    if key.is_empty() {
        Err(owned("未配置 API Key，请在设置中填写"))
    } else {
        Ok(())
    }
}

} // verus!

verus! {

/// The mask repeats with period 27, its length: masking data shifted by 27
/// bytes gives the masked result shifted by 27 bytes, and masking zero bytes
/// yields the mask itself, `MASK[0..27]` and then over again.
pub proof fn lemma_mask_period(data: Seq<u8>)
    ensures
        data.len() >= 27 ==> masked(data).skip(27) == masked(data.skip(27)),
        masked(data).len() == data.len(),
        forall|i: int| 0 <= i < 27 && i < data.len() && data[i] == 0 ==> #[trigger] masked(data)[i] == MASK[i],
{
    if data.len() >= 27 {
        let a = masked(data).skip(27);
        let b = masked(data.skip(27));
        assert forall|j: int| 0 <= j < a.len() implies a[j] == b[j] by {
            assert((j + 27) % 27 == j % 27);
        }
        assert(a =~= b);
    }
    assert forall|i: int| 0 <= i < 27 && i < data.len() && data[i] == 0 implies #[trigger] masked(data)[i]
        == MASK[i] by {
        let m = MASK@[i];
        assert(0u8 ^ m == m) by (bit_vector);
    }
}

} // verus!
