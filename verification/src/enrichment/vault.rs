//! Credential vault: named credentials whose passwords are kept sealed under
//! a passphrase, each with an integrity tag that is checked before the
//! password is unsealed.
//!
//! Sealing XORs the password's UTF-8 bytes with the passphrase's bytes
//! (repeated) and writes the result as lower-case hex. The tag is the hex
//! SHA-256 of SHA-256(passphrase) followed by the sealed text's bytes.

use vstd::prelude::*;
use sha2::Digest;
use vstd::utf8::{decode_utf8, encode_utf8, is_continuation_byte, valid_utf8};
use crate::text::{hex2, hex_char, push_hex2, push_text};

verus! {

// ─── Purpose, entries, resolved credentials ──────────────────────────────────

/// Why a credential is being resolved.
#[derive(Debug, Clone, PartialEq, Eq)]
pub enum ResolvePurpose {
    Subscribe,
    Remediate,
    Discover,
    Enrich,
    Test,
    Internal,
    /// Fetching a router's routing policy over SSH.
    SshFetch,
    Other(String),
}

/// One stored credential: the password sealed, with its integrity tag.
#[derive(Debug, Clone)]
pub struct CredentialEntry {
    pub alias: String,
    /// Sealed password, lower-case hex.
    pub encrypted_pass: String,
    /// Integrity tag over the bytes of `encrypted_pass`, lower-case hex.
    pub hmac: String,
    pub created_at_ns: u64,
    /// Refreshed at most once a minute.
    pub last_used_at_ns: u64,
    pub username: String,
}

/// A stored credential as values.
pub struct EntryView {
    pub alias: Seq<char>,
    pub encrypted_pass: Seq<char>,
    pub hmac: Seq<char>,
    pub created_at_ns: u64,
    pub last_used_at_ns: u64,
    pub username: Seq<char>,
}

impl View for CredentialEntry {
    type V = EntryView;

    open spec fn view(&self) -> EntryView {
        EntryView {
            alias: self.alias@,
            encrypted_pass: self.encrypted_pass@,
            hmac: self.hmac@,
            created_at_ns: self.created_at_ns,
            last_used_at_ns: self.last_used_at_ns,
            username: self.username@,
        }
    }
}

/// A credential with its password unsealed.
#[derive(Debug)]
pub struct ResolvedCredential {
    pub alias: String,
    pub username: String,
    pub password: String,
}

/// What `list` reports of one credential: no secret.
#[derive(Debug, Clone)]
pub struct CredentialSummary {
    pub alias: String,
    pub username: String,
    pub created_at_ns: u64,
    pub last_used_at_ns: u64,
}

/// `s` reports the entry `e`.
pub open spec fn summarizes(s: CredentialSummary, e: EntryView) -> bool {
    &&& s.alias@ == e.alias
    &&& s.username@ == e.username
    &&& s.created_at_ns == e.created_at_ns
    &&& s.last_used_at_ns == e.last_used_at_ns
}

/// Why a vault operation failed.
#[derive(Debug)]
pub enum VaultError {
    /// `remove` of an alias that is not stored.
    AliasNotFound(String),
    /// `resolve` of an alias that is not stored.
    CredentialNotFound(String),
    /// The stored tag does not match the sealed text.
    HmacMismatch,
    /// The sealed text is not hexadecimal.
    HexDecode,
    /// The unsealed bytes are not UTF-8; the text says where.
    Utf8(String),
}

/// The text of each vault error.
pub open spec fn vault_error_text(e: VaultError) -> Seq<char> {
    match e {
        VaultError::AliasNotFound(a) => "alias '"@ + a@ + "' not found"@,
        VaultError::CredentialNotFound(a) => "credential alias '"@ + a@ + "' not found"@,
        VaultError::HmacMismatch => "HMAC verification failed — vault may be tampered"@,
        VaultError::HexDecode => "hex decode: invalid digit found in string"@,
        VaultError::Utf8(m) => "decrypt UTF-8 error: "@ + m@,
    }
}

impl VaultError {
    /// The error's message.
    pub fn message(&self) -> (r: String)
        ensures
            r@ == vault_error_text(*self),
    {
        match self {
            VaultError::AliasNotFound(a) => {
                let mut m = String::new();
                push_text(&mut m, "alias '");
                push_text(&mut m, a.as_str());
                push_text(&mut m, "' not found");
                m
            },
            VaultError::CredentialNotFound(a) => {
                let mut m = String::new();
                push_text(&mut m, "credential alias '");
                push_text(&mut m, a.as_str());
                push_text(&mut m, "' not found");
                m
            },
            VaultError::HmacMismatch => String::from_str("HMAC verification failed — vault may be tampered"),
            VaultError::HexDecode => String::from_str("hex decode: invalid digit found in string"),
            VaultError::Utf8(e) => {
                let mut m = String::new();
                push_text(&mut m, "decrypt UTF-8 error: ");
                push_text(&mut m, e.as_str());
                m
            },
        }
    }
}

// ─── Sealing ─────────────────────────────────────────────────────────────────

/// `b` XORed with the key `k`, repeated.
pub open spec fn xor_key(b: Seq<u8>, k: Seq<u8>) -> Seq<u8> {
    Seq::new(b.len(), |i: int| b[i] ^ k[i % (k.len() as int)])
}

/// Lower-case hex of `b`, two digits per byte.
pub open spec fn hex_text(b: Seq<u8>) -> Seq<char> {
    Seq::new(
        2 * b.len(),
        |i: int|
            if i % 2 == 0 {
                hex_char((b[i / 2] / 16) as int)
            } else {
                hex_char((b[i / 2] % 16) as int)
            },
    )
}

/// The value of one hex digit byte (either case).
pub open spec fn hex_digit_value(c: u8) -> Option<u8> {
    if 48 <= c <= 57 {
        Some((c - 48) as u8)
    } else if 97 <= c <= 102 {
        Some((c - 87) as u8)
    } else if 65 <= c <= 70 {
        Some((c - 55) as u8)
    } else {
        None
    }
}

/// The byte that two text bytes denote as a base-16 number: two digits, or
/// `+` and one digit.
pub open spec fn hex_pair_value(hi: u8, lo: u8) -> Option<u8> {
    if hi == 43 {
        hex_digit_value(lo)
    } else {
        match (hex_digit_value(hi), hex_digit_value(lo)) {
            (Some(h), Some(l)) => Some((h * 16 + l) as u8),
            _ => None,
        }
    }
}

/// How decoding a hex text's UTF-8 bytes pair by pair ends.
pub enum HexDecoding {
    /// Every pair was a byte.
    Bytes(Seq<u8>),
    /// A pair is not a number; nothing after it is looked at.
    BadDigit,
    /// A pair is cut short, or ends inside a character.
    Panic,
}

/// Decodes `b` pair by pair, from the front, stopping at the first failure.
pub open spec fn hex_decoding(b: Seq<u8>) -> HexDecoding
    decreases b.len(),
{
    if b.len() == 0 {
        HexDecoding::Bytes(seq![])
    } else if b.len() < 2 || (b.len() > 2 && is_continuation_byte(b[2])) {
        HexDecoding::Panic
    } else {
        match hex_pair_value(b[0], b[1]) {
            None => HexDecoding::BadDigit,
            Some(v) => match hex_decoding(b.subrange(2, b.len() as int)) {
                HexDecoding::Bytes(r) => HexDecoding::Bytes(seq![v] + r),
                other => other,
            },
        }
    }
}

/// `d` with the bytes `p` in front, when it decoded.
pub open spec fn prepend_bytes(p: Seq<u8>, d: HexDecoding) -> HexDecoding {
    match d {
        HexDecoding::Bytes(r) => HexDecoding::Bytes(p + r),
        other => other,
    }
}

/// The sealed text of `password` under `passphrase`.
pub open spec fn sealed_text(passphrase: Seq<char>, password: Seq<char>) -> Seq<char> {
    hex_text(xor_key(encode_utf8(password), encode_utf8(passphrase)))
}

/// The result of SHA-256 on `data`.
pub uninterp spec fn sha256_digest(data: Seq<u8>) -> Seq<u8>;

/// `sha2::Sha256::digest`: the SHA-256 hash of `data`. The contract names the
/// result only.
#[verifier::external_body]
fn sha256(data: &[u8]) -> (r: Vec<u8>)
    ensures
        r@ == sha256_digest(data@),
{
    sha2::Sha256::digest(data).to_vec()
}

/// The integrity tag of `data` under `passphrase`.
pub open spec fn hmac_text(passphrase: Seq<char>, data: Seq<u8>) -> Seq<char> {
    hex_text(sha256_digest(sha256_digest(encode_utf8(passphrase)) + data))
}

/// The entry that `add` stores.
pub open spec fn sealed_entry(
    passphrase: Seq<char>,
    alias: Seq<char>,
    username: Seq<char>,
    password: Seq<char>,
    now_ns: u64,
) -> EntryView {
    let enc = sealed_text(passphrase, password);
    EntryView {
        alias,
        encrypted_pass: enc,
        hmac: hmac_text(passphrase, encode_utf8(enc)),
        created_at_ns: now_ns,
        last_used_at_ns: 0,
        username,
    }
}

/// What unsealing a sealed text gives.
pub enum Unsealed {
    Text(Seq<char>),
    BadHex,
    BadUtf8,
}

/// Unsealing `enc` under `passphrase`: hex-decode, XOR, read as UTF-8.
pub open spec fn unseal(passphrase: Seq<char>, enc: Seq<char>) -> Unsealed {
    match hex_decoding(encode_utf8(enc)) {
        HexDecoding::Bytes(c) => {
            let p = xor_key(c, encode_utf8(passphrase));
            if valid_utf8(p) {
                Unsealed::Text(decode_utf8(p))
            } else {
                Unsealed::BadUtf8
            }
        },
        _ => Unsealed::BadHex,
    }
}

/// Whether unsealing `enc` would slice its text out of bounds or divide by
/// an empty key.
pub open spec fn unseal_panics(passphrase: Seq<char>, enc: Seq<char>) -> bool {
    match hex_decoding(encode_utf8(enc)) {
        HexDecoding::Panic => true,
        HexDecoding::Bytes(c) => c.len() > 0 && passphrase.len() == 0,
        HexDecoding::BadDigit => false,
    }
}

// ─── Entries as a map ────────────────────────────────────────────────────────

pub open spec fn entry_views(s: Seq<CredentialEntry>) -> Seq<EntryView> {
    s.map_values(|e: CredentialEntry| e@)
}

pub open spec fn alias_at(es: Seq<EntryView>, a: Seq<char>, i: int) -> bool {
    0 <= i < es.len() && es[i].alias == a
}

pub open spec fn has_alias(es: Seq<EntryView>, a: Seq<char>) -> bool {
    exists|i: int| alias_at(es, a, i)
}

pub open spec fn entry_for(es: Seq<EntryView>, a: Seq<char>) -> EntryView {
    es[choose|i: int| alias_at(es, a, i)]
}

pub open spec fn aliases_unique(es: Seq<EntryView>) -> bool {
    forall|i: int, j: int|
        0 <= i < es.len() && 0 <= j < es.len() && i != j ==> es[i].alias != es[j].alias
}

/// The entries by alias.
pub open spec fn entry_map(es: Seq<EntryView>) -> Map<Seq<char>, EntryView> {
    Map::new(|a: Seq<char>| has_alias(es, a), |a: Seq<char>| entry_for(es, a))
}

/// The map that inserting `s` in order, a later alias replacing an earlier,
/// builds.
pub open spec fn loaded_map(s: Seq<EntryView>) -> Map<Seq<char>, EntryView>
    decreases s.len(),
{
    if s.len() == 0 {
        Map::empty()
    } else {
        loaded_map(s.drop_last()).insert(s.last().alias, s.last())
    }
}

/// `e` as used at `now_ns`.
pub open spec fn touched(e: EntryView, now_ns: u64) -> EntryView {
    EntryView {
        alias: e.alias,
        encrypted_pass: e.encrypted_pass,
        hmac: e.hmac,
        created_at_ns: e.created_at_ns,
        last_used_at_ns: now_ns,
        username: e.username,
    }
}

/// The entry is the one stored at index `k` of a list without repeated aliases.
pub proof fn lemma_entry_for(es: Seq<EntryView>, a: Seq<char>, k: int)
    requires
        aliases_unique(es),
        alias_at(es, a, k),
    ensures
        has_alias(es, a),
        entry_for(es, a) == es[k],
{
    let j = choose|i: int| alias_at(es, a, i);
    assert(alias_at(es, a, j));
}

proof fn lemma_map_set(es: Seq<EntryView>, k: int, e: EntryView)
    requires
        aliases_unique(es),
        0 <= k < es.len(),
        es[k].alias == e.alias,
    ensures
        aliases_unique(es.update(k, e)),
        entry_map(es.update(k, e)) == entry_map(es).insert(e.alias, e),
{
    let ns = es.update(k, e);
    assert(aliases_unique(ns));
    assert forall|b: Seq<char>| #[trigger] has_alias(ns, b) == (b == e.alias || has_alias(es, b)) by {
        if has_alias(es, b) {
            let i = choose|i: int| alias_at(es, b, i);
            assert(alias_at(ns, b, i));
        }
        if has_alias(ns, b) {
            let i = choose|i: int| alias_at(ns, b, i);
            if i != k {
                assert(alias_at(es, b, i));
            }
        }
        if b == e.alias {
            assert(alias_at(ns, b, k));
        }
    }
    assert forall|b: Seq<char>| has_alias(ns, b) implies #[trigger] entry_for(ns, b) == (if b == e.alias { e } else { entry_for(es, b) }) by {
        let i = choose|i: int| alias_at(ns, b, i);
        assert(alias_at(ns, b, i));
        lemma_entry_for(ns, b, i);
        if b != e.alias {
            assert(i != k);
            assert(alias_at(es, b, i));
            lemma_entry_for(es, b, i);
        } else {
            lemma_entry_for(ns, b, k);
        }
    }
    assert(entry_map(ns) =~= entry_map(es).insert(e.alias, e));
}

proof fn lemma_map_push(es: Seq<EntryView>, e: EntryView)
    requires
        aliases_unique(es),
        !has_alias(es, e.alias),
    ensures
        aliases_unique(es.push(e)),
        entry_map(es.push(e)) == entry_map(es).insert(e.alias, e),
{
    let ns = es.push(e);
    assert forall|i: int, j: int|
        0 <= i < ns.len() && 0 <= j < ns.len() && i != j implies ns[i].alias != ns[j].alias by {
        if i == es.len() as int {
            assert(!alias_at(es, e.alias, j));
        } else if j == es.len() as int {
            assert(!alias_at(es, e.alias, i));
        }
    }
    assert forall|b: Seq<char>| #[trigger] has_alias(ns, b) == (b == e.alias || has_alias(es, b)) by {
        if has_alias(es, b) {
            let i = choose|i: int| alias_at(es, b, i);
            assert(alias_at(ns, b, i));
        }
        if has_alias(ns, b) {
            let i = choose|i: int| alias_at(ns, b, i);
            if i != es.len() as int {
                assert(alias_at(es, b, i));
            }
        }
        if b == e.alias {
            assert(alias_at(ns, b, es.len() as int));
        }
    }
    assert forall|b: Seq<char>| has_alias(ns, b) implies #[trigger] entry_for(ns, b) == (if b == e.alias { e } else { entry_for(es, b) }) by {
        let i = choose|i: int| alias_at(ns, b, i);
        assert(alias_at(ns, b, i));
        lemma_entry_for(ns, b, i);
        if b != e.alias {
            assert(alias_at(es, b, i));
            lemma_entry_for(es, b, i);
        } else {
            lemma_entry_for(ns, b, es.len() as int);
        }
    }
    assert(entry_map(ns) =~= entry_map(es).insert(e.alias, e));
}

proof fn lemma_map_remove(es: Seq<EntryView>, k: int)
    requires
        aliases_unique(es),
        0 <= k < es.len(),
    ensures
        aliases_unique(es.remove(k)),
        entry_map(es.remove(k)) == entry_map(es).remove(es[k].alias),
{
    let a = es[k].alias;
    let ns = es.remove(k);
    assert forall|i: int, j: int|
        0 <= i < ns.len() && 0 <= j < ns.len() && i != j implies ns[i].alias != ns[j].alias by {
        let oi = if i < k { i } else { i + 1 };
        let oj = if j < k { j } else { j + 1 };
        assert(ns[i] == es[oi]);
        assert(ns[j] == es[oj]);
    }
    assert forall|b: Seq<char>| #[trigger] has_alias(ns, b) == (b != a && has_alias(es, b)) by {
        if has_alias(ns, b) {
            let i = choose|i: int| alias_at(ns, b, i);
            let oi = if i < k { i } else { i + 1 };
            assert(ns[i] == es[oi]);
            assert(alias_at(es, b, oi));
            assert(oi != k);
        }
        if b != a && has_alias(es, b) {
            let i = choose|i: int| alias_at(es, b, i);
            assert(i != k);
            let ni = if i < k { i } else { i - 1 };
            assert(ns[ni] == es[i]);
            assert(alias_at(ns, b, ni));
        }
    }
    assert forall|b: Seq<char>| has_alias(ns, b) implies #[trigger] entry_for(ns, b) == entry_for(es, b) by {
        let i = choose|i: int| alias_at(ns, b, i);
        assert(alias_at(ns, b, i));
        lemma_entry_for(ns, b, i);
        let oi = if i < k { i } else { i + 1 };
        assert(ns[i] == es[oi]);
        assert(alias_at(es, b, oi));
        lemma_entry_for(es, b, oi);
    }
    assert(entry_map(ns) =~= entry_map(es).remove(a));
}

// ─── Round trip ──────────────────────────────────────────────────────────────

/// The byte of the hex digit character for `d`.
pub open spec fn hex_char_byte(d: int) -> u8 {
    if d < 10 { (d + 48) as u8 } else { (d + 87) as u8 }
}

proof fn lemma_hex_char_byte(d: int)
    requires
        0 <= d < 16,
    ensures
        hex_char(d) as u8 == hex_char_byte(d),
        hex_digit_value(hex_char_byte(d)) == Some(d as u8),
        hex_char_byte(d) != 43,
        hex_char_byte(d) < 0x80,
        '\0' <= hex_char(d) <= '\u{7f}',
{
}

proof fn lemma_hex_text_bytes(c: Seq<u8>)
    ensures
        encode_utf8(hex_text(c)).len() == 2 * c.len(),
        forall|i: int|
            0 <= i < c.len() ==> encode_utf8(hex_text(c))[2 * i] == hex_char_byte((#[trigger] c[i] / 16) as int)
                && encode_utf8(hex_text(c))[2 * i + 1] == hex_char_byte((c[i] % 16) as int),
{
    let t = hex_text(c);
    assert forall|i: int| 0 <= i < t.len() implies '\0' <= #[trigger] t[i] <= '\u{7f}' by {
        lemma_hex_char_byte((c[i / 2] / 16) as int);
        lemma_hex_char_byte((c[i / 2] % 16) as int);
    }
    assert(vstd::utf8::is_ascii_chars(t));
    vstd::utf8::is_ascii_chars_encode_utf8(t);
    assert forall|i: int| 0 <= i < c.len() implies encode_utf8(t)[2 * i] == hex_char_byte((#[trigger] c[i] / 16) as int)
        && encode_utf8(t)[2 * i + 1] == hex_char_byte((c[i] % 16) as int) by {
        assert((2 * i) / 2 == i);
        assert((2 * i + 1) / 2 == i);
        assert(t[2 * i] == hex_char((c[i] / 16) as int));
        assert(t[2 * i + 1] == hex_char((c[i] % 16) as int));
        lemma_hex_char_byte((c[i] / 16) as int);
        lemma_hex_char_byte((c[i] % 16) as int);
    }
}

proof fn lemma_decode_hex_bytes(c: Seq<u8>, b: Seq<u8>)
    requires
        b.len() == 2 * c.len(),
        forall|i: int|
            0 <= i < c.len() ==> b[2 * i] == hex_char_byte((#[trigger] c[i] / 16) as int) && b[2 * i + 1]
                == hex_char_byte((c[i] % 16) as int),
    ensures
        hex_decoding(b) == HexDecoding::Bytes(c),
    decreases c.len(),
{
    if c.len() > 0 {
        let b2 = b.subrange(2, b.len() as int);
        let c2 = c.subrange(1, c.len() as int);
        assert forall|i: int| 0 <= i < c2.len() implies b2[2 * i] == hex_char_byte((#[trigger] c2[i] / 16) as int)
            && b2[2 * i + 1] == hex_char_byte((c2[i] % 16) as int) by {
            assert(c2[i] == c[i + 1]);
            assert(b2[2 * i] == b[2 * (i + 1)]);
            assert(b2[2 * i + 1] == b[2 * (i + 1) + 1]);
        }
        lemma_decode_hex_bytes(c2, b2);
        assert(c[0] == c[0]);
        lemma_hex_char_byte((c[0] / 16) as int);
        lemma_hex_char_byte((c[0] % 16) as int);
        if b.len() > 2 {
            assert(c[1] == c[1]);
            assert(b[2] == b[2 * 1int]);
            lemma_hex_char_byte((c[1] / 16) as int);
        }
        assert(hex_pair_value(b[0], b[1]) == Some(c[0]));
        assert(seq![c[0]] + c2 =~= c);
    } else {
        assert(c =~= Seq::<u8>::empty());
    }
}

proof fn lemma_xor_twice(b: Seq<u8>, k: Seq<u8>)
    requires
        k.len() > 0,
    ensures
        xor_key(xor_key(b, k), k) == b,
{
    assert forall|i: int| 0 <= i < b.len() implies #[trigger] xor_key(xor_key(b, k), k)[i] == b[i] by {
        let x = b[i];
        let y = k[i % (k.len() as int)];
        assert((x ^ y) ^ y == x) by (bit_vector);
    }
    assert(xor_key(xor_key(b, k), k) =~= b);
}

/// A password sealed under a passphrase unseals to itself, and unsealing
/// it runs to an answer (for a non-empty password the passphrase must not
/// be empty, as sealing asks).
pub proof fn lemma_unseal_sealed(passphrase: Seq<char>, password: Seq<char>)
    requires
        passphrase.len() > 0 || password.len() == 0,
    ensures
        unseal(passphrase, sealed_text(passphrase, password)) == Unsealed::Text(password),
        !unseal_panics(passphrase, sealed_text(passphrase, password)),
{
    let k = encode_utf8(passphrase);
    let p = encode_utf8(password);
    let c = xor_key(p, k);
    lemma_encode_nonempty(passphrase);
    lemma_encode_nonempty(password);
    lemma_hex_text_bytes(c);
    lemma_decode_hex_bytes(c, encode_utf8(hex_text(c)));
    if k.len() > 0 {
        lemma_xor_twice(p, k);
    } else {
        assert(xor_key(c, k) =~= p);
    }
    vstd::utf8::encode_utf8_valid_utf8(password);
    vstd::utf8::encode_utf8_decode_utf8(password);
}

/// Resolving an alias right after `add` stored a credential under it runs
/// to an answer and gives back the username and the password that were
/// added.
pub proof fn lemma_add_then_resolve(
    before: VaultView,
    after: VaultView,
    alias: Seq<char>,
    username: Seq<char>,
    password: Seq<char>,
    now_ns: u64,
)
    requires
        before.passphrase.len() > 0 || password.len() == 0,
        after.passphrase == before.passphrase,
        entry_map(after.entries) == entry_map(before.entries).insert(
            alias,
            sealed_entry(before.passphrase, alias, username, password, now_ns),
        ),
    ensures
        resolvable(after, alias),
        resolve_outcome(after, alias) == (ResolveOutcome::Resolved { username, password }),
{
    assert(entry_map(after.entries).dom().contains(alias));
    assert(has_alias(after.entries, alias));
    assert(entry_for(after.entries, alias) == entry_map(after.entries)[alias]);
    lemma_unseal_sealed(before.passphrase, password);
}

/// Resolving an alias right after `remove` took it out finds nothing.
pub proof fn lemma_remove_then_resolve(before: VaultView, after: VaultView, alias: Seq<char>)
    requires
        entry_map(after.entries) == entry_map(before.entries).remove(alias),
    ensures
        resolvable(after, alias),
        resolve_outcome(after, alias) == ResolveOutcome::NotFound,
{
    assert(!entry_map(after.entries).dom().contains(alias));
}

// ─── The vault ───────────────────────────────────────────────────────────────

/// The vault's contents: its entries in storage order, and its passphrase.
pub struct VaultView {
    pub entries: Seq<EntryView>,
    pub passphrase: Seq<char>,
}

/// What resolving an alias comes to.
pub enum ResolveOutcome {
    NotFound,
    Tampered,
    BadHex,
    BadUtf8,
    Resolved { username: Seq<char>, password: Seq<char> },
}

/// Resolving alias `a` in `v`: look up, check the tag, then unseal.
pub open spec fn resolve_outcome(v: VaultView, a: Seq<char>) -> ResolveOutcome {
    if !has_alias(v.entries, a) {
        ResolveOutcome::NotFound
    } else {
        let e = entry_for(v.entries, a);
        if hmac_text(v.passphrase, encode_utf8(e.encrypted_pass)) != e.hmac {
            ResolveOutcome::Tampered
        } else {
            match unseal(v.passphrase, e.encrypted_pass) {
                Unsealed::Text(p) => ResolveOutcome::Resolved { username: e.username, password: p },
                Unsealed::BadHex => ResolveOutcome::BadHex,
                Unsealed::BadUtf8 => ResolveOutcome::BadUtf8,
            }
        }
    }
}

/// Resolving `a` in `v` runs to an answer: the entry is missing or fails its
/// tag, or its sealed text unseals without slicing out of bounds or dividing
/// by an empty key.
pub open spec fn resolvable(v: VaultView, a: Seq<char>) -> bool {
    has_alias(v.entries, a) && hmac_text(v.passphrase, encode_utf8(entry_for(v.entries, a).encrypted_pass))
        == entry_for(v.entries, a).hmac ==> !unseal_panics(v.passphrase, entry_for(v.entries, a).encrypted_pass)
}

/// `r` is what resolving `a` answers for `o`.
pub open spec fn resolve_result_is(r: &Result<ResolvedCredential, VaultError>, o: ResolveOutcome, a: Seq<char>) -> bool {
    match o {
        ResolveOutcome::NotFound => r matches Err(VaultError::CredentialNotFound(x)) && x@ == a,
        ResolveOutcome::Tampered => r matches Err(VaultError::HmacMismatch),
        ResolveOutcome::BadHex => r matches Err(VaultError::HexDecode),
        ResolveOutcome::BadUtf8 => r matches Err(VaultError::Utf8(_)),
        ResolveOutcome::Resolved { username, password } => r matches Ok(c) && c.alias@ == a && c.username@
            == username && c.password@ == password,
    }
}

/// The entries after resolving `a` at `now_ns`: a resolved entry last used
/// more than a minute before gets `now_ns` as its time of last use.
pub open spec fn entries_after_resolve(v: VaultView, a: Seq<char>, now_ns: u64) -> Map<Seq<char>, EntryView> {
    let m = entry_map(v.entries);
    match resolve_outcome(v, a) {
        ResolveOutcome::Resolved { .. } => {
            let e = entry_for(v.entries, a);
            if now_ns - e.last_used_at_ns > 60_000_000_000 {
                m.insert(a, touched(e, now_ns))
            } else {
                m
            }
        },
        _ => m,
    }
}

/// Stores, resolves and removes named credentials.
pub struct CredentialVault {
    entries: Vec<CredentialEntry>,
    passphrase: String,
}

impl View for CredentialVault {
    type V = VaultView;

    closed spec fn view(&self) -> VaultView {
        VaultView { entries: entry_views(self.entries@), passphrase: self.passphrase@ }
    }
}

/// Lower-case hex of `b`.
fn hex_encode(b: &[u8]) -> (r: String)
    ensures
        r@ == hex_text(b@),
{
    let mut s = String::new();
    let mut i: usize = 0;
    while i < b.len()
        invariant
            i <= b.len(),
            s@ == hex_text(b@.subrange(0, i as int)),
        decreases b.len() - i,
    {
        let ghost before = s@;
        push_hex2(&mut s, b[i]);
        proof {
            let p = b@.subrange(0, i as int);
            let q = b@.subrange(0, i + 1);
            assert(s@ == before + hex2(b@[i as int]));
            assert forall|j: int| 0 <= j < 2 * q.len() implies #[trigger] s@[j] == hex_text(q)[j] by {
                if j < 2 * i {
                    assert(j / 2 < i);
                    assert(q[j / 2] == p[j / 2]);
                } else {
                    assert(j / 2 == i);
                }
            }
            assert(s@ =~= hex_text(q));
        }
        i = i + 1;
    }
    proof {
        assert(b@.subrange(0, b@.len() as int) =~= b@);
    }
    s
}

/// The value of a hex digit byte.
fn hex_digit(c: u8) -> (r: Option<u8>)
    ensures
        r == hex_digit_value(c),
{
    if 48 <= c && c <= 57 {
        Some(c - 48)
    } else if 97 <= c && c <= 102 {
        Some(c - 87)
    } else if 65 <= c && c <= 70 {
        Some(c - 55)
    } else {
        None
    }
}

/// The byte that a pair of text bytes denotes in base 16.
fn hex_pair(hi: u8, lo: u8) -> (r: Option<u8>)
    ensures
        r == hex_pair_value(hi, lo),
{
    if hi == 43 {
        hex_digit(lo)
    } else {
        match (hex_digit(hi), hex_digit(lo)) {
            (Some(h), Some(l)) => Some(h * 16 + l),
            _ => None,
        }
    }
}

/// Decodes the hex text `s`, pair by pair.
fn hex_decode(s: &str) -> (r: Result<Vec<u8>, ()>)
    requires
        !(hex_decoding(encode_utf8(s@)) is Panic),
    ensures
        match hex_decoding(encode_utf8(s@)) {
            HexDecoding::Bytes(d) => r matches Ok(v) && v@ == d,
            _ => r is Err,
        },
{
    let b = s.as_bytes();
    let ghost full = b@;
    let n = b.len();
    let mut out: Vec<u8> = Vec::new();
    let mut i: usize = 0;
    assert(full.subrange(0, n as int) =~= full);
    while i < n
        invariant
            full == b@,
            full == encode_utf8(s@),
            n == full.len(),
            i <= n,
            !(hex_decoding(full) is Panic),
            hex_decoding(full) == prepend_bytes(out@, hex_decoding(full.subrange(i as int, n as int))),
        decreases n - i,
    {
        let ghost rest = full.subrange(i as int, n as int);
        proof {
            assert(rest.len() >= 2);
            assert(rest.subrange(2, rest.len() as int) =~= full.subrange(i + 2, n as int));
        }
        match hex_pair(b[i], b[i + 1]) {
            None => {
                return Err(());
            },
            Some(v) => {
                proof {
                    let tail = hex_decoding(full.subrange(i + 2, n as int));
                    if let HexDecoding::Bytes(t) = tail {
                        assert(out@ + (seq![v] + t) =~= out@.push(v) + t);
                    }
                }
                out.push(v);
                i = i + 2;
            },
        }
    }
    proof {
        assert(full.subrange(n as int, n as int) =~= Seq::<u8>::empty());
        assert(out@ + Seq::<u8>::empty() =~= out@);
    }
    Ok(out)
}

/// `data` XORed with `key`, repeated.
fn xor_with(data: &[u8], key: &[u8]) -> (r: Vec<u8>)
    requires
        key.len() > 0 || data.len() == 0,
    ensures
        r@ == xor_key(data@, key@),
{
    let mut out: Vec<u8> = Vec::new();
    let mut i: usize = 0;
    while i < data.len()
        invariant
            i <= data.len(),
            key.len() > 0 || data.len() == 0,
            out@ == xor_key(data@, key@).subrange(0, i as int),
        decreases data.len() - i,
    {
        out.push(data[i] ^ key[i % key.len()]);
        proof {
            assert(out@ =~= xor_key(data@, key@).subrange(0, i + 1));
        }
        i = i + 1;
    }
    proof {
        assert(xor_key(data@, key@).subrange(0, data@.len() as int) =~= xor_key(data@, key@));
    }
    out
}

/// `String::from_utf8`: the text that `b` encodes, or the error's text when
/// `b` is not UTF-8. The error text is not stated.
#[verifier::external_body]
fn utf8_text(b: Vec<u8>) -> (r: Result<String, String>)
    ensures
        match r {
            Ok(s) => valid_utf8(b@) && s@ == decode_utf8(b@),
            Err(_) => !valid_utf8(b@),
        },
{
    match String::from_utf8(b) {
        Ok(s) => Ok(s),
        Err(e) => Err(e.to_string()),
    }
}

proof fn lemma_encode_nonempty(s: Seq<char>)
    ensures
        (encode_utf8(s).len() == 0) == (s.len() == 0),
{
    if s.len() > 0 {
        assert(encode_utf8(s) == vstd::utf8::encode_scalar(s[0] as u32) + encode_utf8(s.drop_first()));
    }
}

impl CredentialVault {
    #[verifier::type_invariant]
    spec fn inv(&self) -> bool {
        aliases_unique(entry_views(self.entries@))
    }

    /// An empty vault sealing under `passphrase`.
    pub fn new(passphrase: String) -> (r: Self)
        ensures
            r@.entries == Seq::<EntryView>::empty(),
            r@.passphrase == passphrase@,
    {
        let r = CredentialVault { entries: Vec::new(), passphrase };
        assert(entry_views(r.entries@) =~= Seq::<EntryView>::empty());
        r
    }

    /// A vault holding `entries` stored in order, a later alias replacing an
    /// earlier one.
    pub fn from_entries(entries: Vec<CredentialEntry>, passphrase: String) -> (r: Self)
        ensures
            entry_map(r@.entries) == loaded_map(entry_views(entries@)),
            r@.passphrase == passphrase@,
    {
        let mut v = CredentialVault::new(passphrase);
        let ghost src = entry_views(entries@);
        let mut i: usize = 0;
        assert(entry_map(v@.entries) =~= Map::<Seq<char>, EntryView>::empty());
        assert(src.subrange(0, 0) =~= Seq::<EntryView>::empty());
        while i < entries.len()
            invariant
                i <= entries.len(),
                src == entry_views(entries@),
                v@.passphrase == passphrase@,
                entry_map(v@.entries) == loaded_map(src.subrange(0, i as int)),
            decreases entries.len() - i,
        {
            let e = copy_entry(&entries[i]);
            proof {
                assert(e@ == src[i as int]);
                assert(src.subrange(0, i + 1).drop_last() =~= src.subrange(0, i as int));
            }
            v.put_entry(e);
            i = i + 1;
        }
        assert(src.subrange(0, entries.len() as int) =~= src);
        v
    }

    /// The stored entries, in storage order.
    pub fn entries(&self) -> (r: &Vec<CredentialEntry>)
        ensures
            entry_views(r@) == self@.entries,
    {
        &self.entries
    }

    /// Index of the entry stored under `alias`.
    fn position(&self, alias: &str) -> (r: Option<usize>)
        ensures
            match r {
                Some(i) => alias_at(self@.entries, alias@, i as int),
                None => !has_alias(self@.entries, alias@),
            },
    {
        let key = String::from_str(alias);
        let mut i: usize = 0;
        while i < self.entries.len()
            invariant
                i <= self.entries.len(),
                key@ == alias@,
                forall|j: int| 0 <= j < i ==> #[trigger] self.entries@[j].alias@ != alias@,
            decreases self.entries.len() - i,
        {
            if self.entries[i].alias == key {
                return Some(i);
            }
            i = i + 1;
        }
        proof {
            if has_alias(self@.entries, alias@) {
                let j = choose|j: int| alias_at(self@.entries, alias@, j);
                assert(self.entries@[j].alias@ == alias@);
            }
        }
        None
    }

    /// Stores `e` under its alias, replacing an entry with that alias.
    fn put_entry(&mut self, e: CredentialEntry)
        ensures
            entry_map(final(self)@.entries) == entry_map(old(self)@.entries).insert(e.alias@, e@),
            final(self)@.passphrase == old(self)@.passphrase,
    {
        proof {
            use_type_invariant(&*self);
        }
        let ghost es = self@.entries;
        let ghost ev = e@;
        match self.position(e.alias.as_str()) {
            Some(i) => {
                proof {
                    lemma_map_set(es, i as int, ev);
                }
                let mut v: Vec<CredentialEntry> = Vec::new();
                std::mem::swap(&mut v, &mut self.entries);
                v.set(i, e);
                assert(entry_views(v@) =~= es.update(i as int, ev));
                self.entries = v;
            },
            None => {
                proof {
                    lemma_map_push(es, ev);
                }
                let mut v: Vec<CredentialEntry> = Vec::new();
                std::mem::swap(&mut v, &mut self.entries);
                v.push(e);
                assert(entry_views(v@) =~= es.push(ev));
                self.entries = v;
            },
        }
    }

    /// The sealed text of `plaintext`.
    fn encrypt(&self, plaintext: &str) -> (r: String)
        requires
            self@.passphrase.len() > 0 || plaintext@.len() == 0,
        ensures
            r@ == sealed_text(self@.passphrase, plaintext@),
    {
        proof {
            lemma_encode_nonempty(self@.passphrase);
            lemma_encode_nonempty(plaintext@);
        }
        let key = self.passphrase.as_str().as_bytes();
        let data = plaintext.as_bytes();
        let cipher = xor_with(data, key);
        hex_encode(cipher.as_slice())
    }

    /// The integrity tag of `data`.
    fn compute_hmac(&self, data: &[u8]) -> (r: String)
        ensures
            r@ == hmac_text(self@.passphrase, data@),
    {
        let key_hash = sha256(self.passphrase.as_str().as_bytes());
        let mut joined = key_hash;
        let ghost kh = joined@;
        let mut i: usize = 0;
        while i < data.len()
            invariant
                i <= data.len(),
                joined@ == kh + data@.subrange(0, i as int),
            decreases data.len() - i,
        {
            joined.push(data[i]);
            proof {
                assert(joined@ =~= kh + data@.subrange(0, i + 1));
            }
            i = i + 1;
        }
        assert(data@.subrange(0, data@.len() as int) =~= data@);
        let digest = sha256(joined.as_slice());
        hex_encode(digest.as_slice())
    }

    /// Adds a credential under `alias`, replacing one stored there, sealed at
    /// `now_ns`.
    pub fn add(&mut self, alias: &str, username: &str, password: &str, now_ns: u64)
        requires
            old(self)@.passphrase.len() > 0 || password@.len() == 0,
        ensures
            final(self)@.passphrase == old(self)@.passphrase,
            entry_map(final(self)@.entries) == entry_map(old(self)@.entries).insert(
                alias@,
                sealed_entry(old(self)@.passphrase, alias@, username@, password@, now_ns),
            ),
            resolvable(final(self)@, alias@),
            resolve_outcome(final(self)@, alias@) == (ResolveOutcome::Resolved {
                username: username@,
                password: password@,
            }),
    {
        let ghost before = self@;
        let encrypted = self.encrypt(password);
        let hmac = self.compute_hmac(encrypted.as_str().as_bytes());
        let entry = CredentialEntry {
            alias: String::from_str(alias),
            encrypted_pass: encrypted,
            hmac,
            created_at_ns: now_ns,
            last_used_at_ns: 0,
            username: String::from_str(username),
        };
        self.put_entry(entry);
        proof {
            lemma_add_then_resolve(before, self@, alias@, username@, password@, now_ns);
        }
    }

    /// Removes the credential stored under `alias`.
    pub fn remove(&mut self, alias: &str) -> (r: Result<(), VaultError>)
        ensures
            final(self)@.passphrase == old(self)@.passphrase,
            has_alias(old(self)@.entries, alias@) ==> r is Ok && entry_map(final(self)@.entries)
                == entry_map(old(self)@.entries).remove(alias@),
            !has_alias(old(self)@.entries, alias@) ==> (r matches Err(VaultError::AliasNotFound(x))
                && x@ == alias@) && final(self)@ == old(self)@,
    {
        proof {
            use_type_invariant(&*self);
        }
        let ghost es = self@.entries;
        match self.position(alias) {
            Some(i) => {
                proof {
                    lemma_map_remove(es, i as int);
                }
                let mut v: Vec<CredentialEntry> = Vec::new();
                std::mem::swap(&mut v, &mut self.entries);
                v.remove(i);
                assert(entry_views(v@) =~= es.remove(i as int));
                self.entries = v;
                Ok(())
            },
            None => Err(VaultError::AliasNotFound(String::from_str(alias))),
        }
    }

    /// Whether resolving `alias` runs to an answer (see `resolvable`).
    pub fn can_resolve(&self, alias: &str) -> (r: bool)
        ensures
            r == resolvable(self@, alias@),
    {
        proof {
            use_type_invariant(self);
        }
        match self.position(alias) {
            None => true,
            Some(i) => {
                proof {
                    lemma_entry_for(self@.entries, alias@, i as int);
                    lemma_encode_nonempty(self@.passphrase);
                }
                let e = &self.entries[i];
                let tag = self.compute_hmac(e.encrypted_pass.as_str().as_bytes());
                if !(tag == e.hmac) {
                    return true;
                }
                assert(e@ == self@.entries[i as int]);
                match hex_status(e.encrypted_pass.as_str()) {
                    HexStatus::Panics => false,
                    HexStatus::BadDigit => true,
                    HexStatus::Decodes(k) => k == 0 || !self.passphrase.as_str().is_empty(),
                }
            },
        }
    }

    /// Resolves the credential stored under `alias` at `now_ns`: checks its
    /// tag, unseals its password, and refreshes its time of last use when
    /// that is more than a minute old.
    pub fn resolve(&mut self, alias: &str, _purpose: ResolvePurpose, now_ns: u64) -> (r: Result<
        ResolvedCredential,
        VaultError,
    >)
        requires
            resolvable(old(self)@, alias@),
        ensures
            final(self)@.passphrase == old(self)@.passphrase,
            resolve_result_is(&r, resolve_outcome(old(self)@, alias@), alias@),
            entry_map(final(self)@.entries) == entries_after_resolve(old(self)@, alias@, now_ns),
    {
        proof {
            use_type_invariant(&*self);
        }
        let ghost es = self@.entries;
        let i = match self.position(alias) {
            None => {
                return Err(VaultError::CredentialNotFound(String::from_str(alias)));
            },
            Some(i) => i,
        };
        proof {
            lemma_entry_for(es, alias@, i as int);
            lemma_encode_nonempty(self@.passphrase);
        }
        let tag = self.compute_hmac(self.entries[i].encrypted_pass.as_str().as_bytes());
        if !(tag == self.entries[i].hmac) {
            return Err(VaultError::HmacMismatch);
        }
        let bytes = match hex_decode(self.entries[i].encrypted_pass.as_str()) {
            Err(()) => {
                return Err(VaultError::HexDecode);
            },
            Ok(b) => b,
        };
        let key = self.passphrase.as_str().as_bytes();
        let plain = xor_with(bytes.as_slice(), key);
        let password = match utf8_text(plain) {
            Err(m) => {
                return Err(VaultError::Utf8(m));
            },
            Ok(p) => p,
        };
        let username = self.entries[i].username.clone();
        let last = self.entries[i].last_used_at_ns;
        if now_ns > last && now_ns - last > 60_000_000_000 {
            let mut e = copy_entry(&self.entries[i]);
            e.last_used_at_ns = now_ns;
            proof {
                lemma_map_set(es, i as int, e@);
                assert(e@ == touched(es[i as int], now_ns));
            }
            let mut v: Vec<CredentialEntry> = Vec::new();
            std::mem::swap(&mut v, &mut self.entries);
            v.set(i, e);
            assert(entry_views(v@) =~= es.update(i as int, touched(es[i as int], now_ns)));
            self.entries = v;
        }
        Ok(ResolvedCredential { alias: String::from_str(alias), username, password })
    }

    /// Resolves `alias` where that runs to an answer; `None`, with the vault
    /// unchanged, where it would not.
    pub fn resolve_checked(&mut self, alias: &str, purpose: ResolvePurpose, now_ns: u64) -> (r: Option<
        Result<ResolvedCredential, VaultError>,
    >)
        ensures
            final(self)@.passphrase == old(self)@.passphrase,
            !resolvable(old(self)@, alias@) ==> r is None && final(self)@ == old(self)@,
            resolvable(old(self)@, alias@) ==> (r matches Some(x) && resolve_result_is(
                &x,
                resolve_outcome(old(self)@, alias@),
                alias@,
            )) && entry_map(final(self)@.entries) == entries_after_resolve(old(self)@, alias@, now_ns),
    {
        if self.can_resolve(alias) {
            Some(self.resolve(alias, purpose, now_ns))
        } else {
            None
        }
    }

    /// Every credential's alias, username and times, in storage order.
    pub fn list(&self) -> (r: Vec<CredentialSummary>)
        ensures
            r@.len() == self@.entries.len(),
            forall|i: int|
                0 <= i < r@.len() ==> summarizes(#[trigger] r@[i], self@.entries[i]),
    {
        let mut out: Vec<CredentialSummary> = Vec::new();
        let mut i: usize = 0;
        while i < self.entries.len()
            invariant
                i <= self.entries.len(),
                out@.len() == i,
                forall|j: int|
                    0 <= j < i ==> summarizes(#[trigger] out@[j], self@.entries[j]),
            decreases self.entries.len() - i,
        {
            let e = &self.entries[i];
            assert(e@ == self@.entries[i as int]);
            out.push(
                CredentialSummary {
                    alias: e.alias.clone(),
                    username: e.username.clone(),
                    created_at_ns: e.created_at_ns,
                    last_used_at_ns: e.last_used_at_ns,
                },
            );
            i = i + 1;
        }
        out
    }
}

/// A field-by-field copy of `e`.
pub fn copy_entry(e: &CredentialEntry) -> (r: CredentialEntry)
    ensures
        r@ == e@,
{
    CredentialEntry {
        alias: e.alias.clone(),
        encrypted_pass: e.encrypted_pass.clone(),
        hmac: e.hmac.clone(),
        created_at_ns: e.created_at_ns,
        last_used_at_ns: e.last_used_at_ns,
        username: e.username.clone(),
    }
}

/// How hex-decoding a text ends, without the bytes.
enum HexStatus {
    Decodes(usize),
    BadDigit,
    Panics,
}

/// How hex-decoding `s` ends; with the number of bytes where it decodes.
fn hex_status(s: &str) -> (r: HexStatus)
    ensures
        match hex_decoding(encode_utf8(s@)) {
            HexDecoding::Bytes(d) => r matches HexStatus::Decodes(k) && k == d.len(),
            HexDecoding::BadDigit => r is BadDigit,
            HexDecoding::Panic => r is Panics,
        },
{
    let b = s.as_bytes();
    let ghost full = b@;
    let n = b.len();
    let mut count: usize = 0;
    let ghost mut out: Seq<u8> = seq![];
    let mut i: usize = 0;
    assert(full.subrange(0, n as int) =~= full);
    while i < n
        invariant
            full == b@,
            full == encode_utf8(s@),
            n == full.len(),
            i <= n,
            count == out.len(),
            count <= i,
            hex_decoding(full) == prepend_bytes(out, hex_decoding(full.subrange(i as int, n as int))),
        decreases n - i,
    {
        let ghost rest = full.subrange(i as int, n as int);
        if n - i < 2 {
            return HexStatus::Panics;
        }
        if n - i > 2 && 0x80 <= b[i + 2] && b[i + 2] <= 0xbf {
            assert(rest[2] == b@[i + 2]);
            return HexStatus::Panics;
        }
        proof {
            assert(rest.subrange(2, rest.len() as int) =~= full.subrange(i + 2, n as int));
        }
        match hex_pair(b[i], b[i + 1]) {
            None => {
                return HexStatus::BadDigit;
            },
            Some(v) => {
                proof {
                    let tail = hex_decoding(full.subrange(i + 2, n as int));
                    if let HexDecoding::Bytes(t) = tail {
                        assert(out + (seq![v] + t) =~= out.push(v) + t);
                    }
                    out = out.push(v);
                }
                count = count + 1;
                i = i + 2;
            },
        }
    }
    proof {
        assert(full.subrange(n as int, n as int) =~= Seq::<u8>::empty());
        assert(out + Seq::<u8>::empty() =~= out);
    }
    HexStatus::Decodes(count)
}

} // verus!
