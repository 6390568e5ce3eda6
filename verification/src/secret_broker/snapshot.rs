//! The persisted form of a store: an authenticated, encrypted snapshot.
//!
//! A file is a header and a sealed message. The header is a magic text, a version, the revision
//! and the nonce; it is authenticated together with the message. The message is the number of
//! entries and then, for each entry, its key and its value with their lengths in front.
use chacha20poly1305::aead::{Aead, Payload};
use chacha20poly1305::{ChaCha20Poly1305, Key, KeyInit, Nonce};
use vstd::prelude::*;
use vstd::slice::slice_to_vec;
use vstd::utf8::{decode_utf8, encode_utf8, encode_utf8_decode_utf8, encode_utf8_valid_utf8, valid_utf8};

use crate::big_endian::{be_bytes, be_value, lemma_be_round_trip, lemma_pow256, push_be, read_be};
use crate::paths::{components, components_of};
use crate::secret_broker::error::{
    map_store_error, mapped_store_error, BoundedItem, SecretError, SecretStoreError,
};
use crate::secret_broker::model::{erase, SecretKey, SecretValue};
use crate::secret_broker::store::{
    lemma_total_insert, put_problem, secret_bytes, total_bytes, MemorySecretStore, SecretStore,
    Secrets,
};
use crate::secret_broker::{
    MASTER_KEY_BYTES, MAX_SECRET_FILE_BYTES, MAX_SECRET_KEY_BYTES, MAX_SECRET_STORE_BYTES,
    MAX_SECRET_STORE_ENTRIES, MAX_SECRET_VALUE_BYTES,
};
use crate::text::{any_control, has_control, str_eq, texts, to_bytes, utf8_len, utf8_text};
use crate::text_map::{entry_map, lemma_removed_map, sorted};

verus! {

pub const FILE_VERSION: u8 = 1;

pub const NONCE_BYTES: usize = 12;

pub const AEAD_TAG_BYTES: usize = 16;

pub const FILE_HEADER_BYTES: usize = 29;

/// The longest message that is ever sealed or opened here.
pub const MAX_MESSAGE_BYTES: usize = 0x4000_0000;

// ---------------------------------------------------------------------------
// Outside calls
// ---------------------------------------------------------------------------
/// What `ChaCha20Poly1305::encrypt` makes of a message.
pub uninterp spec fn sealed(
    key: Seq<u8>,
    nonce: Seq<u8>,
    header: Seq<u8>,
    message: Seq<u8>,
) -> Seq<u8>;

/// What `ChaCha20Poly1305::decrypt` makes of a sealed message; nothing, unless the tag fits.
pub uninterp spec fn opened(
    key: Seq<u8>,
    nonce: Seq<u8>,
    header: Seq<u8>,
    ciphertext: Seq<u8>,
) -> Option<Seq<u8>>;

/// `Aead::encrypt` of `ChaCha20Poly1305`: seals a message of moderate length, which never
/// fails; the result is longer than the message by the tag, and `decrypt` with the same key,
/// nonce and header gives the message back.
#[verifier::external_body]
fn seal(key: &Vec<u8>, nonce: &Vec<u8>, header: &Vec<u8>, message: &Vec<u8>) -> (r: Option<Vec<u8>>)
    requires
        key@.len() == MASTER_KEY_BYTES,
        nonce@.len() == NONCE_BYTES,
        message@.len() <= MAX_MESSAGE_BYTES,
    ensures
        r is Some,
        r->0@ == sealed(key@, nonce@, header@, message@),
        r->0@.len() == message@.len() + AEAD_TAG_BYTES,
        opened(key@, nonce@, header@, r->0@) == Some(message@),
{
    let cipher = ChaCha20Poly1305::new(Key::from_slice(key));
    cipher.encrypt(Nonce::from_slice(nonce), Payload { msg: message, aad: header }).ok()
}

/// `Aead::decrypt` of `ChaCha20Poly1305`: the message, when the tag authenticates it together
/// with the header; it is shorter than what was sealed by the tag.
#[verifier::external_body]
fn open_sealed(key: &Vec<u8>, nonce: &Vec<u8>, header: &Vec<u8>, ciphertext: &Vec<u8>) -> (r:
    Option<Vec<u8>>)
    requires
        key@.len() == MASTER_KEY_BYTES,
        nonce@.len() == NONCE_BYTES,
        ciphertext@.len() <= MAX_MESSAGE_BYTES,
    ensures
        r is Some == opened(key@, nonce@, header@, ciphertext@) is Some,
        r is Some ==> Some(r->0@) == opened(key@, nonce@, header@, ciphertext@),
        r is Some ==> r->0@.len() + AEAD_TAG_BYTES == ciphertext@.len(),
{
    let cipher = ChaCha20Poly1305::new(Key::from_slice(key));
    cipher.decrypt(Nonce::from_slice(nonce), Payload { msg: ciphertext, aad: header }).ok()
}

/// `getrandom::fill`: overwrites the buffer with random bytes and says whether that worked.
/// Nothing is known of the bytes.
#[verifier::external_body]
fn fill_random(buffer: &mut Vec<u8>) -> (r: bool)
    ensures
        final(buffer)@.len() == old(buffer)@.len(),
{
    getrandom::fill(buffer).is_ok()
}

// ---------------------------------------------------------------------------
// The message
// ---------------------------------------------------------------------------
/// A key with its value.
pub type Entry = (Seq<char>, Seq<u8>);

pub open spec fn entry_bytes(entry: Entry) -> Seq<u8> {
    be_bytes(utf8_len(entry.0), 4) + encode_utf8(entry.0) + be_bytes(entry.1.len(), 4) + entry.1
}

pub open spec fn entries_bytes(entries: Seq<Entry>) -> Seq<u8>
    decreases entries.len(),
{
    if entries.len() == 0 {
        seq![]
    } else {
        entry_bytes(entries[0]) + entries_bytes(entries.drop_first())
    }
}

/// The message for these entries, in this order.
pub open spec fn encoding(entries: Seq<Entry>) -> Seq<u8> {
    be_bytes(entries.len(), 4) + entries_bytes(entries)
}

/// The secrets that the entries make, the last one of a key counting.
pub open spec fn secrets_of(entries: Seq<Entry>) -> Secrets
    decreases entries.len(),
{
    if entries.len() == 0 {
        Map::empty()
    } else {
        secrets_of(entries.drop_last()).insert(entries.last().0, entries.last().1)
    }
}

/// The number that stands at `at`, and the place behind it.
pub open spec fn number_at(bytes: Seq<u8>, at: int) -> Option<nat> {
    if at + 4 <= bytes.len() {
        Some(be_value(bytes.subrange(at, at + 4)))
    } else {
        None
    }
}

/// The entry that stands at `at`, and the place behind it.
pub open spec fn entry_at(bytes: Seq<u8>, at: int) -> Option<(Entry, int)> {
    match number_at(bytes, at) {
        None => None,
        Some(key_len) => {
            let key_bytes = bytes.subrange(at + 4, at + 4 + key_len);
            let key = decode_utf8(key_bytes);
            if key_len == 0 || key_len > MAX_SECRET_KEY_BYTES || at + 4 + key_len > bytes.len()
                || !valid_utf8(key_bytes) || has_control(key) {
                None
            } else {
                match number_at(bytes, at + 4 + key_len) {
                    None => None,
                    Some(value_len) => {
                        let from = at + 8 + key_len;
                        if value_len > MAX_SECRET_VALUE_BYTES || from + value_len > bytes.len() {
                            None
                        } else {
                            Some(((key, bytes.subrange(from, from + value_len)), from + value_len))
                        }
                    },
                }
            }
        },
    }
}

/// The secrets once `left` more entries have been read from `at` on, up to the end.
pub open spec fn decoded_from(bytes: Seq<u8>, at: int, left: nat, secrets: Secrets) -> Option<
    Secrets,
>
    decreases left,
{
    if left == 0 {
        if at == bytes.len() {
            Some(secrets)
        } else {
            None
        }
    } else {
        match entry_at(bytes, at) {
            None => None,
            Some((entry, next)) => if secrets.dom().contains(entry.0) || total_bytes(secrets)
                + entry.1.len() > MAX_SECRET_STORE_BYTES {
                None
            } else {
                decoded_from(bytes, next, (left - 1) as nat, secrets.insert(entry.0, entry.1))
            },
        }
    }
}

/// The secrets that a message holds.
pub open spec fn decoded(bytes: Seq<u8>) -> Option<Secrets> {
    match number_at(bytes, 0) {
        None => None,
        Some(count) => if count > MAX_SECRET_STORE_ENTRIES {
            None
        } else {
            decoded_from(bytes, 4, count, Map::empty())
        },
    }
}

/// Entries that a store can have: bounded, accepted keys, no key twice.
pub open spec fn storable(entries: Seq<Entry>) -> bool {
    &&& entries.len() <= MAX_SECRET_STORE_ENTRIES
    &&& total_bytes(secrets_of(entries)) <= MAX_SECRET_STORE_BYTES
    &&& forall|i: int|
        0 <= i < entries.len() ==> SecretKey::problem((#[trigger] entries[i]).0) is None
            && entries[i].1.len() <= MAX_SECRET_VALUE_BYTES
    &&& forall|i: int, j: int|
        0 <= i < j < entries.len() ==> (#[trigger] entries[i]).0 != (#[trigger] entries[j]).0
}

/// Reading a message gives back the secrets that were written, for every order of the entries.
pub proof fn lemma_message_round_trip(entries: Seq<Entry>)
    requires
        storable(entries),
    ensures
        decoded(encoding(entries)) == Some(secrets_of(entries)),
{
    let bytes = encoding(entries);
    lemma_be_round_trip(entries.len(), 4);
    lemma_pow256();
    assert(bytes.subrange(0, 4) =~= be_bytes(entries.len(), 4));
    assert(bytes.skip(4) =~= entries_bytes(entries));
    assert(entries.skip(0) =~= entries);
    assert(entries.take(0) =~= seq![]);
    lemma_decode_rest(bytes, 4, entries, 0);
}

/// What was read of a message is read the same of a longer one, so that one goes on behind its
/// last entry.
proof fn lemma_longer_message(
    shorter: Seq<u8>,
    longer: Seq<u8>,
    at: int,
    left: nat,
    secrets: Secrets,
)
    requires
        0 <= at,
        shorter.len() < longer.len(),
        longer.take(shorter.len() as int) == shorter,
        decoded_from(shorter, at, left, secrets) is Some,
    ensures
        decoded_from(longer, at, left, secrets) is None,
    decreases left,
{
    if left > 0 {
        let (entry, next) = entry_at(shorter, at)->0;
        let key_len = number_at(shorter, at)->0 as int;
        assert(longer.subrange(at, at + 4) =~= shorter.subrange(at, at + 4));
        assert(longer.subrange(at + 4, at + 4 + key_len) =~= shorter.subrange(
            at + 4,
            at + 4 + key_len,
        ));
        assert(longer.subrange(at + 4 + key_len, at + 8 + key_len) =~= shorter.subrange(
            at + 4 + key_len,
            at + 8 + key_len,
        ));
        assert(longer.subrange(at + 8 + key_len, next) =~= shorter.subrange(
            at + 8 + key_len,
            next,
        ));
        assert(entry_at(longer, at) == Some((entry, next)));
        lemma_longer_message(
            shorter,
            longer,
            next,
            (left - 1) as nat,
            secrets.insert(entry.0, entry.1),
        );
    }
}

/// No message is the start of another one: of two texts of which one goes on where the other
/// ends, at most one can be read.
pub proof fn lemma_no_message_starts_another(shorter: Seq<u8>, longer: Seq<u8>)
    requires
        shorter.len() < longer.len(),
        longer.take(shorter.len() as int) == shorter,
    ensures
        decoded(shorter) is None || decoded(longer) is None,
{
    if decoded(shorter) is Some {
        assert(longer.subrange(0, 4) =~= shorter.subrange(0, 4));
        lemma_longer_message(shorter, longer, 4, number_at(shorter, 0)->0, Map::empty());
    }
}

/// A written message to which bytes are added, or from whose end bytes are cut off, is not read.
pub proof fn lemma_cut_or_extended_message_is_corrupt(
    entries: Seq<Entry>,
    added: Seq<u8>,
    kept: int,
)
    requires
        storable(entries),
        added.len() > 0,
        0 <= kept < encoding(entries).len(),
    ensures
        decoded(encoding(entries) + added) is None,
        decoded(encoding(entries).take(kept)) is None,
{
    let message = encoding(entries);
    lemma_message_round_trip(entries);
    assert((message + added).take(message.len() as int) =~= message);
    lemma_no_message_starts_another(message, message + added);
    lemma_no_message_starts_another(message.take(kept), message);
}

proof fn lemma_decode_rest(bytes: Seq<u8>, at: int, entries: Seq<Entry>, k: int)
    requires
        storable(entries),
        0 <= k <= entries.len(),
        0 <= at <= bytes.len(),
        bytes.skip(at) == entries_bytes(entries.skip(k)),
    ensures
        decoded_from(bytes, at, (entries.len() - k) as nat, secrets_of(entries.take(k))) == Some(
            secrets_of(entries),
        ),
    decreases entries.len() - k,
{
    if k == entries.len() {
        assert(entries.skip(k).len() == 0);
        assert(entries.take(k) =~= entries);
    } else {
        let entry = entries[k];
        let rest = entries.skip(k);
        assert(rest[0] == entry);
        assert(rest.drop_first() =~= entries.skip(k + 1));
        let tail = entries_bytes(entries.skip(k + 1));
        assert(bytes.skip(at) == entry_bytes(entry) + tail);
        lemma_entry_at(bytes, at, entry, tail);
        let next = at + entry_bytes(entry).len();
        assert(bytes.skip(next) =~= tail) by {
            assert(bytes.skip(at).skip(entry_bytes(entry).len() as int) =~= tail);
            assert(bytes.skip(next) =~= bytes.skip(at).skip(entry_bytes(entry).len() as int));
        }
        assert(entries.take(k + 1).drop_last() =~= entries.take(k));
        assert(entries.take(k + 1).last() == entry);
        lemma_key_is_new(entries, k);
        lemma_prefix_total(entries, k + 1);
        lemma_total_insert(secrets_of(entries.take(k)), entry.0, entry.1);
        assert(secrets_of(entries.take(k)).remove(entry.0) =~= secrets_of(entries.take(k)));
        lemma_decode_rest(bytes, next, entries, k + 1);
    }
}

proof fn lemma_secrets_finite(entries: Seq<Entry>)
    ensures
        secrets_of(entries).dom().finite(),
        secrets_of(entries).dom().len() <= entries.len(),
        forall|key: Seq<char>| #[trigger]
            secrets_of(entries).dom().contains(key) ==> exists|i: int|
                0 <= i < entries.len() && (#[trigger] entries[i]).0 == key,
    decreases entries.len(),
{
    if entries.len() > 0 {
        let shorter = entries.drop_last();
        lemma_secrets_finite(shorter);
        assert forall|key: Seq<char>| #[trigger]
            secrets_of(entries).dom().contains(key) implies exists|i: int|
            0 <= i < entries.len() && (#[trigger] entries[i]).0 == key by {
            if key == entries.last().0 {
                assert(entries[entries.len() - 1].0 == key);
            } else {
                assert(secrets_of(shorter).dom().contains(key));
                let i = choose|i: int| 0 <= i < shorter.len() && (#[trigger] shorter[i]).0 == key;
                assert(entries[i].0 == key);
            }
        }
    }
}

proof fn lemma_key_is_new(entries: Seq<Entry>, k: int)
    requires
        storable(entries),
        0 <= k < entries.len(),
    ensures
        !secrets_of(entries.take(k)).dom().contains(entries[k].0),
        secrets_of(entries.take(k)).dom().finite(),
{
    let earlier = entries.take(k);
    lemma_secrets_finite(earlier);
    if secrets_of(earlier).dom().contains(entries[k].0) {
        let i = choose|i: int| 0 <= i < earlier.len() && (#[trigger] earlier[i]).0 == entries[k].0;
        assert(entries[i].0 == entries[k].0);
    }
}

proof fn lemma_prefix_total(entries: Seq<Entry>, k: int)
    requires
        storable(entries),
        0 <= k <= entries.len(),
    ensures
        total_bytes(secrets_of(entries.take(k))) <= MAX_SECRET_STORE_BYTES,
    decreases entries.len() - k,
{
    if k == entries.len() {
        assert(entries.take(k) =~= entries);
    } else {
        lemma_prefix_total(entries, k + 1);
        lemma_key_is_new(entries, k);
        let before = secrets_of(entries.take(k));
        assert(entries.take(k + 1).drop_last() =~= entries.take(k));
        assert(entries.take(k + 1).last() == entries[k]);
        lemma_total_insert(before, entries[k].0, entries[k].1);
        assert(before.remove(entries[k].0) =~= before);
    }
}

proof fn lemma_entry_at(bytes: Seq<u8>, at: int, entry: Entry, tail: Seq<u8>)
    requires
        0 <= at <= bytes.len(),
        bytes.skip(at) == entry_bytes(entry) + tail,
        SecretKey::problem(entry.0) is None,
        entry.1.len() <= MAX_SECRET_VALUE_BYTES,
    ensures
        entry_at(bytes, at) == Some((entry, at + entry_bytes(entry).len())),
{
    let key_bytes = encode_utf8(entry.0);
    let key_len = key_bytes.len();
    let value_len = entry.1.len();
    lemma_pow256();
    lemma_be_round_trip(key_len, 4);
    lemma_be_round_trip(value_len, 4);
    encode_utf8_valid_utf8(entry.0);
    encode_utf8_decode_utf8(entry.0);
    let all = entry_bytes(entry) + tail;
    assert(all.len() == 8 + key_len + value_len + tail.len());
    assert(bytes.subrange(at, at + 4) =~= be_bytes(key_len, 4)) by {
        assert(bytes.subrange(at, at + 4) =~= bytes.skip(at).subrange(0, 4));
        assert(all.subrange(0, 4) =~= be_bytes(key_len, 4));
    }
    assert(bytes.subrange(at + 4, at + 4 + key_len) =~= key_bytes) by {
        assert(bytes.subrange(at + 4, at + 4 + key_len) =~= bytes.skip(at).subrange(
            4,
            4 + key_len as int,
        ));
        assert(all.subrange(4, 4 + key_len as int) =~= key_bytes);
    }
    assert(bytes.subrange(at + 4 + key_len, at + 8 + key_len) =~= be_bytes(value_len, 4)) by {
        assert(bytes.subrange(at + 4 + key_len, at + 8 + key_len) =~= bytes.skip(at).subrange(
            4 + key_len as int,
            8 + key_len as int,
        ));
        assert(all.subrange(4 + key_len as int, 8 + key_len as int) =~= be_bytes(value_len, 4));
    }
    let from = at + 8 + key_len;
    assert(bytes.subrange(from, from + value_len) =~= entry.1) by {
        assert(bytes.subrange(from, from + value_len) =~= bytes.skip(at).subrange(
            8 + key_len as int,
            8 + key_len as int + value_len as int,
        ));
        assert(all.subrange(8 + key_len as int, 8 + key_len as int + value_len as int) =~= entry.1);
    }
    if key_len == 0 {
        assert(decode_utf8(key_bytes) =~= seq![]);
        assert(entry.0 =~= seq![]);
    }
}

proof fn lemma_entries_push(entries: Seq<Entry>, entry: Entry)
    ensures
        entries_bytes(entries.push(entry)) == entries_bytes(entries) + entry_bytes(entry),
    decreases entries.len(),
{
    let longer = entries.push(entry);
    if entries.len() == 0 {
        assert(longer.drop_first() =~= seq![]);
        assert(longer[0] == entry);
        assert(entries_bytes(longer.drop_first()) =~= seq![]);
        assert(entries_bytes(longer) =~= entry_bytes(entry));
        assert(entries_bytes(entries) + entry_bytes(entry) =~= entry_bytes(entry));
    } else {
        assert(longer.drop_first() =~= entries.drop_first().push(entry));
        lemma_entries_push(entries.drop_first(), entry);
        assert(entries_bytes(longer) =~= entries_bytes(entries) + entry_bytes(entry));
    }
}

/// The length of a message stays far below the limit of a file.
proof fn lemma_encoded_len(entries: Seq<Entry>, k: int)
    requires
        storable(entries),
        0 <= k <= entries.len(),
    ensures
        entries_bytes(entries.take(k)).len() <= 264 * k + total_bytes(
            secrets_of(entries.take(k)),
        ),
    decreases k,
{
    if k > 0 {
        lemma_encoded_len(entries, k - 1);
        let shorter = entries.take(k - 1);
        let entry = entries[k - 1];
        assert(entries.take(k) =~= shorter.push(entry));
        lemma_entries_push(shorter, entry);
        lemma_be_round_trip(utf8_len(entry.0), 4);
        lemma_be_round_trip(entry.1.len(), 4);
        lemma_key_is_new(entries, k - 1);
        assert(entries.take(k).drop_last() =~= shorter);
        lemma_total_insert(secrets_of(shorter), entry.0, entry.1);
        assert(secrets_of(shorter).remove(entry.0) =~= secrets_of(shorter));
    } else {
        assert(entries.take(0) =~= seq![]);
    }
}

// ---------------------------------------------------------------------------
// Writing and reading a message
// ---------------------------------------------------------------------------
/// The entries of a store in the order of their keys.
pub open spec fn listed(entries: Seq<(Seq<char>, SecretValue)>) -> Seq<Entry> {
    entries.map_values(|entry: (Seq<char>, SecretValue)| (entry.0, entry.1@))
}

proof fn lemma_listed(entries: Seq<(Seq<char>, SecretValue)>)
    requires
        sorted(entries),
    ensures
        secrets_of(listed(entries)) == secret_bytes(entry_map(entries)),
    decreases entries.len(),
{
    if entries.len() == 0 {
        assert(secrets_of(listed(entries)) =~= secret_bytes(entry_map(entries)));
    } else {
        let last = entries.len() - 1;
        let shorter = entries.drop_last();
        assert(entries.remove(last) =~= shorter);
        lemma_removed_map(entries, last);
        lemma_listed(shorter);
        assert(listed(entries).drop_last() =~= listed(shorter));
        crate::text_map::lemma_entry(entries, last);
        let key = entries[last].0;
        let value = entries[last].1;
        assert(entry_map(entries) =~= entry_map(shorter).insert(key, value));
        assert(secret_bytes(entry_map(entries)) =~= secret_bytes(entry_map(shorter)).insert(
            key,
            value@,
        ));
    }
}

proof fn lemma_listed_is_storable(entries: Seq<(Seq<char>, SecretValue)>, secrets: Secrets)
    requires
        sorted(entries),
        secrets == secret_bytes(entry_map(entries)),
        entries.len() <= MAX_SECRET_STORE_ENTRIES,
        total_bytes(secrets) <= MAX_SECRET_STORE_BYTES,
        crate::secret_broker::store::keys_accepted(secrets),
        crate::secret_broker::store::values_bounded(secrets),
    ensures
        storable(listed(entries)),
        secrets_of(listed(entries)) == secrets,
{
    lemma_listed(entries);
    let all = listed(entries);
    assert forall|i: int| 0 <= i < all.len() implies SecretKey::problem((#[trigger] all[i]).0) is None
        && all[i].1.len() <= MAX_SECRET_VALUE_BYTES by {
        crate::text_map::lemma_entry(entries, i);
        assert(secrets.dom().contains(entries[i].0));
        assert(secrets[entries[i].0] == entries[i].1@);
    }
    assert forall|i: int, j: int| 0 <= i < j < all.len() implies (#[trigger] all[i]).0
        != (#[trigger] all[j]).0 by {
        assert(crate::text_map::text_lt(entries[i].0, entries[j].0));
        crate::text_map::lemma_text_order_is_total(entries[i].0, entries[j].0);
    }
}

/// Entries that make exactly these secrets, none of them twice.
pub open spec fn lists(entries: Seq<Entry>, secrets: Secrets) -> bool {
    storable(entries) && secrets_of(entries) == secrets
}

/// The message for the secrets of a store.
pub fn encode_snapshot(store: &MemorySecretStore) -> (r: Vec<u8>)
    ensures
        exists|entries: Seq<Entry>| lists(entries, store@) && r@ == #[trigger] encoding(entries),
        decoded(r@) == Some(store@),
        r@.len() + FILE_HEADER_BYTES + AEAD_TAG_BYTES <= MAX_SECRET_FILE_BYTES,
{
    let values = store.values();
    let count: usize = values.len();
    let ghost raw = values.entries();
    let ghost all = listed(raw);
    proof {
        assert(values@.dom() =~= secret_bytes(values@).dom());
        lemma_listed_is_storable(raw, store@);
    }
    let mut out: Vec<u8> = Vec::new();
    push_be(&mut out, count as u64, 4);
    let ghost head = be_bytes(count as nat, 4);
    assert(out@ =~= head);
    let mut i: usize = 0;
    assert(all.take(0) =~= seq![]);
    assert(out@ =~= head + entries_bytes(all.take(0)));
    while i < count
        invariant
            count == raw.len(),
            raw == values.entries(),
            all == listed(raw),
            storable(all),
            i <= count,
            out@ == head + entries_bytes(all.take(i as int)),
        decreases count - i,
    {
        let key = values.key_at(i);
        let value = values.value_at(i);
        let ghost before = out@;
        let key_bytes = to_bytes(key);
        let mut value_bytes = value.bytes().clone();
        push_be(&mut out, key_bytes.len() as u64, 4);
        out.extend_from_slice(key_bytes.as_slice());
        push_be(&mut out, value_bytes.len() as u64, 4);
        out.extend_from_slice(value_bytes.as_slice());
        proof {
            let entry = all[i as int];
            assert(entry == (key@, value@));
            assert(out@ =~= before + entry_bytes(entry));
            lemma_entries_push(all.take(i as int), entry);
            assert(all.take(i + 1) =~= all.take(i as int).push(entry));
            assert(out@ =~= head + entries_bytes(all.take(i + 1)));
        }
        erase(&mut value_bytes);
        i += 1;
    }
    proof {
        assert(all.take(i as int) =~= all);
        lemma_message_round_trip(all);
        lemma_encoded_len(all, all.len() as int);
        lemma_be_round_trip(count as nat, 4);
        assert(lists(all, store@) && out@ == encoding(all));
    }
    out
}

fn copy_range(bytes: &Vec<u8>, from: usize, to: usize) -> (r: Vec<u8>)
    requires
        from <= to <= bytes@.len(),
    ensures
        r@ == bytes@.subrange(from as int, to as int),
{
    let mut out: Vec<u8> = Vec::new();
    let mut i: usize = from;
    assert(out@ =~= bytes@.subrange(from as int, from as int));
    while i < to
        invariant
            from <= i <= to <= bytes@.len(),
            out@ == bytes@.subrange(from as int, i as int),
        decreases to - i,
    {
        out.push(bytes[i]);
        assert(out@ =~= bytes@.subrange(from as int, i + 1));
        i += 1;
    }
    out
}

/// The entry that stands at `at`, and the place behind it.
fn read_entry(bytes: &Vec<u8>, at: usize) -> (r: Option<(SecretKey, SecretValue, usize)>)
    requires
        at <= bytes@.len(),
    ensures
        r is Some == entry_at(bytes@, at as int) is Some,
        r is Some ==> entry_at(bytes@, at as int) == Some(
            (((r->0).0@, (r->0).1@), (r->0).2 as int),
        ) && (r->0).2 <= bytes@.len(),
{
    proof {
        lemma_pow256();
    }
    if bytes.len() - at < 4 {
        return None;
    }
    let key_len: usize = read_be(bytes, at, 4) as usize;
    if key_len == 0 || key_len > MAX_SECRET_KEY_BYTES || key_len > bytes.len() - at - 4 {
        return None;
    }
    let key_bytes = copy_range(bytes, at + 4, at + 4 + key_len);
    let key_text = match utf8_text(key_bytes) {
        Ok(text) => text,
        Err(_) => return None,
    };
    if any_control(key_text.as_str()) {
        return None;
    }
    let value_at: usize = at + 4 + key_len;
    if bytes.len() - value_at < 4 {
        return None;
    }
    let value_len: usize = read_be(bytes, value_at, 4) as usize;
    if value_len > MAX_SECRET_VALUE_BYTES || value_len > bytes.len() - value_at - 4 {
        return None;
    }
    let from: usize = value_at + 4;
    let mut value_bytes = copy_range(bytes, from, from + value_len);
    proof {
        vstd::utf8::decode_utf8_encode_utf8(bytes@.subrange(at + 4, at + 4 + key_len));
        if key_text@.len() == 0 {
            assert(encode_utf8(key_text@) =~= seq![]);
        }
    }
    let key = SecretKey::new(key_text.as_str());
    let value = SecretValue::new(value_bytes.as_slice());
    erase(&mut value_bytes);
    match (key, value) {
        (Ok(key), Ok(value)) => Some((key, value, from + value_len)),
        _ => None,
    }
}

/// The secrets that a message holds; anything that is not a message is refused as corrupt.
pub fn decode_snapshot(bytes: &Vec<u8>) -> (r: Result<MemorySecretStore, SecretStoreError>)
    ensures
        match r {
            Ok(store) => decoded(bytes@) == Some(store@),
            Err(error) => decoded(bytes@) is None && error == SecretStoreError::Corrupt,
        },
{
    if bytes.len() < 4 {
        return Err(SecretStoreError::Corrupt);
    }
    let count: u64 = read_be(bytes, 0, 4);
    if count > MAX_SECRET_STORE_ENTRIES as u64 {
        return Err(SecretStoreError::Corrupt);
    }
    let mut store = MemorySecretStore::new();
    let mut cursor: usize = 4;
    let mut read: u64 = 0;
    while read < count
        invariant
            read <= count <= MAX_SECRET_STORE_ENTRIES,
            cursor <= bytes@.len(),
            store@.dom().finite(),
            store@.dom().len() <= read,
            decoded(bytes@) == decoded_from(
                bytes@,
                cursor as int,
                (count - read) as nat,
                store@,
            ),
        decreases count - read,
    {
        let (key, value, next) = match read_entry(bytes, cursor) {
            Some(entry) => entry,
            None => return Err(SecretStoreError::Corrupt),
        };
        if store.values().contains_key(key.as_str()) {
            assert(secret_bytes(store.values_map()).dom() =~= store.values_map().dom());
            return Err(SecretStoreError::Corrupt);
        }
        assert(secret_bytes(store.values_map()).dom() =~= store.values_map().dom());
        let length: usize = value.len();
        if length > MAX_SECRET_STORE_BYTES - store.total() {
            return Err(SecretStoreError::Corrupt);
        }
        let ghost before = store@;
        proof {
            assert(before.remove(key@) =~= before);
        }
        let stored = store.put_value(&key, value);
        if stored.is_err() {
            return Err(SecretStoreError::Corrupt);
        }
        proof {
            assert(store@.dom() =~= before.dom().insert(key@));
        }
        cursor = next;
        read += 1;
    }
    if cursor != bytes.len() {
        return Err(SecretStoreError::Corrupt);
    }
    Ok(store)
}

// ---------------------------------------------------------------------------
// The file
// ---------------------------------------------------------------------------
/// `YXSBRK01`
pub open spec fn file_magic() -> Seq<u8> {
    seq![0x59u8, 0x58, 0x53, 0x42, 0x52, 0x4b, 0x30, 0x31]
}

pub open spec fn file_header(revision: u64, nonce: Seq<u8>) -> Seq<u8> {
    file_magic() + seq![FILE_VERSION] + be_bytes(revision as nat, 8) + nonce
}

/// The file with this revision, nonce and message.
pub open spec fn file_bytes(key: Seq<u8>, revision: u64, nonce: Seq<u8>, message: Seq<u8>) -> Seq<
    u8,
> {
    let header = file_header(revision, nonce);
    header + sealed(key, nonce, header, message)
}

/// The revision and the secrets of a file; nothing, unless it is complete and authentic.
pub open spec fn file_content(key: Seq<u8>, file: Seq<u8>) -> Option<(u64, Secrets)> {
    let revision = be_value(file.subrange(9, 17));
    if file.len() < FILE_HEADER_BYTES + AEAD_TAG_BYTES || file.len() > MAX_SECRET_FILE_BYTES
        || file.subrange(0, 8) != file_magic() || file[8] != FILE_VERSION || revision == 0 {
        None
    } else {
        match opened(key, file.subrange(17, 29), file.subrange(0, 29), file.skip(29)) {
            None => None,
            Some(message) => match decoded(message) {
                None => None,
                Some(secrets) => Some((revision as u64, secrets)),
            },
        }
    }
}

/// Whatever the key, a file whose leading mark or version has one byte changed opens no more.
pub proof fn lemma_changed_mark_is_corrupt(
    key: Seq<u8>,
    other: Seq<u8>,
    file: Seq<u8>,
    at: int,
    byte: u8,
)
    requires
        file_content(key, file) is Some,
        0 <= at < 9,
        byte != file[at],
    ensures
        file_content(other, file.update(at, byte)) is None,
{
    let changed = file.update(at, byte);
    if at < 8 {
        assert(file.subrange(0, 8)[at] == file[at]);
        assert(changed.subrange(0, 8)[at] == byte);
    }
}

fn build_header(revision: u64, nonce: &Vec<u8>) -> (r: Vec<u8>)
    ensures
        r@ == file_header(revision, nonce@),
{
    let mut header: Vec<u8> = Vec::new();
    header.push(0x59);
    header.push(0x58);
    header.push(0x53);
    header.push(0x42);
    header.push(0x52);
    header.push(0x4b);
    header.push(0x30);
    header.push(0x31);
    assert(header@ =~= file_magic());
    header.push(FILE_VERSION);
    push_be(&mut header, revision, 8);
    header.extend_from_slice(nonce.as_slice());
    assert(header@ =~= file_header(revision, nonce@));
    header
}

/// Seals the secrets of a store with a nonce that has to be fresh. Opening the file with the
/// same key gives the revision and the secrets back.
pub fn seal_snapshot(
    master_key: &Vec<u8>,
    nonce: &Vec<u8>,
    revision: u64,
    store: &MemorySecretStore,
) -> (r: Result<Vec<u8>, SecretStoreError>)
    requires
        master_key@.len() == MASTER_KEY_BYTES,
        nonce@.len() == NONCE_BYTES,
        revision > 0,
    ensures
        r is Ok,
        exists|entries: Seq<Entry>|
            lists(entries, store@) && r->Ok_0@ == file_bytes(
                master_key@,
                revision,
                nonce@,
                #[trigger] encoding(entries),
            ),
        file_content(master_key@, r->Ok_0@) == Some((revision, store@)),
        r->Ok_0@.len() <= MAX_SECRET_FILE_BYTES,
{
    let mut message = encode_snapshot(store);
    let ghost plain = message@;
    let header = build_header(revision, nonce);
    proof {
        lemma_be_round_trip(revision as nat, 8);
        lemma_pow256();
    }
    let sealed_message = seal(master_key, nonce, &header, &message);
    erase(&mut message);
    let ciphertext = match sealed_message {
        Some(ciphertext) => ciphertext,
        None => return Err(SecretStoreError::Crypto),
    };
    let mut file = header;
    let ghost head = file@;
    file.extend_from_slice(ciphertext.as_slice());
    proof {
        assert(file@ =~= head + ciphertext@);
        assert(head.len() == 29);
        assert(file@.subrange(0, 8) =~= file_magic());
        assert(file@.subrange(9, 17) =~= be_bytes(revision as nat, 8));
        assert(file@.subrange(17, 29) =~= nonce@);
        assert(file@.subrange(0, 29) =~= head);
        assert(file@.skip(29) =~= ciphertext@);
        let entries = choose|entries: Seq<Entry>|
            lists(entries, store@) && plain == #[trigger] encoding(entries);
        assert(file@ == file_bytes(master_key@, revision, nonce@, encoding(entries)));
    }
    if file.len() > MAX_SECRET_FILE_BYTES {
        return Err(
            SecretStoreError::TooLarge { item: BoundedItem::File, max: MAX_SECRET_FILE_BYTES },
        );
    }
    Ok(file)
}

/// Seals the secrets of a store with a random nonce. Without randomness nothing is sealed.
pub fn encrypt_snapshot(master_key: &Vec<u8>, revision: u64, store: &MemorySecretStore) -> (r:
    Result<Vec<u8>, SecretStoreError>)
    requires
        master_key@.len() == MASTER_KEY_BYTES,
        revision > 0,
    ensures
        match r {
            Ok(file) => file_content(master_key@, file@) == Some((revision, store@)) && exists|
                nonce: Seq<u8>,
                entries: Seq<Entry>,
            |
                nonce.len() == NONCE_BYTES && lists(entries, store@) && file@
                    == #[trigger] file_bytes(
                    master_key@,
                    revision,
                    nonce,
                    encoding(entries),
                ),
            Err(error) => error == SecretStoreError::Crypto,
        },
{
    let mut nonce: Vec<u8> = Vec::new();
    nonce.resize(NONCE_BYTES, 0);
    if !fill_random(&mut nonce) {
        return Err(SecretStoreError::Crypto);
    }
    let r = seal_snapshot(master_key, &nonce, revision, store);
    proof {
        let entries = choose|entries: Seq<Entry>|
            lists(entries, store@) && r->Ok_0@ == file_bytes(
                master_key@,
                revision,
                nonce@,
                #[trigger] encoding(entries),
            );
        assert(r->Ok_0@ == file_bytes(master_key@, revision, nonce@, encoding(entries)));
    }
    r
}

/// What a file holds. A wrong key, a changed byte and a malformed file all look alike.
pub fn decrypt_snapshot(master_key: &Vec<u8>, file: &Vec<u8>) -> (r: Result<
    (u64, MemorySecretStore),
    SecretStoreError,
>)
    requires
        master_key@.len() == MASTER_KEY_BYTES,
    ensures
        match r {
            Ok((revision, store)) => file_content(master_key@, file@) == Some((revision, store@)),
            Err(error) => file_content(master_key@, file@) is None && error
                == SecretStoreError::Corrupt,
        },
{
    if file.len() < FILE_HEADER_BYTES + AEAD_TAG_BYTES || file.len() > MAX_SECRET_FILE_BYTES {
        return Err(SecretStoreError::Corrupt);
    }
    assert(file@.subrange(0, 8) == file_magic() <==> (file@[0] == 0x59 && file@[1] == 0x58
        && file@[2] == 0x53 && file@[3] == 0x42 && file@[4] == 0x52 && file@[5] == 0x4b && file@[6]
        == 0x30 && file@[7] == 0x31)) by {
        let magic = file@.subrange(0, 8);
        assert(magic =~= seq![
            file@[0],
            file@[1],
            file@[2],
            file@[3],
            file@[4],
            file@[5],
            file@[6],
            file@[7],
        ]);
        if magic == file_magic() {
            assert(magic[0] == 0x59 && magic[1] == 0x58 && magic[2] == 0x53 && magic[3] == 0x42
                && magic[4] == 0x52 && magic[5] == 0x4b && magic[6] == 0x30 && magic[7] == 0x31);
        }
    }
    if file[0] != 0x59 || file[1] != 0x58 || file[2] != 0x53 || file[3] != 0x42 || file[4] != 0x52
        || file[5] != 0x4b || file[6] != 0x30 || file[7] != 0x31 || file[8] != FILE_VERSION {
        return Err(SecretStoreError::Corrupt);
    }
    let revision: u64 = read_be(file, 9, 8);
    if revision == 0 {
        return Err(SecretStoreError::Corrupt);
    }
    let nonce = copy_range(file, 17, 29);
    let header = copy_range(file, 0, 29);
    let ciphertext = copy_range(file, 29, file.len());
    assert(ciphertext@ =~= file@.skip(29));
    let mut message = match open_sealed(master_key, &nonce, &header, &ciphertext) {
        Some(message) => message,
        None => return Err(SecretStoreError::Corrupt),
    };
    let result = decode_snapshot(&message);
    erase(&mut message);
    match result {
        Ok(store) => Ok((revision, store)),
        Err(error) => Err(error),
    }
}

// ---------------------------------------------------------------------------
// The durable store
// ---------------------------------------------------------------------------
/// A durable store encrypted with a caller-provided master key.
///
/// The store turns the bytes of its file into the bytes that replace them; whoever holds it
/// reads the file, and commits the replacement as a whole or not at all.
pub struct FileSecretStore {
    path: String,
    master_key: Vec<u8>,
}

/// What a missing file, or these bytes of one, hold.
pub open spec fn stored_content(key: Seq<u8>, file: Option<Vec<u8>>) -> Option<(u64, Secrets)> {
    match file {
        None => Some((0, Map::empty())),
        Some(bytes) => file_content(key, bytes@),
    }
}

/// The path ends in the name of a file.
pub open spec fn names_file(path: Seq<char>) -> bool {
    components_of(path).len() > 0 && components_of(path).last() != ".."@
}

/// What stands at the path of a store.
#[derive(Clone, Copy, Debug, PartialEq, Eq, Structural)]
pub enum StoredFile {
    Absent,
    RegularFile,
    Link,
    Other,
}

/// Only a regular file is ever read or replaced; a link is not followed.
pub fn check_existing_file(found: StoredFile) -> (r: Result<(), SecretStoreError>)
    ensures
        r is Ok == (found is Absent || found is RegularFile),
        r is Err ==> r->Err_0 == SecretStoreError::InvalidPath,
{
    match found {
        StoredFile::Absent | StoredFile::RegularFile => Ok(()),
        StoredFile::Link | StoredFile::Other => Err(SecretStoreError::InvalidPath),
    }
}

impl FileSecretStore {
    pub closed spec fn spec_path(self) -> Seq<char> {
        self.path@
    }

    pub closed spec fn key(self) -> Seq<u8> {
        self.master_key@
    }

    /// The master key has the length that the cipher needs.
    pub open spec fn wf(self) -> bool {
        self.key().len() == MASTER_KEY_BYTES
    }

    /// A store at a path, with a master key of [`MASTER_KEY_BYTES`] bytes. What stands at the
    /// path has to be nothing at all, or a file that opens with this key: everything else is
    /// refused with one and the same error.
    pub fn new(path: &str, master_key: &[u8], file: &Option<Vec<u8>>) -> (r: Result<
        Self,
        SecretStoreError,
    >)
        ensures
            match r {
                Ok(store) => {
                    &&& names_file(path@)
                    &&& master_key@.len() == MASTER_KEY_BYTES
                    &&& stored_content(master_key@, *file) is Some
                    &&& store.wf()
                    &&& store.spec_path() == path@
                    &&& store.key() == master_key@
                },
                Err(error) => if !names_file(path@) {
                    error == SecretStoreError::InvalidPath
                } else if master_key@.len() != MASTER_KEY_BYTES {
                    error == (SecretStoreError::InvalidMasterKey {
                        expected: MASTER_KEY_BYTES,
                        actual: master_key@.len() as usize,
                    })
                } else {
                    stored_content(master_key@, *file) is None && error
                        == SecretStoreError::Corrupt
                },
            },
    {
        let names = components(path);
        assert(texts(names@).len() == names@.len());
        if names.len() == 0 {
            return Err(SecretStoreError::InvalidPath);
        }
        assert(texts(names@).last() == names@.last()@);
        if str_eq(names[names.len() - 1].as_str(), "..") {
            return Err(SecretStoreError::InvalidPath);
        }
        if master_key.len() != MASTER_KEY_BYTES {
            return Err(
                SecretStoreError::InvalidMasterKey {
                    expected: MASTER_KEY_BYTES,
                    actual: master_key.len(),
                },
            );
        }
        let store = FileSecretStore {
            path: path.to_owned(),
            master_key: slice_to_vec(master_key),
        };
        match store.load(file) {
            Ok(_) => Ok(store),
            Err(error) => Err(error),
        }
    }

    pub fn path(&self) -> (r: &str)
        ensures
            r@ == self.spec_path(),
    {
        self.path.as_str()
    }

    /// What the file holds; a missing file holds nothing, at revision zero.
    pub fn load(&self, file: &Option<Vec<u8>>) -> (r: Result<
        (u64, MemorySecretStore),
        SecretStoreError,
    >)
        requires
            self.wf(),
        ensures
            match r {
                Ok((revision, store)) => stored_content(self.key(), *file) == Some(
                    (revision, store@),
                ),
                Err(error) => stored_content(self.key(), *file) is None && error
                    == SecretStoreError::Corrupt,
            },
    {
        match file {
            None => Ok((0, MemorySecretStore::new())),
            Some(bytes) => decrypt_snapshot(&self.master_key, bytes),
        }
    }

    /// The value of a key.
    pub fn get(&self, file: &Option<Vec<u8>>, key: &SecretKey) -> (r: Result<
        SecretValue,
        SecretStoreError,
    >)
        requires
            self.wf(),
        ensures
            match stored_content(self.key(), *file) {
                None => r is Err && r->Err_0 == SecretStoreError::Corrupt,
                Some((_, secrets)) => if secrets.dom().contains(key@) {
                    r is Ok && r->Ok_0@ == secrets[key@]
                } else {
                    r is Err && r->Err_0 == SecretStoreError::Missing
                },
            },
    {
        match self.load(file) {
            Ok((_, store)) => store.get(key),
            Err(error) => Err(error),
        }
    }

    /// The next revision of the file.
    fn next_file(&self, revision: u64, store: &MemorySecretStore) -> (r: Result<
        Vec<u8>,
        SecretStoreError,
    >)
        requires
            self.wf(),
        ensures
            match r {
                Ok(next) => revision < u64::MAX && file_content(self.key(), next@) == Some(
                    ((revision + 1) as u64, store@),
                ),
                Err(error) => if revision == u64::MAX {
                    error == SecretStoreError::RevisionExhausted
                } else {
                    error == SecretStoreError::Crypto
                },
            },
    {
        match revision.checked_add(1) {
            Some(next) => encrypt_snapshot(&self.master_key, next, store),
            None => Err(SecretStoreError::RevisionExhausted),
        }
    }

    /// The file with a value inserted or replaced. Where this fails there is nothing to
    /// commit, so the file stays as it is.
    pub fn put(&self, file: &Option<Vec<u8>>, key: &SecretKey, value: &[u8]) -> (r: Result<
        Vec<u8>,
        SecretError,
    >)
        requires
            self.wf(),
        ensures
            match r {
                Ok(next) => {
                    &&& value@.len() <= MAX_SECRET_VALUE_BYTES
                    &&& stored_content(self.key(), *file) matches Some((revision, secrets))
                        && put_problem(secrets, key@, value@.len()) is None && revision < u64::MAX
                        && file_content(self.key(), next@) == Some(
                        ((revision + 1) as u64, secrets.insert(key@, value@)),
                    )
                },
                Err(error) => if value@.len() > MAX_SECRET_VALUE_BYTES {
                    error == (SecretError::TooLarge {
                        item: BoundedItem::SecretValue,
                        max: MAX_SECRET_VALUE_BYTES,
                    })
                } else {
                    match stored_content(self.key(), *file) {
                        None => error == SecretError::Store(SecretStoreError::Corrupt),
                        Some((revision, secrets)) => match put_problem(
                            secrets,
                            key@,
                            value@.len(),
                        ) {
                            Some(problem) => error == mapped_store_error(problem),
                            None => if revision == u64::MAX {
                                error == SecretError::Store(SecretStoreError::RevisionExhausted)
                            } else {
                                error == SecretError::Store(SecretStoreError::Crypto)
                            },
                        },
                    }
                },
            },
    {
        let secret = match SecretValue::new(value) {
            Ok(secret) => secret,
            Err(error) => return Err(error),
        };
        let (revision, mut store) = match self.load(file) {
            Ok(content) => content,
            Err(error) => return Err(map_store_error(error)),
        };
        match store.put_value(key, secret) {
            Ok(()) => {},
            Err(error) => return Err(map_store_error(error)),
        }
        match self.next_file(revision, &store) {
            Ok(next) => Ok(next),
            Err(error) => Err(map_store_error(error)),
        }
    }

    /// The file without a key; `None` when the key is not in it and nothing changes.
    pub fn remove(&self, file: &Option<Vec<u8>>, key: &SecretKey) -> (r: Result<
        Option<Vec<u8>>,
        SecretError,
    >)
        requires
            self.wf(),
        ensures
            match stored_content(self.key(), *file) {
                None => r is Err && r->Err_0 == SecretError::Store(SecretStoreError::Corrupt),
                Some((revision, secrets)) => match r {
                    Ok(None) => !secrets.dom().contains(key@),
                    Ok(Some(next)) => secrets.dom().contains(key@) && revision < u64::MAX
                        && file_content(self.key(), next@) == Some(
                        ((revision + 1) as u64, secrets.remove(key@)),
                    ),
                    Err(error) => secrets.dom().contains(key@) && if revision == u64::MAX {
                        error == SecretError::Store(SecretStoreError::RevisionExhausted)
                    } else {
                        error == SecretError::Store(SecretStoreError::Crypto)
                    },
                },
            },
    {
        let (revision, mut store) = match self.load(file) {
            Ok(content) => content,
            Err(error) => return Err(map_store_error(error)),
        };
        if !store.remove_value(key) {
            return Ok(None);
        }
        match self.next_file(revision, &store) {
            Ok(next) => Ok(Some(next)),
            Err(error) => Err(map_store_error(error)),
        }
    }
}

impl Drop for FileSecretStore {
    /// The master key is overwritten before its memory is released.
    fn drop(&mut self)
        opens_invariants none
        no_unwind
    {
        erase(&mut self.master_key);
    }
}

} // verus!
