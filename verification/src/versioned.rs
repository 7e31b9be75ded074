//! Versioned keys: how one ordered key-value store answers "what was the
//! value of this key as of that sequence".
//!
//! Every write of a logical key goes under the key followed by the eight
//! big-endian bytes of the sequence at which it is made. A read as of a
//! sequence asks the store for the last entry that is not after the key
//! followed by that sequence, and takes its value if the entry still belongs
//! to the key. Because big-endian numbers sort as the numbers do, that entry
//! is the write with the greatest sequence not after the one asked for.

use crate::bytes::{be_value, has_prefix, lex_le, starts_with, u64_be, u64_to_be};
use vstd::prelude::*;

verus! {

/// The physical key of a write of `key` at `sequence`.
pub open spec fn versioned(key: Seq<u8>, sequence: u64) -> Seq<u8> {
    key + u64_be(sequence)
}

/// What is in the store: physical keys and their values.
pub type Entries = Map<Seq<u8>, Seq<u8>>;

/// What a reverse scan hands back first: an entry, or nothing.
pub type Found = Option<(Seq<u8>, Seq<u8>)>;

/// `found` is what a reverse scan of `entries` from `start` meets first: the
/// entry with the greatest key that is not after `start`, or nothing where
/// every key is after `start`.
pub open spec fn scan_meets(entries: Entries, start: Seq<u8>, found: Found) -> bool {
    match found {
        Some((k, v)) => {
            &&& entries.contains_key(k)
            &&& entries[k] == v
            &&& lex_le(k, start)
            &&& forall|other: Seq<u8>|
                entries.contains_key(other) && lex_le(other, start) ==> lex_le(other, k)
        },
        None => forall|other: Seq<u8>| entries.contains_key(other) ==> !lex_le(other, start),
    }
}

/// What a read of `key` makes of the entry that the scan met: its value where
/// the entry's key begins with `key`, nothing otherwise.
pub open spec fn resolve(key: Seq<u8>, found: Found) -> Option<Seq<u8>> {
    match found {
        Some((k, v)) => if has_prefix(k, key) {
            Some(v)
        } else {
            None
        },
        None => None,
    }
}

/// `key` was written at `sequence`.
pub open spec fn written_at(entries: Entries, key: Seq<u8>, sequence: u64) -> bool {
    entries.contains_key(versioned(key, sequence))
}

/// `at` is the greatest sequence not after `sequence` at which `key` was
/// written.
pub open spec fn latest_write(entries: Entries, key: Seq<u8>, sequence: u64, at: u64) -> bool {
    &&& at <= sequence
    &&& written_at(entries, key, at)
    &&& forall|other: u64|
        other <= sequence && #[trigger] written_at(entries, key, other) ==> other <= at
}

/// The value of `key` as of `sequence`: what the latest write not after
/// `sequence` put there, or nothing where there is no such write.
pub open spec fn value_as_of(entries: Entries, key: Seq<u8>, sequence: u64) -> Option<Seq<u8>> {
    if exists|at: u64| latest_write(entries, key, sequence, at) {
        let at = choose|at: u64| latest_write(entries, key, sequence, at);
        Some(entries[versioned(key, at)])
    } else {
        None
    }
}

/// Every stored key that begins with `key` is a version of `key`: no other
/// logical key of the store has `key` as a proper prefix.
pub open spec fn versions_only(entries: Entries, key: Seq<u8>) -> bool {
    forall|k: Seq<u8>| #[trigger]
        entries.contains_key(k) && has_prefix(k, key) ==> k.len() == key.len() + 8
}

/// The physical key of `key` at `sequence`: where a write goes, and where the
/// reverse scan of a read starts.
pub fn versioned_key(key: &[u8], sequence: u64) -> (ret: Vec<u8>)
    ensures
        ret@ == versioned(key@, sequence),
{
    let mut ret: Vec<u8> = Vec::with_capacity(8);
    ret.extend_from_slice(key);
    let suffix = u64_to_be(sequence);
    ret.extend_from_slice(&suffix);
    assert(ret@ =~= versioned(key@, sequence));
    ret
}

/// The view of what a scan handed back.
pub open spec fn found_view(found: Option<(Vec<u8>, Vec<u8>)>) -> Found {
    match found {
        Some((k, v)) => Some((k@, v@)),
        None => None,
    }
}

/// The view of an optional value.
pub open spec fn value_view(value: Option<Vec<u8>>) -> Option<Seq<u8>> {
    match value {
        Some(v) => Some(v@),
        None => None,
    }
}

/// The value of `key` in the first entry that the reverse scan met: the
/// entry's value where its key begins with `key`, nothing otherwise.
pub fn resolve_read(key: &[u8], found: Option<(Vec<u8>, Vec<u8>)>) -> (ret: Option<Vec<u8>>)
    ensures
        value_view(ret) == resolve(key@, found_view(found)),
{
    match found {
        Some((k, v)) => {
            if starts_with(k.as_slice(), key) {
                Some(v)
            } else {
                None
            }
        },
        None => None,
    }
}

/// What a record that may be a tombstone holds: an empty value stands for a
/// key that was removed.
pub open spec fn present(value: Option<Seq<u8>>) -> Option<Seq<u8>> {
    match value {
        Some(v) => if v.len() == 0 {
            None
        } else {
            Some(v)
        },
        None => None,
    }
}

/// Drops the tombstone: an empty value reads as no value.
pub fn drop_tombstone(value: Option<Vec<u8>>) -> (ret: Option<Vec<u8>>)
    ensures
        value_view(ret) == present(value_view(value)),
{
    match value {
        Some(v) => {
            if v.len() == 0 {
                None
            } else {
                Some(v)
            }
        },
        None => None,
    }
}

/// The sequence that the counter record holds; zero where there is none yet.
pub open spec fn stored_sequence(record: Option<Seq<u8>>) -> nat {
    match record {
        Some(v) => be_value(v),
        None => 0,
    }
}

/// Reads the counter record: eight big-endian bytes, or nothing yet.
pub fn read_sequence(record: &Option<Vec<u8>>) -> (ret: u64)
    requires
        record matches Some(v) ==> v@.len() == 8,
    ensures
        ret == stored_sequence(value_view(*record)),
{
    match record {
        Some(v) => crate::bytes::u64_from_be(v.as_slice()),
        None => 0,
    }
}

/// The versions of one key sort as their sequences do.
pub proof fn lemma_version_order(key: Seq<u8>, a: u64, b: u64)
    ensures
        lex_le(versioned(key, a), versioned(key, b)) <==> a <= b,
        versioned(key, a) == versioned(key, b) <==> a == b,
        has_prefix(versioned(key, a), key),
        versioned(key, a).len() == key.len() + 8,
{
    crate::bytes::lemma_lex_common_prefix(key, u64_be(a), u64_be(b));
    crate::bytes::lemma_lex_common_prefix(key, u64_be(b), u64_be(a));
    crate::bytes::lemma_lex_u64_be(a, b);
    crate::bytes::lemma_lex_u64_be(b, a);
    crate::bytes::lemma_be_round_trip_value(a);
    assert(versioned(key, a).subrange(0, key.len() as int) =~= key);
    if versioned(key, a) == versioned(key, b) {
        crate::bytes::lemma_lex_reflexive(versioned(key, a));
    }
}

/// A stored key that begins with `key` and is eight bytes longer is the
/// version of `key` at the sequence that those eight bytes spell.
pub proof fn lemma_version_of(key: Seq<u8>, k: Seq<u8>) -> (at: u64)
    requires
        has_prefix(k, key),
        k.len() == key.len() + 8,
    ensures
        k == versioned(key, at),
{
    let suffix = k.subrange(key.len() as int, k.len() as int);
    crate::bytes::lemma_be_round_trip_bytes(suffix);
    let at = be_value(suffix) as u64;
    assert(k =~= key + suffix);
    at
}

/// At most one sequence is the latest write of a key as of a sequence.
pub proof fn lemma_latest_write_unique(
    entries: Entries,
    key: Seq<u8>,
    sequence: u64,
    a: u64,
    b: u64,
)
    requires
        latest_write(entries, key, sequence, a),
        latest_write(entries, key, sequence, b),
    ensures
        a == b,
{
}

/// The read path is right: where no other logical key has `key` as a proper
/// prefix, what a read of `key` makes of the reverse scan from its version at
/// `sequence` is the value that the latest write not after `sequence` put
/// there, and nothing where `key` was not written by then.
pub proof fn lemma_read_as_of(entries: Entries, key: Seq<u8>, sequence: u64, found: Found)
    requires
        versions_only(entries, key),
        scan_meets(entries, versioned(key, sequence), found),
    ensures
        resolve(key, found) == value_as_of(entries, key, sequence),
{
    let start = versioned(key, sequence);
    lemma_version_order(key, sequence, sequence);
    assert forall|other: u64| other <= sequence && #[trigger] written_at(entries, key, other)
        implies lex_le(versioned(key, other), start) by {
        lemma_version_order(key, other, sequence);
    }
    match found {
        Some((k, v)) => {
            if has_prefix(k, key) {
                let at = lemma_version_of(key, k);
                lemma_version_order(key, at, sequence);
                assert(written_at(entries, key, at));
                assert forall|other: u64|
                    other <= sequence && #[trigger] written_at(entries, key, other) implies other
                    <= at by {
                    lemma_version_order(key, other, sequence);
                    lemma_version_order(key, other, at);
                }
                assert(latest_write(entries, key, sequence, at));
                let chosen = choose|c: u64| latest_write(entries, key, sequence, c);
                lemma_latest_write_unique(entries, key, sequence, at, chosen);
            } else {
                assert forall|other: u64| !latest_write(entries, key, sequence, other) by {
                    if latest_write(entries, key, sequence, other) {
                        lemma_version_order(key, other, sequence);
                        crate::bytes::lemma_lex_between(key, versioned(key, other), k, start);
                    }
                }
            }
        },
        None => {
            assert forall|other: u64| !latest_write(entries, key, sequence, other) by {
                if latest_write(entries, key, sequence, other) {
                    lemma_version_order(key, other, sequence);
                }
            }
        },
    }
}

/// A read sees the write of its own sequence: once `key` is written at
/// `sequence`, the reverse scan from that version meets that very entry.
pub proof fn lemma_read_own_write(entries: Entries, key: Seq<u8>, sequence: u64, found: Found)
    requires
        written_at(entries, key, sequence),
        scan_meets(entries, versioned(key, sequence), found),
    ensures
        resolve(key, found) == Some(entries[versioned(key, sequence)]),
{
    let start = versioned(key, sequence);
    crate::bytes::lemma_lex_reflexive(start);
    lemma_version_order(key, sequence, sequence);
    match found {
        Some((k, v)) => {
            crate::bytes::lemma_lex_antisymmetric(k, start);
        },
        None => {},
    }
}

/// A later write does not change the past: a write at a sequence after
/// `sequence`, of this key or of another, leaves the value of `key` as of
/// `sequence` as it was.
pub proof fn lemma_later_write_keeps_history(
    entries: Entries,
    key: Seq<u8>,
    sequence: u64,
    written: Seq<u8>,
    at: u64,
    value: Seq<u8>,
)
    requires
        sequence < at,
    ensures
        value_as_of(entries.insert(versioned(written, at), value), key, sequence) == value_as_of(
            entries,
            key,
            sequence,
        ),
{
    let later = entries.insert(versioned(written, at), value);
    assert forall|s: u64| s <= sequence implies written_at(later, key, s) == written_at(
        entries,
        key,
        s,
    ) && (written_at(entries, key, s) ==> later[versioned(key, s)] == entries[versioned(key, s)])
    by {
        if versioned(written, at) == versioned(key, s) {
            lemma_version_order(written, at, at);
            lemma_version_order(key, s, s);
            assert(written =~= versioned(written, at).subrange(0, written.len() as int));
            assert(key =~= versioned(key, s).subrange(0, key.len() as int));
            lemma_version_order(key, s, at);
        }
    }
    assert forall|c: u64|
        latest_write(later, key, sequence, c) == latest_write(entries, key, sequence, c) by {
        if latest_write(later, key, sequence, c) {
            assert(written_at(entries, key, c));
            assert forall|other: u64|
                other <= sequence && #[trigger] written_at(entries, key, other) implies other
                <= c by {
                assert(written_at(later, key, other));
            }
        }
        if latest_write(entries, key, sequence, c) {
            assert(written_at(later, key, c));
            assert forall|other: u64|
                other <= sequence && #[trigger] written_at(later, key, other) implies other
                <= c by {
                assert(written_at(entries, key, other));
            }
        }
    }
    if exists|c: u64| latest_write(entries, key, sequence, c) {
        let c = choose|c: u64| latest_write(entries, key, sequence, c);
        assert(latest_write(later, key, sequence, c));
        let d = choose|d: u64| latest_write(later, key, sequence, d);
        lemma_latest_write_unique(later, key, sequence, c, d);
    } else {
        assert forall|c: u64| !latest_write(later, key, sequence, c) by {
            assert(!latest_write(entries, key, sequence, c));
        }
    }
}

/// Historical isolation of reads: a read of `key` as of `sequence` gives the
/// same answer before and after a write at a later sequence.
pub proof fn lemma_historical_read(
    entries: Entries,
    key: Seq<u8>,
    sequence: u64,
    written: Seq<u8>,
    at: u64,
    value: Seq<u8>,
    before: Found,
    after: Found,
)
    requires
        sequence < at,
        versions_only(entries, key),
        versions_only(entries.insert(versioned(written, at), value), key),
        scan_meets(entries, versioned(key, sequence), before),
        scan_meets(entries.insert(versioned(written, at), value), versioned(key, sequence), after),
    ensures
        resolve(key, after) == resolve(key, before),
{
    lemma_read_as_of(entries, key, sequence, before);
    lemma_read_as_of(entries.insert(versioned(written, at), value), key, sequence, after);
    lemma_later_write_keeps_history(entries, key, sequence, written, at, value);
}

} // verus!
