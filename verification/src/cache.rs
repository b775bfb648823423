//! The record of a recent authentication, and when it still counts.
//!
//! A record holds one moment, in nanoseconds since the Unix epoch, written
//! by `bincode` as sixteen bytes, least significant first. It counts while
//! less than the validity window, 900 seconds unless configured otherwise,
//! has passed since that moment.

use vstd::prelude::*;

verus! {

/// How long an authentication counts, in seconds.
pub const DEFAULT_AUTH_CACHE_DURATION: u32 = 900;

/// The number of nanoseconds in a second.
pub const NANOS_PER_SECOND: u128 = 1_000_000_000;

/// The error of the `bincode` crate; nothing of it is visible here.
#[verifier::external_type_specification]
#[verifier::external_body]
pub struct ExBincodeErrorKind(bincode::ErrorKind);

/// The `width` bytes that write `value` down, least significant first.
pub open spec fn le_bytes(value: nat, width: nat) -> Seq<u8>
    decreases width,
{
    if width == 0 {
        Seq::empty()
    } else {
        seq![(value % 256) as u8] + le_bytes(value / 256, (width - 1) as nat)
    }
}

/// The number that `bytes` write down, least significant first.
pub open spec fn le_value(bytes: Seq<u8>) -> nat
    decreases bytes.len(),
{
    if bytes.len() == 0 {
        0
    } else {
        bytes[0] as nat + 256 * le_value(bytes.drop_first())
    }
}

/// 256 to the power of `width`.
pub open spec fn radix_pow(width: nat) -> nat
    decreases width,
{
    if width == 0 {
        1
    } else {
        256 * radix_pow((width - 1) as nat)
    }
}

/// The bytes of the record of the moment `stamp`.
pub open spec fn stamp_bytes(stamp: u128) -> Seq<u8> {
    le_bytes(stamp as nat, 16)
}

/// The moment that a record holds: the number in its first sixteen bytes;
/// `None` where it is shorter.
pub open spec fn stamp_of(bytes: Seq<u8>) -> Option<u128> {
    if bytes.len() >= 16 {
        Some(le_value(bytes.take(16)) as u128)
    } else {
        None
    }
}

/// A record made at `stored` still counts at `now`: less than `duration`
/// seconds have passed. A record from a moment after `now` counts as just
/// made.
pub open spec fn fresh_spec(stored: u128, now: u128, duration: u32) -> bool {
    now - stored < duration * NANOS_PER_SECOND
}

/// Whether the record read from the cache, where there was one to read,
/// still counts at `now`.
pub open spec fn check_auth_cache_spec(record: Option<Seq<u8>>, now: u128, duration: u32) -> bool {
    match record {
        Some(bytes) => match stamp_of(bytes) {
            Some(stored) => fresh_spec(stored, now, duration),
            None => false,
        },
        None => false,
    }
}

/// Whether a password has to be asked for: where the policy requires one
/// and no cached authentication counts, and always where the caller asked
/// to authenticate again.
pub open spec fn needs_password_spec(password_required: bool, cache_valid: bool, validate: bool) -> bool {
    (password_required && !cache_valid) || validate
}

/// `width` bytes write down every number below 256 to the power of `width`,
/// and reading them gives the number back.
pub proof fn lemma_le_round_trip(value: nat, width: nat)
    requires
        value < radix_pow(width),
    ensures
        le_bytes(value, width).len() == width,
        le_value(le_bytes(value, width)) == value,
    decreases width,
{
    if width > 0 {
        let rest = le_bytes(value / 256, (width - 1) as nat);
        assert(value / 256 < radix_pow((width - 1) as nat)) by (nonlinear_arith)
            requires
                value < 256 * radix_pow((width - 1) as nat),
        ;
        lemma_le_round_trip(value / 256, (width - 1) as nat);
        let bytes = le_bytes(value, width);
        assert(bytes.drop_first() =~= rest);
        assert(bytes[0] == (value % 256) as u8);
        assert(value == value % 256 + 256 * (value / 256)) by (nonlinear_arith);
    }
}

/// Sixteen bytes hold every `u128`.
pub proof fn lemma_radix_pow_16()
    ensures
        radix_pow(16) == 0x1_0000_0000_0000_0000_0000_0000_0000_0000nat,
{
    reveal_with_fuel(radix_pow, 17);
}

/// A record that is written and read again holds the same moment, whatever
/// follows its sixteen bytes.
pub proof fn lemma_stamp_round_trip(stamp: u128, trailing: Seq<u8>)
    ensures
        stamp_bytes(stamp).len() == 16,
        stamp_of(stamp_bytes(stamp) + trailing) == Some(stamp),
{
    lemma_radix_pow_16();
    lemma_le_round_trip(stamp as nat, 16);
    assert((stamp_bytes(stamp) + trailing).take(16) =~= stamp_bytes(stamp));
}

/// Calls `bincode::serialize` on a `u128`.
///
/// Trusted: with the crate's default configuration an integer is written
/// at its fixed width in little-endian order, and writing into a fresh
/// vector with no size limit does not fail.
#[verifier::external_body]
fn bincode_write(stamp: u128) -> (written: Result<Vec<u8>, Box<bincode::ErrorKind>>)
    ensures
        written is Ok,
        written matches Ok(bytes) ==> bytes@ == stamp_bytes(stamp),
{
    bincode::serialize(&stamp)
}

/// Calls `bincode::deserialize` for a `u128`.
///
/// Trusted: with the crate's default configuration the integer is read
/// from the first sixteen bytes in little-endian order, bytes after them
/// are let be, and fewer than sixteen bytes are an error.
#[verifier::external_body]
fn bincode_read(bytes: &[u8]) -> (read: Result<u128, Box<bincode::ErrorKind>>)
    ensures
        read is Ok == (bytes@.len() >= 16),
        read matches Ok(stamp) ==> stamp_of(bytes@) == Some(stamp),
{
    bincode::deserialize::<u128>(bytes)
}

/// Writes the record of the moment `stamp`.
pub fn encode_stamp(stamp: u128) -> (bytes: Vec<u8>)
    ensures
        bytes@ == stamp_bytes(stamp),
{
    match bincode_write(stamp) {
        Ok(bytes) => bytes,
        Err(_) => Vec::new(),
    }
}

/// Reads the moment that a record holds; `None` where it is too short.
pub fn decode_stamp(bytes: &[u8]) -> (stamp: Option<u128>)
    ensures
        stamp == stamp_of(bytes@),
{
    match bincode_read(bytes) {
        Ok(stamp) => Some(stamp),
        Err(_) => None,
    }
}

/// Whether a record made at `stored` still counts at `now`, where an
/// authentication counts for `duration` seconds.
pub fn cache_is_fresh(stored: u128, now: u128, duration: u32) -> (fresh: bool)
    ensures
        fresh == fresh_spec(stored, now, duration),
{
    let window: u128 = (duration as u128) * NANOS_PER_SECOND;
    if now < stored {
        true
    } else {
        now - stored < window
    }
}

/// Decides from what was read of the cache whether a recent
/// authentication still counts at `now`.
///
/// `record` is the content of the cache file, or `None` where it is
/// missing or could not be read; a record that is too short counts as
/// none.
pub fn check_auth_cache(record: Option<&[u8]>, now: u128, duration: u32) -> (valid: bool)
    ensures
        valid == check_auth_cache_spec(
            match record {
                Some(bytes) => Some(bytes@),
                None => None,
            },
            now,
            duration,
        ),
{
    match record {
        Some(bytes) => match decode_stamp(bytes) {
            Some(stored) => cache_is_fresh(stored, now, duration),
            None => false,
        },
        None => false,
    }
}

/// The record to write into the cache at the moment `now`. Read back at
/// that moment it counts, unless authentications count for no time at all.
pub fn update_auth_cache(now: u128) -> (record: Vec<u8>)
    ensures
        record@ == stamp_bytes(now),
        forall|duration: u32| duration > 0 ==> check_auth_cache_spec(Some(record@), now, duration),
{
    proof {
        lemma_stamp_round_trip(now, Seq::empty());
        assert(stamp_bytes(now) + Seq::<u8>::empty() =~= stamp_bytes(now));
    }
    encode_stamp(now)
}

/// Whether the caller has to be asked for a password.
pub fn needs_password(password_required: bool, cache_valid: bool, validate: bool) -> (needed: bool)
    ensures
        needed == needs_password_spec(password_required, cache_valid, validate),
        validate ==> needed,
{
    (password_required && !cache_valid) || validate
}

/// A record made at `stored` counts at every moment before `duration`
/// seconds have passed, and at none from then on.
pub proof fn lemma_freshness_boundary(stored: u128, now: u128, duration: u32)
    ensures
        now < stored + duration * NANOS_PER_SECOND ==> fresh_spec(stored, now, duration),
        now >= stored + duration * NANOS_PER_SECOND ==> !fresh_spec(stored, now, duration),
{
}

/// A record written at `stored` and read back at `now` counts exactly
/// while less than `duration` seconds have passed.
pub proof fn lemma_written_record_freshness(stored: u128, now: u128, duration: u32)
    ensures
        check_auth_cache_spec(Some(stamp_bytes(stored)), now, duration) == (now - stored < duration
            * NANOS_PER_SECOND),
{
    lemma_stamp_round_trip(stored, Seq::empty());
    assert(stamp_bytes(stored) + Seq::<u8>::empty() =~= stamp_bytes(stored));
}

/// With the standard duration, a record counts 899 seconds after it was
/// made and no longer counts after 900 seconds or more.
pub proof fn lemma_standard_window(stored: u128, now: u128)
    ensures
        now - stored <= 899 * NANOS_PER_SECOND ==> fresh_spec(
            stored,
            now,
            DEFAULT_AUTH_CACHE_DURATION,
        ),
        now - stored >= 900 * NANOS_PER_SECOND ==> !fresh_spec(
            stored,
            now,
            DEFAULT_AUTH_CACHE_DURATION,
        ),
{
}

/// Asking to authenticate again asks for a password, whatever the cache
/// and the policy say.
pub proof fn lemma_validate_overrides_cache(password_required: bool, cache_valid: bool)
    ensures
        needs_password_spec(password_required, cache_valid, true),
        needs_password_spec(password_required, cache_valid, false) == (password_required
            && !cache_valid),
{
}

} // verus!
