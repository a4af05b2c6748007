//! The rule on how many shards a backup is split into and how many of them
//! recover it.

use vstd::prelude::*;

use crate::number::{
    digits_value, is_unsigned_u32, lemma_decimal_reads_back, parse_unsigned, unsigned_digits,
};
use crate::text::{decimal, decimal_string};

verus! {

/// Why a quorum size and a shard count cannot describe a recoverable backup.
#[derive(Debug, Clone, Copy, PartialEq, Eq, Structural)]
pub enum ShardCountError {
    /// The quorum size is zero.
    ZeroQuorum,
    /// Fewer shards would be created than are needed to meet the quorum.
    TooFewShards { num_shards: u32, quorum_size: u32 },
}

/// The error, if any, that `validate_shard_counts` reports for these counts.
pub open spec fn shard_count_error(quorum_size: u32, num_shards: u32) -> Option<ShardCountError> {
    if quorum_size == 0 {
        Some(ShardCountError::ZeroQuorum)
    } else if num_shards < quorum_size {
        Some(ShardCountError::TooFewShards { num_shards, quorum_size })
    } else {
        None
    }
}

/// A backup with this quorum size and this number of shards can be recovered.
pub open spec fn recoverable_counts(quorum_size: u32, num_shards: u32) -> bool {
    1 <= quorum_size <= num_shards
}

/// Validates that `quorum_size` (`-n`) and `num_shards` (`-k`) describe a
/// backup that can actually be recovered: the quorum size must be at least
/// one, and there must be at least as many shards created as are needed to
/// meet the quorum.
pub fn validate_shard_counts(quorum_size: u32, num_shards: u32) -> (r: Result<(), ShardCountError>)
    ensures
        r is Ok <==> recoverable_counts(quorum_size, num_shards),
        r matches Err(e) ==> Some(e) == shard_count_error(quorum_size, num_shards),
        r == Err::<(), ShardCountError>(ShardCountError::ZeroQuorum) <==> quorum_size == 0,
        r == Err::<(), ShardCountError>(ShardCountError::TooFewShards { num_shards, quorum_size })
            <==> 0 < quorum_size && num_shards < quorum_size,
{
    if quorum_size == 0 {
        return Err(ShardCountError::ZeroQuorum);
    }
    if num_shards < quorum_size {
        return Err(ShardCountError::TooFewShards { num_shards, quorum_size });
    }
    Ok(())
}

/// Which counts each error blames: a zero quorum size is blamed exactly when
/// the quorum size is zero; too few shards exactly when the quorum size is
/// positive and the shard count is below it; and the counts pass exactly
/// when `1 <= quorum_size <= num_shards`.
pub proof fn lemma_shard_count_errors(quorum_size: u32, num_shards: u32)
    ensures
        shard_count_error(quorum_size, num_shards) == Some(ShardCountError::ZeroQuorum)
            <==> quorum_size == 0,
        shard_count_error(quorum_size, num_shards)
            == Some(ShardCountError::TooFewShards { num_shards, quorum_size })
            <==> 0 < quorum_size && num_shards < quorum_size,
        shard_count_error(quorum_size, num_shards) is None
            <==> 1 <= quorum_size && quorum_size <= num_shards,
        shard_count_error(quorum_size, num_shards) matches Some(ShardCountError::TooFewShards { num_shards: k, quorum_size: q })
            ==> k == num_shards && q == quorum_size,
{
}

/// The text that describes a shard count error to the user.
pub open spec fn shard_count_message(e: ShardCountError) -> Seq<char> {
    match e {
        ShardCountError::ZeroQuorum =>
            "invalid arguments: --quorum-size must be at least 1 (a backup with quorum size 0 cannot meaningfully be recovered)"@,
        ShardCountError::TooFewShards { num_shards, quorum_size } =>
            "invalid arguments: number of shards ("@ + decimal(num_shards as nat)
                + ") cannot be smaller than quorum size ("@ + decimal(quorum_size as nat)
                + ") -- such a backup is unrecoverable"@,
    }
}

impl ShardCountError {
    /// Describes the error to the user.
    pub fn message(&self) -> (r: String)
        ensures
            r@ == shard_count_message(*self),
    {
        match self {
            ShardCountError::ZeroQuorum => {
                let s = "invalid arguments: --quorum-size must be at least 1 (a backup with quorum size 0 cannot meaningfully be recovered)";
                String::from_str(s)
            },
            ShardCountError::TooFewShards { num_shards, quorum_size } => {
                let mut s = String::from_str("invalid arguments: number of shards (");
                s.append(decimal_string(*num_shards as u64).as_str());
                s.append(") cannot be smaller than quorum size (");
                s.append(decimal_string(*quorum_size as u64).as_str());
                s.append(") -- such a backup is unrecoverable");
                s
            },
        }
    }
}

/// Why the `--quorum-size` and `--shards` arguments of a backup were refused.
#[derive(Debug, Clone, Copy, PartialEq, Eq, Structural)]
pub enum BackupCountsError {
    /// `--quorum-size` is not an unsigned 32-bit number.
    QuorumSizeNotUnsigned,
    /// `--shards` is not an unsigned 32-bit number.
    ShardsNotUnsigned,
    /// Both are numbers, but the backup they describe is unrecoverable.
    Unrecoverable(ShardCountError),
}

/// The number an argument denotes, when it is an unsigned 32-bit number.
pub open spec fn unsigned_value(s: Seq<char>) -> u32 {
    digits_value(unsigned_digits(s)) as u32
}

/// What reading the backup's `--quorum-size` and `--shards` arguments gives:
/// the quorum size is read first, then the shard count, then both are
/// checked together.
pub open spec fn backup_counts_result(quorum_arg: Seq<char>, shards_arg: Seq<char>) -> Result<(u32, u32), BackupCountsError> {
    if !is_unsigned_u32(quorum_arg) {
        Err(BackupCountsError::QuorumSizeNotUnsigned)
    } else if !is_unsigned_u32(shards_arg) {
        Err(BackupCountsError::ShardsNotUnsigned)
    } else {
        let q = unsigned_value(quorum_arg);
        let k = unsigned_value(shards_arg);
        match shard_count_error(q, k) {
            Some(e) => Err(BackupCountsError::Unrecoverable(e)),
            None => Ok((q, k)),
        }
    }
}

/// Reads the quorum size and the number of shards of a backup from their
/// arguments and checks that the backup they describe can be recovered.
pub fn backup_counts(quorum_arg: &str, shards_arg: &str) -> (r: Result<(u32, u32), BackupCountsError>)
    ensures
        r == backup_counts_result(quorum_arg@, shards_arg@),
        r is Ok <==> is_unsigned_u32(quorum_arg@) && is_unsigned_u32(shards_arg@)
            && 1 <= digits_value(unsigned_digits(quorum_arg@))
            && digits_value(unsigned_digits(quorum_arg@)) <= digits_value(unsigned_digits(shards_arg@)),
        r matches Ok((q, k)) ==> q == digits_value(unsigned_digits(quorum_arg@))
            && k == digits_value(unsigned_digits(shards_arg@)),
{
    let quorum_size = match parse_unsigned(quorum_arg) {
        Some(v) => v,
        None => return Err(BackupCountsError::QuorumSizeNotUnsigned),
    };
    let num_shards = match parse_unsigned(shards_arg) {
        Some(v) => v,
        None => return Err(BackupCountsError::ShardsNotUnsigned),
    };
    match validate_shard_counts(quorum_size, num_shards) {
        Ok(()) => Ok((quorum_size, num_shards)),
        Err(e) => Err(BackupCountsError::Unrecoverable(e)),
    }
}

/// A backup's arguments are accepted exactly when both are unsigned 32-bit
/// numbers with `1 <= quorum size <= shard count`, and then they give those
/// two numbers; for counts written in decimal, the counts come back as they
/// were written, and a refusal blames the counts that are wrong.
pub proof fn lemma_backup_counts_accepts(quorum_size: u32, num_shards: u32)
    ensures
        backup_counts_result(decimal(quorum_size as nat), decimal(num_shards as nat))
            == if 1 <= quorum_size && quorum_size <= num_shards {
                Ok::<(u32, u32), BackupCountsError>((quorum_size, num_shards))
            } else if quorum_size == 0 {
                Err(BackupCountsError::Unrecoverable(ShardCountError::ZeroQuorum))
            } else {
                Err(BackupCountsError::Unrecoverable(ShardCountError::TooFewShards { num_shards, quorum_size }))
            },
{
    lemma_decimal_reads_back(quorum_size);
    lemma_decimal_reads_back(num_shards);
}

/// The text that describes a refused backup argument to the user.
pub open spec fn backup_counts_message(e: BackupCountsError) -> Seq<char> {
    match e {
        BackupCountsError::QuorumSizeNotUnsigned => "--quorum-size argument was not an unsigned integer"@,
        BackupCountsError::ShardsNotUnsigned => "--shards argument was not an unsigned integer"@,
        BackupCountsError::Unrecoverable(inner) => shard_count_message(inner),
    }
}

impl BackupCountsError {
    /// Describes the error to the user.
    pub fn message(&self) -> (r: String)
        ensures
            r@ == backup_counts_message(*self),
    {
        match self {
            BackupCountsError::QuorumSizeNotUnsigned => String::from_str("--quorum-size argument was not an unsigned integer"),
            BackupCountsError::ShardsNotUnsigned => String::from_str("--shards argument was not an unsigned integer"),
            BackupCountsError::Unrecoverable(inner) => inner.message(),
        }
    }
}

} // verus!
