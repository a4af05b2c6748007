use paperback_cli::counts::{backup_counts, validate_shard_counts, BackupCountsError, ShardCountError};

#[test]
fn rejects_shards_below_quorum() {
    let err = validate_shard_counts(5, 2).unwrap_err();
    assert!(err.message().contains("unrecoverable"));
}

#[test]
fn rejects_zero_shards() {
    assert!(validate_shard_counts(1, 0).is_err());
}

#[test]
fn rejects_zero_quorum() {
    let err = validate_shard_counts(0, 0).unwrap_err();
    assert!(err.message().contains("quorum-size must be at least 1"));
}

#[test]
fn accepts_equal_shards_and_quorum() {
    assert!(validate_shard_counts(3, 3).is_ok());
}

#[test]
fn accepts_more_shards_than_quorum() {
    assert!(validate_shard_counts(2, 5).is_ok());
}

#[test]
fn shard_count_errors_name_the_counts() {
    assert_eq!(
        validate_shard_counts(5, 2),
        Err(ShardCountError::TooFewShards { num_shards: 2, quorum_size: 5 })
    );
    assert_eq!(
        validate_shard_counts(5, 2).unwrap_err().message(),
        "invalid arguments: number of shards (2) cannot be smaller than quorum size (5) -- such a backup is unrecoverable"
    );
    assert_eq!(
        validate_shard_counts(0, 7).unwrap_err().message(),
        "invalid arguments: --quorum-size must be at least 1 (a backup with quorum size 0 cannot meaningfully be recovered)"
    );
    assert_eq!(
        ShardCountError::TooFewShards { num_shards: 4294967294, quorum_size: 4294967295 }.message(),
        "invalid arguments: number of shards (4294967294) cannot be smaller than quorum size (4294967295) -- such a backup is unrecoverable"
    );
}

#[test]
fn shard_count_boundaries() {
    assert!(validate_shard_counts(1, 1).is_ok());
    assert!(validate_shard_counts(u32::MAX, u32::MAX).is_ok());
    assert!(validate_shard_counts(u32::MAX, u32::MAX - 1).is_err());
    assert_eq!(validate_shard_counts(0, u32::MAX), Err(ShardCountError::ZeroQuorum));
}

#[test]
fn backup_counts_reads_and_checks_both_arguments() {
    assert_eq!(backup_counts("2", "5"), Ok((2, 5)));
    assert_eq!(backup_counts("+3", "003"), Ok((3, 3)));
    assert_eq!(backup_counts("x", "y"), Err(BackupCountsError::QuorumSizeNotUnsigned));
    assert_eq!(backup_counts("2", "-1"), Err(BackupCountsError::ShardsNotUnsigned));
    assert_eq!(
        backup_counts("3", "2"),
        Err(BackupCountsError::Unrecoverable(ShardCountError::TooFewShards { num_shards: 2, quorum_size: 3 }))
    );
    assert_eq!(
        backup_counts("0", "4"),
        Err(BackupCountsError::Unrecoverable(ShardCountError::ZeroQuorum))
    );
    assert_eq!(
        BackupCountsError::QuorumSizeNotUnsigned.message(),
        "--quorum-size argument was not an unsigned integer"
    );
    assert_eq!(BackupCountsError::ShardsNotUnsigned.message(), "--shards argument was not an unsigned integer");
    assert!(BackupCountsError::Unrecoverable(ShardCountError::ZeroQuorum)
        .message()
        .contains("quorum-size must be at least 1"));
}
