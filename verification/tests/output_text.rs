use paperback_cli::commands::{
    expansion_complete, payload_notice, recovery_needs_more, PayloadNotice, ReprintKind, Subcommand,
};
use paperback_cli::prompts::{
    codewords_prompt, key_shard_pdf, main_document_pdf, qr_code_prompt, reprinted_key_shard_pdf,
    reprinted_main_document_pdf, shard_checksum_line, shard_prompt, shards_required_line,
};
use paperback_cli::text::{decimal_string, join_strings, same_text};

#[test]
fn decimal_string_matches_to_string() {
    for n in [0u64, 1, 9, 10, 99, 100, 12345, u32::MAX as u64, u64::MAX] {
        assert_eq!(decimal_string(n), n.to_string());
    }
}

#[test]
fn join_strings_matches_join() {
    let parts: Vec<String> = vec!["a".into(), "bc".into(), "".into(), "d".into()];
    assert_eq!(join_strings(&parts, " "), parts.join(" "));
    assert_eq!(join_strings(&parts, "\n"), "a\nbc\n\nd");
    assert_eq!(join_strings(&Vec::new(), " "), "");
    assert_eq!(join_strings(&vec!["one".to_string()], ", "), "one");
}

#[test]
fn same_text_compares_contents() {
    assert!(same_text("backup", "backup"));
    assert!(!same_text("backup", "backups"));
    assert!(!same_text("backup", "Backup"));
    assert!(same_text("", ""));
}

#[test]
fn qr_code_prompt_shows_remaining_codes() {
    assert_eq!(
        qr_code_prompt("Enter a main document code", None),
        "Enter a main document code (unknown number of codes remaining)"
    );
    assert_eq!(
        qr_code_prompt("Enter a main document code", Some(3)),
        "Enter a main document code (3 codes remaining)"
    );
    assert_eq!(qr_code_prompt("", Some(0)), " (0 codes remaining)");
}

#[test]
fn shard_prompt_lists_the_quorum() {
    assert_eq!(
        shard_prompt(&Vec::new(), 0, None),
        "Quorum contains no key shards.\nEnter key shard 1"
    );
    let ids = vec!["abc".to_string(), "xyz".to_string()];
    assert_eq!(
        shard_prompt(&ids, 2, Some(3)),
        "Quorum contains [abc xyz] key shards.\nEnter key shard 3 of 3"
    );
    assert_eq!(
        shard_prompt(&Vec::new(), 0, Some(2)),
        "Quorum contains [] key shards.\nEnter key shard 1 of 2"
    );
}

#[test]
fn shard_status_lines() {
    assert_eq!(codewords_prompt(0), "Enter key shard 1 codewords");
    assert_eq!(codewords_prompt(41), "Enter key shard 42 codewords");
    assert_eq!(shard_checksum_line(1, "ab12"), "Key shard 2 checksum: ab12");
    assert_eq!(shards_required_line(3), "3 key shards required.");
}

#[test]
fn pdf_file_names() {
    assert_eq!(main_document_pdf("doc1"), "main_document-doc1.pdf");
    assert_eq!(key_shard_pdf("doc1", "s7"), "key_shard-doc1-s7.pdf");
    assert_eq!(reprinted_main_document_pdf("doc1"), "main-document-doc1.pdf");
    assert_eq!(reprinted_key_shard_pdf("doc1", "s7"), "key-shard-doc1-s7.pdf");
}

#[test]
fn subcommands_by_name() {
    assert_eq!(Subcommand::from_name("raw"), Some(Subcommand::Raw));
    assert_eq!(Subcommand::from_name("backup"), Some(Subcommand::Backup));
    assert_eq!(Subcommand::from_name("recover"), Some(Subcommand::Recover));
    assert_eq!(Subcommand::from_name("expand-shards"), Some(Subcommand::ExpandShards));
    assert_eq!(Subcommand::from_name("recreate-shards"), Some(Subcommand::RecreateShards));
    assert_eq!(Subcommand::from_name("reprint"), Some(Subcommand::Reprint));
    assert_eq!(Subcommand::from_name("help"), None);
    assert_eq!(Subcommand::from_name(""), None);
}

#[test]
fn reprint_kinds_and_payload() {
    assert_eq!(ReprintKind::from_type_id("main-document"), Some(ReprintKind::MainDocument));
    assert_eq!(ReprintKind::from_type_id("shard"), Some(ReprintKind::Shard));
    assert_eq!(ReprintKind::from_type_id("type"), None);
    assert_eq!(payload_notice(ReprintKind::MainDocument, true), PayloadNotice::PrintPayload);
    assert_eq!(payload_notice(ReprintKind::MainDocument, false), PayloadNotice::Silent);
    assert_eq!(payload_notice(ReprintKind::Shard, true), PayloadNotice::NoEffectOnShard);
    assert_eq!(payload_notice(ReprintKind::Shard, false), PayloadNotice::Silent);
}

#[test]
fn shard_collection_stops_at_the_quorum() {
    assert!(recovery_needs_more(0, 2));
    assert!(recovery_needs_more(1, 2));
    assert!(!recovery_needs_more(2, 2));
    assert!(!recovery_needs_more(0, 0));
    assert!(!expansion_complete(0, 2));
    assert!(expansion_complete(1, 2));
    assert!(expansion_complete(0, 1));
    assert!(expansion_complete(5, 2));
}
