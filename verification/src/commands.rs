//! The decisions of the subcommands: which subcommand runs, when enough key
//! shards have been entered, and what a reprint does with `--print-data`.

use vstd::prelude::*;

use crate::text::same_text;

verus! {

/// A subcommand of the command line.
#[derive(Debug, Clone, Copy, PartialEq, Eq, Structural)]
pub enum Subcommand {
    Raw,
    Backup,
    Recover,
    ExpandShards,
    RecreateShards,
    Reprint,
}

/// The subcommand that a name on the command line selects.
pub open spec fn subcommand_named(name: Seq<char>) -> Option<Subcommand> {
    if name == "raw"@ {
        Some(Subcommand::Raw)
    } else if name == "backup"@ {
        Some(Subcommand::Backup)
    } else if name == "recover"@ {
        Some(Subcommand::Recover)
    } else if name == "expand-shards"@ {
        Some(Subcommand::ExpandShards)
    } else if name == "recreate-shards"@ {
        Some(Subcommand::RecreateShards)
    } else if name == "reprint"@ {
        Some(Subcommand::Reprint)
    } else {
        None
    }
}

impl Subcommand {
    /// The subcommand with this name, if there is one.
    pub fn from_name(name: &str) -> (r: Option<Subcommand>)
        ensures
            r == subcommand_named(name@),
    {
        if same_text(name, "raw") {
            Some(Subcommand::Raw)
        } else if same_text(name, "backup") {
            Some(Subcommand::Backup)
        } else if same_text(name, "recover") {
            Some(Subcommand::Recover)
        } else if same_text(name, "expand-shards") {
            Some(Subcommand::ExpandShards)
        } else if same_text(name, "recreate-shards") {
            Some(Subcommand::RecreateShards)
        } else if same_text(name, "reprint") {
            Some(Subcommand::Reprint)
        } else {
            None
        }
    }
}

/// What a reprint reprints.
#[derive(Debug, Clone, Copy, PartialEq, Eq, Structural)]
pub enum ReprintKind {
    MainDocument,
    Shard,
}

/// The kind of document that the argument group `type` names.
pub open spec fn reprint_kind_named(id: Seq<char>) -> Option<ReprintKind> {
    if id == "main-document"@ {
        Some(ReprintKind::MainDocument)
    } else if id == "shard"@ {
        Some(ReprintKind::Shard)
    } else {
        None
    }
}

impl ReprintKind {
    /// The kind of document that the argument group `type` names, if any.
    pub fn from_type_id(id: &str) -> (r: Option<ReprintKind>)
        ensures
            r == reprint_kind_named(id@),
    {
        if same_text(id, "main-document") {
            Some(ReprintKind::MainDocument)
        } else if same_text(id, "shard") {
            Some(ReprintKind::Shard)
        } else {
            None
        }
    }
}

/// What a reprint does about the main document's QR payload.
#[derive(Debug, Clone, Copy, PartialEq, Eq, Structural)]
pub enum PayloadNotice {
    /// Warn on standard error, then print the payload to standard output.
    PrintPayload,
    /// Tell the user that `--print-data` has no effect on a key shard.
    NoEffectOnShard,
    /// Print nothing.
    Silent,
}

/// The payload notice for a reprint.
pub open spec fn payload_notice_for(kind: ReprintKind, print_data: bool) -> PayloadNotice {
    if !print_data {
        PayloadNotice::Silent
    } else {
        match kind {
            ReprintKind::MainDocument => PayloadNotice::PrintPayload,
            ReprintKind::Shard => PayloadNotice::NoEffectOnShard,
        }
    }
}

/// Decides what a reprint does about the payload: only a main document
/// reprinted with `--print-data` prints its payload; `--print-data` with a
/// key shard only draws a remark.
pub fn payload_notice(kind: ReprintKind, print_data: bool) -> (r: PayloadNotice)
    ensures
        r == payload_notice_for(kind, print_data),
{
    if !print_data {
        PayloadNotice::Silent
    } else {
        match kind {
            ReprintKind::MainDocument => PayloadNotice::PrintPayload,
            ReprintKind::Shard => PayloadNotice::NoEffectOnShard,
        }
    }
}

/// A reprint prints the main document's payload only when asked to with
/// `--print-data`, and never for a key shard.
pub proof fn lemma_payload_only_on_request(kind: ReprintKind, print_data: bool)
    ensures
        payload_notice_for(kind, print_data) == PayloadNotice::PrintPayload
            <==> (print_data && kind == ReprintKind::MainDocument),
        !print_data ==> payload_notice_for(kind, print_data) == PayloadNotice::Silent,
{
}

/// While recovering, whether another key shard has to be entered: the
/// quorum holds fewer shards than the main document's quorum size.
pub fn recovery_needs_more(entered: usize, quorum_size: u32) -> (r: bool)
    ensures
        r == (entered < quorum_size),
{
    entered < quorum_size as usize
}

/// While minting new shards, whether the quorum is complete after key shard
/// number `entered + 1` was added and the quorum size is `quorum_size`.
pub fn expansion_complete(entered: u32, quorum_size: u32) -> (r: bool)
    requires
        entered < u32::MAX,
    ensures
        r == (entered + 1 >= quorum_size),
{
    entered + 1 >= quorum_size
}

} // verus!
