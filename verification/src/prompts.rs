//! The prompts and status lines shown while collecting key shards and QR
//! codes, and the names of the PDF files that are written.

use vstd::prelude::*;

use crate::text::{decimal, decimal_string, join_strings, join_with, string_views};

verus! {

/// The prompt for the next QR code of a multi-part document.
pub open spec fn qr_code_prompt_text(prompt: Seq<char>, remaining: Option<usize>) -> Seq<char> {
    prompt + " ("@ + match remaining {
        None => "unknown number of"@,
        Some(n) => decimal(n as nat),
    } + " codes remaining)"@
}

/// Builds the prompt for the next QR code: `prompt`, then how many codes
/// remain, or that their number is not known yet.
pub fn qr_code_prompt(prompt: &str, remaining: Option<usize>) -> (r: String)
    ensures
        r@ == qr_code_prompt_text(prompt@, remaining),
{
    let mut s = String::from_str(prompt);
    s.append(" (");
    match remaining {
        None => s.append("unknown number of"),
        Some(n) => s.append(decimal_string(n as u64).as_str()),
    }
    s.append(" codes remaining)");
    s
}

/// The prompt for key shard number `entered + 1`, given the identifiers of
/// the shards entered so far and the quorum size once it is known.
pub open spec fn shard_prompt_text(shard_ids: Seq<Seq<char>>, entered: u32, quorum_size: Option<u32>) -> Seq<char> {
    match quorum_size {
        None => "Quorum contains no key shards.\nEnter key shard "@ + decimal(entered as nat + 1),
        Some(n) => "Quorum contains ["@ + join_with(shard_ids, " "@) + "] key shards.\nEnter key shard "@
            + decimal(entered as nat + 1) + " of "@ + decimal(n as nat),
    }
}

/// Builds the prompt for the next key shard. Before any shard is entered
/// the quorum size is not known; after that the prompt lists the shards in
/// the quorum and how many are needed.
pub fn shard_prompt(shard_ids: &Vec<String>, entered: u32, quorum_size: Option<u32>) -> (r: String)
    requires
        entered < u32::MAX,
    ensures
        r@ == shard_prompt_text(string_views(shard_ids@), entered, quorum_size),
{
    match quorum_size {
        None => {
            let mut s = String::from_str("Quorum contains no key shards.\nEnter key shard ");
            s.append(decimal_string(entered as u64 + 1).as_str());
            s
        },
        Some(n) => {
            let mut s = String::from_str("Quorum contains [");
            s.append(join_strings(shard_ids, " ").as_str());
            s.append("] key shards.\nEnter key shard ");
            s.append(decimal_string(entered as u64 + 1).as_str());
            s.append(" of ");
            s.append(decimal_string(n as u64).as_str());
            s
        },
    }
}

/// Builds the prompt for the codewords of key shard number `entered + 1`.
pub fn codewords_prompt(entered: u32) -> (r: String)
    requires
        entered < u32::MAX,
    ensures
        r@ == "Enter key shard "@ + decimal(entered as nat + 1) + " codewords"@,
{
    let mut s = String::from_str("Enter key shard ");
    s.append(decimal_string(entered as u64 + 1).as_str());
    s.append(" codewords");
    s
}

/// Builds the line that shows the checksum of key shard number
/// `entered + 1`.
pub fn shard_checksum_line(entered: u32, checksum: &str) -> (r: String)
    requires
        entered < u32::MAX,
    ensures
        r@ == "Key shard "@ + decimal(entered as nat + 1) + " checksum: "@ + checksum@,
{
    let mut s = String::from_str("Key shard ");
    s.append(decimal_string(entered as u64 + 1).as_str());
    s.append(" checksum: ");
    s.append(checksum);
    s
}

/// Builds the line that says how many key shards recover the document.
pub fn shards_required_line(quorum_size: u32) -> (r: String)
    ensures
        r@ == decimal(quorum_size as nat) + " key shards required."@,
{
    let mut s = decimal_string(quorum_size as u64);
    s.append(" key shards required.");
    s
}

/// The PDF file of a main document written by a backup.
pub fn main_document_pdf(document_id: &str) -> (r: String)
    ensures
        r@ == "main_document-"@ + document_id@ + ".pdf"@,
{
    let mut s = String::from_str("main_document-");
    s.append(document_id);
    s.append(".pdf");
    s
}

/// The PDF file of a key shard written by a backup or by minting new shards.
pub fn key_shard_pdf(document_id: &str, shard_id: &str) -> (r: String)
    ensures
        r@ == "key_shard-"@ + document_id@ + "-"@ + shard_id@ + ".pdf"@,
{
    let mut s = String::from_str("key_shard-");
    s.append(document_id);
    s.append("-");
    s.append(shard_id);
    s.append(".pdf");
    s
}

/// The PDF file of a reprinted main document.
pub fn reprinted_main_document_pdf(document_id: &str) -> (r: String)
    ensures
        r@ == "main-document-"@ + document_id@ + ".pdf"@,
{
    let mut s = String::from_str("main-document-");
    s.append(document_id);
    s.append(".pdf");
    s
}

/// The PDF file of a reprinted key shard.
pub fn reprinted_key_shard_pdf(document_id: &str, shard_id: &str) -> (r: String)
    ensures
        r@ == "key-shard-"@ + document_id@ + "-"@ + shard_id@ + ".pdf"@,
{
    let mut s = String::from_str("key-shard-");
    s.append(document_id);
    s.append("-");
    s.append(shard_id);
    s.append(".pdf");
    s
}

} // verus!
