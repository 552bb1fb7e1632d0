//! The status-code table: short status codes mapped to their
//! human-readable long forms, as shipped with the binary.

use vstd::prelude::*;

use crate::strutil::str_eq;

verus! {

/// The long form for a short status code, or `None` for a code outside
/// the table.
pub open spec fn long_status_of(c: Seq<char>) -> Option<Seq<char>> {
    if c == "DREAM"@ {
        Some("A Collection of Interesting Ideas"@)
    } else if c == "LS"@ {
        Some("Living Standard"@)
    } else if c == "LS-COMMIT"@ {
        Some("Commit Snapshot"@)
    } else if c == "LS-BRANCH"@ {
        Some("Branch Snapshot"@)
    } else if c == "LD"@ {
        Some("Living Document"@)
    } else if c == "DRAFT-FINDING"@ {
        Some("Draft Finding"@)
    } else if c == "FINDING"@ {
        Some("Finding"@)
    } else if c == "whatwg/RD"@ {
        Some("Review Draft"@)
    } else if c == "w3c/ED"@ {
        Some("Editor's Draft"@)
    } else if c == "w3c/WD"@ {
        Some("W3C Working Draft"@)
    } else if c == "w3c/FPWD"@ {
        Some("W3C First Public Working Draft"@)
    } else if c == "w3c/LCWD"@ {
        Some("W3C Last Call Working Draft"@)
    } else if c == "w3c/CR"@ {
        Some("W3C Candidate Recommendation"@)
    } else if c == "w3c/PR"@ {
        Some("W3C Proposed Recommendation"@)
    } else if c == "w3c/REC"@ {
        Some("W3C Recommendation"@)
    } else if c == "w3c/PER"@ {
        Some("W3C Proposed Edited Recommendation"@)
    } else if c == "w3c/WG-NOTE"@ {
        Some("W3C Working Group Note"@)
    } else if c == "w3c/IG-NOTE"@ {
        Some("W3C Interest Group Note"@)
    } else if c == "w3c/NOTE"@ {
        Some("W3C Note"@)
    } else if c == "w3c/MO"@ {
        Some("W3C Member-only Draft"@)
    } else if c == "w3c/UD"@ {
        Some("Unofficial Proposal Draft"@)
    } else if c == "w3c/CG-DRAFT"@ {
        Some("Draft Community Group Report"@)
    } else if c == "w3c/CG-FINAL"@ {
        Some("Final Community Group Report"@)
    } else if c == "tc39/STAGE0"@ {
        Some("Stage 0: Strawman"@)
    } else if c == "tc39/STAGE1"@ {
        Some("Stage 1: Proposal"@)
    } else if c == "tc39/STAGE2"@ {
        Some("Stage 2: Draft"@)
    } else if c == "tc39/STAGE3"@ {
        Some("Stage 3: Candidate"@)
    } else if c == "tc39/STAGE4"@ {
        Some("Stage 4: Finished"@)
    } else if c == "iso/I"@ {
        Some("Issue"@)
    } else if c == "iso/DR"@ {
        Some("Defect Report"@)
    } else if c == "iso/D"@ {
        Some("Draft Proposal"@)
    } else if c == "iso/P"@ {
        Some("Published Proposal"@)
    } else if c == "iso/MEET"@ {
        Some("Meeting Announcements"@)
    } else if c == "iso/RESP"@ {
        Some("Records of Response"@)
    } else if c == "iso/MIN"@ {
        Some("Minutes"@)
    } else if c == "iso/ER"@ {
        Some("Editor's Report"@)
    } else if c == "iso/SD"@ {
        Some("Standing Document"@)
    } else if c == "iso/PWI"@ {
        Some("Preliminary Work Item"@)
    } else if c == "iso/NP"@ {
        Some("New Proposal"@)
    } else if c == "iso/NWIP"@ {
        Some("New Work Item Proposal"@)
    } else if c == "iso/WD"@ {
        Some("Working Draft"@)
    } else if c == "iso/CD"@ {
        Some("Committee Draft"@)
    } else if c == "iso/FCD"@ {
        Some("Final Committee Draft"@)
    } else if c == "iso/DIS"@ {
        Some("Draft International Standard"@)
    } else if c == "iso/FDIS"@ {
        Some("Final Draft International Standard"@)
    } else if c == "iso/PRF"@ {
        Some("Proof of a new International Standard"@)
    } else if c == "iso/IS"@ {
        Some("International Standard"@)
    } else if c == "iso/TR"@ {
        Some("Technical Report"@)
    } else if c == "iso/DTR"@ {
        Some("Draft Technical Report"@)
    } else if c == "iso/TS"@ {
        Some("Technical Specification"@)
    } else if c == "iso/DTS"@ {
        Some("Draft Technical Specification"@)
    } else if c == "iso/PAS"@ {
        Some("Publicly Available Specification"@)
    } else if c == "iso/TTA"@ {
        Some("Technology Trends Assessment"@)
    } else if c == "iso/IWA"@ {
        Some("International Workshop Agreement"@)
    } else if c == "iso/COR"@ {
        Some("Technical Corrigendum"@)
    } else if c == "iso/GUIDE"@ {
        Some("Guidance to Technical Committees"@)
    } else if c == "iso/NP-AMD"@ {
        Some("New Proposal Amendment"@)
    } else if c == "iso/AWI-AMD"@ {
        Some("Approved new Work Item Amendment"@)
    } else if c == "iso/WD-AMD"@ {
        Some("Working Draft Amendment"@)
    } else if c == "iso/CD-AMD"@ {
        Some("Committee Draft Amendment"@)
    } else if c == "iso/PD-AMD"@ {
        Some("Proposed Draft Amendment"@)
    } else if c == "iso/FPD-AMD"@ {
        Some("Final Proposed Draft Amendment"@)
    } else if c == "iso/D-AMD"@ {
        Some("Draft Amendment"@)
    } else if c == "iso/FD-AMD"@ {
        Some("Final Draft Amendment"@)
    } else if c == "iso/PRF-AMD"@ {
        Some("Proof Amendment"@)
    } else if c == "iso/AMD"@ {
        Some("Amendment"@)
    } else if c == "fido/ED"@ {
        Some("Editor's Draft"@)
    } else if c == "fido/WD"@ {
        Some("Working Draft"@)
    } else if c == "fido/RD"@ {
        Some("Review Draft"@)
    } else if c == "fido/ID"@ {
        Some("Implementation Draft"@)
    } else if c == "fido/PS"@ {
        Some("Proposed Standard"@)
    } else if c == "fido/FD"@ {
        Some("Final Document"@)
    } else if c == "khronos/ED"@ {
        Some("Editor's Draft"@)
    } else {
        None
    }
}

pub fn long_status(code: &str) -> (r: Option<&'static str>)
    ensures
        match r {
            Some(s) => long_status_of(code@) == Some(s@),
            None => long_status_of(code@) is None,
        },
{
    if str_eq(code, "DREAM") {
        Some("A Collection of Interesting Ideas")
    } else if str_eq(code, "LS") {
        Some("Living Standard")
    } else if str_eq(code, "LS-COMMIT") {
        Some("Commit Snapshot")
    } else if str_eq(code, "LS-BRANCH") {
        Some("Branch Snapshot")
    } else if str_eq(code, "LD") {
        Some("Living Document")
    } else if str_eq(code, "DRAFT-FINDING") {
        Some("Draft Finding")
    } else if str_eq(code, "FINDING") {
        Some("Finding")
    } else if str_eq(code, "whatwg/RD") {
        Some("Review Draft")
    } else if str_eq(code, "w3c/ED") {
        Some("Editor's Draft")
    } else if str_eq(code, "w3c/WD") {
        Some("W3C Working Draft")
    } else if str_eq(code, "w3c/FPWD") {
        Some("W3C First Public Working Draft")
    } else if str_eq(code, "w3c/LCWD") {
        Some("W3C Last Call Working Draft")
    } else if str_eq(code, "w3c/CR") {
        Some("W3C Candidate Recommendation")
    } else if str_eq(code, "w3c/PR") {
        Some("W3C Proposed Recommendation")
    } else if str_eq(code, "w3c/REC") {
        Some("W3C Recommendation")
    } else if str_eq(code, "w3c/PER") {
        Some("W3C Proposed Edited Recommendation")
    } else if str_eq(code, "w3c/WG-NOTE") {
        Some("W3C Working Group Note")
    } else if str_eq(code, "w3c/IG-NOTE") {
        Some("W3C Interest Group Note")
    } else if str_eq(code, "w3c/NOTE") {
        Some("W3C Note")
    } else if str_eq(code, "w3c/MO") {
        Some("W3C Member-only Draft")
    } else if str_eq(code, "w3c/UD") {
        Some("Unofficial Proposal Draft")
    } else if str_eq(code, "w3c/CG-DRAFT") {
        Some("Draft Community Group Report")
    } else if str_eq(code, "w3c/CG-FINAL") {
        Some("Final Community Group Report")
    } else if str_eq(code, "tc39/STAGE0") {
        Some("Stage 0: Strawman")
    } else if str_eq(code, "tc39/STAGE1") {
        Some("Stage 1: Proposal")
    } else if str_eq(code, "tc39/STAGE2") {
        Some("Stage 2: Draft")
    } else if str_eq(code, "tc39/STAGE3") {
        Some("Stage 3: Candidate")
    } else if str_eq(code, "tc39/STAGE4") {
        Some("Stage 4: Finished")
    } else if str_eq(code, "iso/I") {
        Some("Issue")
    } else if str_eq(code, "iso/DR") {
        Some("Defect Report")
    } else if str_eq(code, "iso/D") {
        Some("Draft Proposal")
    } else if str_eq(code, "iso/P") {
        Some("Published Proposal")
    } else if str_eq(code, "iso/MEET") {
        Some("Meeting Announcements")
    } else if str_eq(code, "iso/RESP") {
        Some("Records of Response")
    } else if str_eq(code, "iso/MIN") {
        Some("Minutes")
    } else if str_eq(code, "iso/ER") {
        Some("Editor's Report")
    } else if str_eq(code, "iso/SD") {
        Some("Standing Document")
    } else if str_eq(code, "iso/PWI") {
        Some("Preliminary Work Item")
    } else if str_eq(code, "iso/NP") {
        Some("New Proposal")
    } else if str_eq(code, "iso/NWIP") {
        Some("New Work Item Proposal")
    } else if str_eq(code, "iso/WD") {
        Some("Working Draft")
    } else if str_eq(code, "iso/CD") {
        Some("Committee Draft")
    } else if str_eq(code, "iso/FCD") {
        Some("Final Committee Draft")
    } else if str_eq(code, "iso/DIS") {
        Some("Draft International Standard")
    } else if str_eq(code, "iso/FDIS") {
        Some("Final Draft International Standard")
    } else if str_eq(code, "iso/PRF") {
        Some("Proof of a new International Standard")
    } else if str_eq(code, "iso/IS") {
        Some("International Standard")
    } else if str_eq(code, "iso/TR") {
        Some("Technical Report")
    } else if str_eq(code, "iso/DTR") {
        Some("Draft Technical Report")
    } else if str_eq(code, "iso/TS") {
        Some("Technical Specification")
    } else if str_eq(code, "iso/DTS") {
        Some("Draft Technical Specification")
    } else if str_eq(code, "iso/PAS") {
        Some("Publicly Available Specification")
    } else if str_eq(code, "iso/TTA") {
        Some("Technology Trends Assessment")
    } else if str_eq(code, "iso/IWA") {
        Some("International Workshop Agreement")
    } else if str_eq(code, "iso/COR") {
        Some("Technical Corrigendum")
    } else if str_eq(code, "iso/GUIDE") {
        Some("Guidance to Technical Committees")
    } else if str_eq(code, "iso/NP-AMD") {
        Some("New Proposal Amendment")
    } else if str_eq(code, "iso/AWI-AMD") {
        Some("Approved new Work Item Amendment")
    } else if str_eq(code, "iso/WD-AMD") {
        Some("Working Draft Amendment")
    } else if str_eq(code, "iso/CD-AMD") {
        Some("Committee Draft Amendment")
    } else if str_eq(code, "iso/PD-AMD") {
        Some("Proposed Draft Amendment")
    } else if str_eq(code, "iso/FPD-AMD") {
        Some("Final Proposed Draft Amendment")
    } else if str_eq(code, "iso/D-AMD") {
        Some("Draft Amendment")
    } else if str_eq(code, "iso/FD-AMD") {
        Some("Final Draft Amendment")
    } else if str_eq(code, "iso/PRF-AMD") {
        Some("Proof Amendment")
    } else if str_eq(code, "iso/AMD") {
        Some("Amendment")
    } else if str_eq(code, "fido/ED") {
        Some("Editor's Draft")
    } else if str_eq(code, "fido/WD") {
        Some("Working Draft")
    } else if str_eq(code, "fido/RD") {
        Some("Review Draft")
    } else if str_eq(code, "fido/ID") {
        Some("Implementation Draft")
    } else if str_eq(code, "fido/PS") {
        Some("Proposed Standard")
    } else if str_eq(code, "fido/FD") {
        Some("Final Document")
    } else if str_eq(code, "khronos/ED") {
        Some("Editor's Draft")
    } else {
        None
    }
}

} // verus!
