//! The CFTC contract market codes (TFF codes) that the ingestion keeps.
use crate::text::same_text;
use vstd::prelude::*;

verus! {

/// The seven target contracts, the currency futures that the COT reports
/// are filtered down to: CAD (090741), CHF (092741), GBP (096742), JPY
/// (097741), EUR (099741), AUD (232741) and NZD (112741).
pub open spec fn is_processed_tff_code(code: Seq<char>) -> bool {
    ||| code == "090741"@
    ||| code == "092741"@
    ||| code == "096742"@
    ||| code == "097741"@
    ||| code == "099741"@
    ||| code == "232741"@
    ||| code == "112741"@
}

/// The contracts taken from the yearly CFTC archive: the seven above and
/// MXN, BRL, ZAR and Bitcoin.
pub open spec fn is_archive_tff_code(code: Seq<char>) -> bool {
    ||| is_processed_tff_code(code)
    ||| code == "095741"@
    ||| code == "120741"@
    ||| code == "216742"@
    ||| code == "233741"@
}

/// Whether `code` is one of the processed report's contracts.
pub fn processed_tff_code(code: &str) -> (r: bool)
    ensures
        r == is_processed_tff_code(code@),
{
    same_text(code, "090741") || same_text(code, "092741") || same_text(code, "096742")
        || same_text(code, "097741") || same_text(code, "099741") || same_text(code, "232741")
        || same_text(code, "112741")
}

/// Whether `code` is one of the archive import's contracts.
pub fn archive_tff_code(code: &str) -> (r: bool)
    ensures
        r == is_archive_tff_code(code@),
{
    processed_tff_code(code) || same_text(code, "095741") || same_text(code, "120741")
        || same_text(code, "216742") || same_text(code, "233741")
}

/// Every contract that the processed report keeps is also taken from the
/// yearly archive.
pub proof fn lemma_processed_codes_in_archive(code: Seq<char>)
    requires
        is_processed_tff_code(code),
    ensures
        is_archive_tff_code(code),
{
}

/// The processed report's contracts are exactly the seven currency futures:
/// CAD, CHF, GBP, JPY, EUR, AUD and NZD.
pub proof fn lemma_processed_code_list(code: Seq<char>)
    ensures
        is_processed_tff_code(code) <==> (code == "090741"@ || code == "092741"@ || code
            == "096742"@ || code == "097741"@ || code == "099741"@ || code == "232741"@ || code
            == "112741"@),
{
}

/// The archive import's contracts are exactly the seven currency futures
/// and MXN, BRL, ZAR and Bitcoin.
pub proof fn lemma_archive_code_list(code: Seq<char>)
    ensures
        is_archive_tff_code(code) <==> (code == "090741"@ || code == "092741"@ || code
            == "096742"@ || code == "097741"@ || code == "099741"@ || code == "232741"@ || code
            == "112741"@ || code == "095741"@ || code == "120741"@ || code == "216742"@ || code
            == "233741"@),
{
}

} // verus!
