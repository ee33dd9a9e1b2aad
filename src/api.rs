//! The request and response of a sync run.
use vstd::prelude::*;
use vstd::string::StringExecFns;

verus! {

/// The region synced when a request names none.
pub const DEFAULT_COUNTRY_CODE: &'static str = "BG";

/// The decimal digits of `n`, most significant first.
pub open spec fn decimal(n: nat) -> Seq<char>
    decreases n,
{
    if n < 10 {
        seq![(48 + n) as char]
    } else {
        decimal(n / 10).push((48 + n % 10) as char)
    }
}

/// Relies on `ToString` for `usize`: its `Display`, the decimal digits
/// without sign or padding.
#[verifier::external_body]
fn decimal_text(n: usize) -> (r: String)
    ensures
        r@ == decimal(n as nat),
{
    n.to_string()
}

/// A request to sync the businesses of a region.
#[derive(Clone, Debug)]
pub struct SyncRequest {
    pub country_code: Option<String>,
}

impl SyncRequest {
    /// The region to sync: the requested one, or `DEFAULT_COUNTRY_CODE`.
    pub fn country_code_or_default(&self) -> (r: String)
        ensures
            r@ == match self.country_code {
                Some(c) => c@,
                None => DEFAULT_COUNTRY_CODE@,
            },
    {
        match &self.country_code {
            Some(c) => c.clone(),
            None => String::from_str(DEFAULT_COUNTRY_CODE),
        }
    }
}

/// The outcome of a sync run: how many records were written, and a summary.
#[derive(Clone, Debug)]
pub struct SyncResponse {
    pub businesses_synced: usize,
    pub message: String,
}

impl SyncResponse {
    /// The response for a run that wrote `count` records.
    pub fn new(count: usize) -> (r: SyncResponse)
        ensures
            r.businesses_synced == count,
            r.message@ == "Successfully synced "@ + decimal(count as nat) + " businesses"@,
    {
        let mut message = String::from_str("Successfully synced ");
        message.append(decimal_text(count).as_str());
        message.append(" businesses");
        SyncResponse { businesses_synced: count, message }
    }
}

} // verus!
