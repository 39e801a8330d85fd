//! Query status and result types.
use vstd::prelude::*;
use vstd::string::StringExecFns;
use core::time::Duration;

verus! {

/// Outcome of checking one username against one site.
#[derive(Debug, Clone, Copy, PartialEq, Eq, Structural)]
pub enum QueryStatus {
    /// Username detected on the site.
    Claimed,
    /// Username not detected (i.e. available).
    Available,
    /// An error occurred while trying to detect the username.
    Unknown,
    /// Username is not allowable for this site (failed `regexCheck`).
    Illegal,
    /// Request was blocked by a WAF (e.g. Cloudflare).
    Waf,
}

/// The text that names a status.
pub open spec fn status_text(s: QueryStatus) -> Seq<char> {
    match s {
        QueryStatus::Claimed => "Claimed"@,
        QueryStatus::Available => "Available"@,
        QueryStatus::Unknown => "Unknown"@,
        QueryStatus::Illegal => "Illegal"@,
        QueryStatus::Waf => "WAF"@,
    }
}

impl QueryStatus {
    /// The status as text: `Claimed`, `Available`, `Unknown`, `Illegal` or `WAF`.
    pub fn to_string(&self) -> (r: String)
        ensures
            r@ == status_text(*self),
    {
        match self {
            QueryStatus::Claimed => String::from_str("Claimed"),
            QueryStatus::Available => String::from_str("Available"),
            QueryStatus::Unknown => String::from_str("Unknown"),
            QueryStatus::Illegal => String::from_str("Illegal"),
            QueryStatus::Waf => String::from_str("WAF"),
        }
    }
}

/// Full result for one (username, site) query.
#[derive(Debug, Clone)]
pub struct QueryResult {
    pub username: String,
    pub site_name: String,
    /// URL the user *would* live at if the account exists.
    pub site_url_user: String,
    pub status: QueryStatus,
    pub query_time: Option<Duration>,
    /// Extra context, e.g. the error kind when status is `Unknown`.
    pub context: Option<String>,
}

/// How a result reads as text: its status, then the context in brackets
/// when there is one.
pub open spec fn result_text(r: QueryResult) -> Seq<char> {
    match r.context {
        Some(ctx) => status_text(r.status) + " ("@ + ctx@ + ")"@,
        None => status_text(r.status),
    }
}

impl QueryResult {
    /// The result as text, e.g. `Unknown (Timeout Error)` or `Claimed`.
    pub fn to_string(&self) -> (r: String)
        ensures
            r@ == result_text(*self),
    {
        let mut r = self.status.to_string();
        match &self.context {
            Some(ctx) => {
                r.append(" (");
                r.append(ctx.as_str());
                r.append(")");
            },
            None => {},
        }
        r
    }
}

} // verus!
