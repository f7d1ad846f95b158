//! The request-level decisions of the HTTP routes: query parameters, input
//! validation, the answers built from what the stores return, and the plan of
//! an audit-log export.

use vstd::prelude::*;
use vstd::string::StringExecFns;
use chrono::{DateTime, Utc};

use crate::headers::{ascii_chars, header_text, is_header_text};

verus! {

/// The error answers of the routes.
#[derive(Debug, PartialEq, Eq)]
pub enum ApiError {
    /// The request was malformed; the message says how.
    InvalidInput(String),
    /// The requested record does not exist.
    NotFound,
}

/// `?include_deleted=` of the reminder listing.
pub struct RemindersQuery {
    pub include_deleted: Option<bool>,
}

impl RemindersQuery {
    /// Whether soft-deleted reminders are listed too; they are not unless
    /// asked for.
    pub fn includes_deleted(&self) -> (all: bool)
        ensures
            all == (self.include_deleted == Some(true)),
    {
        match self.include_deleted {
            Some(flag) => flag,
            None => false,
        }
    }
}

/// The reminders listed when deleted ones are left out: the vault's current
/// preferences if it has any, else none.
pub fn current_reminders<P, E>(lookup: Result<P, E>) -> (records: Vec<P>)
    ensures
        records@ == match lookup {
            Ok(p) => seq![p],
            Err(_) => Seq::<P>::empty(),
        },
{
    match lookup {
        Ok(p) => {
            let mut records: Vec<P> = Vec::new();
            records.push(p);
            records
        },
        Err(_) => Vec::new(),
    }
}

/// The answer to a lookup of one record: the record, or not found.
pub fn found_or_not_found<P, E>(lookup: Result<P, E>) -> (answer: Result<P, ApiError>)
    ensures
        match lookup {
            Ok(p) => answer == Ok::<P, ApiError>(p),
            Err(_) => answer == Err::<P, ApiError>(ApiError::NotFound),
        },
{
    match lookup {
        Ok(p) => Ok(p),
        Err(_) => Err(ApiError::NotFound),
    }
}

/// A failure reported as a message becomes an invalid-input answer with the
/// same message.
pub fn as_invalid_input<T>(outcome: Result<T, String>) -> (answer: Result<T, ApiError>)
    ensures
        match outcome {
            Ok(v) => answer == Ok::<T, ApiError>(v),
            Err(m) => answer matches Err(ApiError::InvalidInput(n)) && n@ == m@,
        },
{
    match outcome {
        Ok(v) => Ok(v),
        Err(m) => Err(ApiError::InvalidInput(m)),
    }
}

/// An invalid-input answer carrying `message`.
fn invalid_input(message: &str) -> (e: ApiError)
    ensures
        e matches ApiError::InvalidInput(m) && m@ == message@,
{
    ApiError::InvalidInput(String::from_str(message))
}

/// Checks a request to set reminder preferences: it must name at least one
/// channel and a positive number of hours before expiry.
pub fn validate_preferences(channel_count: usize, hours_before_expiry: u64) -> (checked: Result<(), ApiError>)
    ensures
        channel_count == 0 ==> (checked matches Err(ApiError::InvalidInput(m)) && m@
            == "channels must not be empty"@),
        channel_count != 0 && hours_before_expiry == 0 ==> (checked matches Err(
            ApiError::InvalidInput(m),
        ) && m@ == "hours_before_expiry must be > 0"@),
        channel_count != 0 && hours_before_expiry != 0 ==> checked is Ok,
{
    if channel_count == 0 {
        return Err(invalid_input("channels must not be empty"));
    }
    if hours_before_expiry == 0 {
        return Err(invalid_input("hours_before_expiry must be > 0"));
    }
    Ok(())
}

/// The idempotency key of a request to set preferences: the
/// `Idempotency-Key` header when it reads as text, even if empty.
pub fn idempotency_key(header: Option<&[u8]>) -> (key: Option<String>)
    ensures
        key is Some <==> (header matches Some(v) && is_header_text(v@)),
        key matches Some(k) ==> (header matches Some(v) && k@ == ascii_chars(v@)),
{
    match header {
        Some(value) => header_text(value),
        None => None,
    }
}

/// What a request to set preferences does once its idempotency key has
/// been looked up among the recorded replies.
#[derive(Debug, PartialEq, Eq)]
pub enum PreferencesAction<C> {
    /// Answer with the reply recorded under the key.
    Replay(C),
    /// Store the preferences, then record the reply under the key, if any.
    Save { record_under: Option<String> },
}

/// The first step of setting preferences: the request is validated, then
/// its idempotency key, if any, is the one to look up.
pub fn preferences_request(
    channel_count: usize,
    hours_before_expiry: u64,
    idempotency_header: Option<&[u8]>,
) -> (step: Result<Option<String>, ApiError>)
    ensures
        channel_count == 0 ==> (step matches Err(ApiError::InvalidInput(m)) && m@
            == "channels must not be empty"@),
        channel_count != 0 && hours_before_expiry == 0 ==> (step matches Err(
            ApiError::InvalidInput(m),
        ) && m@ == "hours_before_expiry must be > 0"@),
        channel_count != 0 && hours_before_expiry != 0 ==> (step matches Ok(key) && (key is Some
            <==> (idempotency_header matches Some(v) && is_header_text(v@))) && (key matches Some(k)
            ==> (idempotency_header matches Some(v) && k@ == ascii_chars(v@)))),
{
    match validate_preferences(channel_count, hours_before_expiry) {
        Ok(()) => Ok(idempotency_key(idempotency_header)),
        Err(e) => Err(e),
    }
}

/// The second step of setting preferences, from the key of the first step
/// and the reply recorded under it: a recorded reply is replayed; otherwise
/// the preferences are stored and the reply recorded under the key.
pub fn preferences_action<C>(key: Option<String>, recorded: Option<C>) -> (action:
    PreferencesAction<C>)
    ensures
        (key is Some) ==> (recorded matches Some(c) ==> action == PreferencesAction::Replay(c)),
        (key is None || recorded is None) ==> (action == (PreferencesAction::<C>::Save {
            record_under: key,
        })),
{
    match key {
        Some(k) => match recorded {
            Some(c) => PreferencesAction::Replay(c),
            None => PreferencesAction::Save { record_under: Some(k) },
        },
        None => PreferencesAction::Save { record_under: None },
    }
}

/// The third step of setting preferences, once the store has answered: a
/// failed store is passed on and nothing is recorded; after a successful one
/// the reply is recorded under the key, if there is one.
pub fn preferences_after_store<E>(record_under: Option<String>, stored: Result<(), E>) -> (next:
    Result<Option<String>, E>)
    ensures
        match stored {
            Ok(()) => next == Ok::<Option<String>, E>(record_under),
            Err(e) => next == Err::<Option<String>, E>(e),
        },
{
    match stored {
        Ok(()) => Ok(record_under),
        Err(e) => Err(e),
    }
}

/// `?token=` of the unsubscribe link.
pub struct UnsubscribeQuery {
    pub token: String,
}

/// The reply to an unsubscribe request, from the owner whose token was
/// redeemed or the failure to redeem it.
pub fn unsubscribe_reply<E>(redeemed: Result<String, E>) -> (reply: Result<String, ApiError>)
    ensures
        match redeemed {
            Ok(owner) => (reply matches Ok(text) && text@ == "You ("@ + owner@
                + ") have been unsubscribed from reminder emails."@),
            Err(_) => (reply matches Err(ApiError::InvalidInput(m)) && m@
                == "Invalid or expired unsubscribe token"@),
        },
{
    match redeemed {
        Ok(owner) => {
            let mut text = String::from_str("You (");
            text.append(owner.as_str());
            text.append(") have been unsubscribed from reminder emails.");
            Ok(text)
        },
        Err(_) => Err(invalid_input("Invalid or expired unsubscribe token")),
    }
}

/// Checks a release simulation request: at least one recognised scenario;
/// one missed check-in unless another count is given.
pub fn simulation_request<S>(scenarios: Vec<S>, missed_count: Option<u32>) -> (request: Result<
    (Vec<S>, u32),
    ApiError,
>)
    ensures
        scenarios@.len() == 0 ==> (request matches Err(ApiError::InvalidInput(m)) && m@
            == "No valid scenarios requested. Use: no_check_ins, consistent_check_ins, missed_check_in_dates"@),
        scenarios@.len() != 0 ==> (request matches Ok((s, n)) && s@ == scenarios@ && n == match missed_count {
            Some(c) => c,
            None => 1u32,
        }),
{
    if scenarios.len() == 0 {
        return Err(
            invalid_input(
                "No valid scenarios requested. Use: no_check_ins, consistent_check_ins, missed_check_in_dates",
            ),
        );
    }
    let count = match missed_count {
        Some(c) => c,
        None => 1,
    };
    Ok((scenarios, count))
}

/// An instant in UTC: whole seconds since the Unix epoch and the nanoseconds
/// past that second.
#[derive(Clone, Copy, Debug, PartialEq, Eq)]
pub struct UtcTimestamp {
    pub secs: i64,
    pub nanos: u32,
}

/// The instant an RFC 3339 date-and-time denotes, in UTC, or `None` when the
/// text is not one.
pub uninterp spec fn rfc3339_utc(text: Seq<char>) -> Option<UtcTimestamp>;

/// Calls `chrono::DateTime::parse_from_rfc3339` and converts a parsed time to
/// UTC. Its result is named `rfc3339_utc` of the text; what that is for given
/// text is left to chrono's parser.
#[verifier::external_body]
fn parse_rfc3339_utc(text: &str) -> (instant: Option<UtcTimestamp>)
    ensures
        instant == rfc3339_utc(text@),
{
    match DateTime::parse_from_rfc3339(text) {
        Ok(parsed) => {
            let utc = parsed.with_timezone(&Utc);
            Some(UtcTimestamp { secs: utc.timestamp(), nanos: utc.timestamp_subsec_nanos() })
        },
        Err(_) => None,
    }
}

/// The instant of an optional bound: absent, or not an RFC 3339
/// date-and-time, gives no bound.
pub fn export_bound(text: &Option<String>) -> (bound: Option<UtcTimestamp>)
    ensures
        bound == match text {
            Some(t) => rfc3339_utc(t@),
            None => None,
        },
{
    match text {
        Some(t) => parse_rfc3339_utc(t.as_str()),
        None => None,
    }
}

/// The file formats of an audit-log export.
#[derive(Clone, Copy, Debug, PartialEq, Eq)]
pub enum ExportFormat {
    Csv,
    Json,
}

impl ExportFormat {
    /// The name of the format, which is also the file extension.
    pub open spec fn spec_name(self) -> Seq<char> {
        match self {
            ExportFormat::Csv => "csv"@,
            ExportFormat::Json => "json"@,
        }
    }

    /// The name of the format, which is also the file extension.
    pub fn name(&self) -> (name: String)
        ensures
            name@ == self.spec_name(),
    {
        proof {
            reveal_strlit("csv");
            reveal_strlit("json");
        }
        match self {
            ExportFormat::Csv => String::from_str("csv"),
            ExportFormat::Json => String::from_str("json"),
        }
    }

    /// The media type of the exported file.
    pub fn content_type(&self) -> (media: String)
        ensures
            media@ == match self {
                ExportFormat::Csv => "text/csv"@,
                ExportFormat::Json => "application/json"@,
            },
    {
        match self {
            ExportFormat::Csv => String::from_str("text/csv"),
            ExportFormat::Json => String::from_str("application/json"),
        }
    }
}

/// `?format=&from=&to=` of the audit-log export.
pub struct ExportQuery {
    pub format: String,
    pub from: Option<String>,
    pub to: Option<String>,
}

/// What an audit-log export is asked to produce.
#[derive(Debug, PartialEq, Eq)]
pub struct ExportPlan {
    pub format: ExportFormat,
    pub from: Option<UtcTimestamp>,
    pub to: Option<UtcTimestamp>,
    pub user_id: Option<String>,
}

/// The export format a request names: `csv` or `json`, anything else being
/// refused.
pub fn export_format(format: &String) -> (chosen: Result<ExportFormat, ApiError>)
    ensures
        format@ == "csv"@ ==> chosen == Ok::<ExportFormat, ApiError>(ExportFormat::Csv),
        format@ == "json"@ ==> chosen == Ok::<ExportFormat, ApiError>(ExportFormat::Json),
        format@ != "csv"@ && format@ != "json"@ ==> (chosen matches Err(ApiError::InvalidInput(m))
            && m@ == "format must be csv or json"@),
{
    proof {
        reveal_strlit("csv");
        reveal_strlit("json");
        assert("csv"@.len() != "json"@.len());
    }
    let csv = String::from_str("csv");
    let json = String::from_str("json");
    if *format == csv {
        Ok(ExportFormat::Csv)
    } else if *format == json {
        Ok(ExportFormat::Json)
    } else {
        Err(invalid_input("format must be csv or json"))
    }
}

/// The requesting user named by the `X-User-Id` header: none when the
/// header is absent, does not read as text, or is empty.
pub fn requesting_user(header: Option<&[u8]>) -> (user: Option<String>)
    ensures
        user is Some <==> (header matches Some(v) && is_header_text(v@) && v@.len() > 0),
        user matches Some(u) ==> (header matches Some(v) && u@ == ascii_chars(v@)),
{
    match header {
        Some(value) => {
            if value.len() == 0 {
                None
            } else {
                header_text(value)
            }
        },
        None => None,
    }
}

/// The export plan from an already parsed request: the format must be `csv`
/// or `json`; the bounds and the requesting user are carried as given.
pub fn plan_export_with(
    format: &String,
    from: Option<UtcTimestamp>,
    to: Option<UtcTimestamp>,
    user_id: Option<String>,
) -> (plan: Result<ExportPlan, ApiError>)
    ensures
        match export_format_spec(format@) {
            Some(f) => plan matches Ok(p) && p.format == f && p.from == from && p.to == to && p.user_id
                == user_id,
            None => plan matches Err(ApiError::InvalidInput(m)) && m@ == "format must be csv or json"@,
        },
        plan is Ok <==> (format@ == "csv"@ || format@ == "json"@),
        plan matches Ok(p) ==> ((p.format == ExportFormat::Csv) <==> format@ == "csv"@),
        plan matches Ok(p) ==> ((p.format == ExportFormat::Json) <==> format@ == "json"@),
{
    proof {
        law_export_format_names_exactly(format@);
    }
    match export_format(format) {
        Ok(f) => Ok(ExportPlan { format: f, from, to, user_id }),
        Err(e) => Err(e),
    }
}

/// The format named by `text`, if it names one.
pub open spec fn export_format_spec(text: Seq<char>) -> Option<ExportFormat> {
    if text == "csv"@ {
        Some(ExportFormat::Csv)
    } else if text == "json"@ {
        Some(ExportFormat::Json)
    } else {
        None
    }
}

/// The export plan of a request: its format, its bounds as RFC 3339
/// instants in UTC (a bound that does not parse is dropped), and the
/// requesting user from the `X-User-Id` header.
pub fn plan_export(query: &ExportQuery, user_header: Option<&[u8]>) -> (plan: Result<ExportPlan, ApiError>)
    ensures
        match export_format_spec(query.format@) {
            Some(f) => plan matches Ok(p) && p.format == f && p.from == match query.from {
                Some(t) => rfc3339_utc(t@),
                None => None,
            } && p.to == match query.to {
                Some(t) => rfc3339_utc(t@),
                None => None,
            } && (p.user_id is Some <==> (user_header matches Some(v) && is_header_text(v@) && v@.len()
                > 0)) && (p.user_id matches Some(u) ==> (user_header matches Some(v) && u@ == ascii_chars(
                v@,
            ))),
            None => plan matches Err(ApiError::InvalidInput(m)) && m@ == "format must be csv or json"@,
        },
        plan is Ok <==> (query.format@ == "csv"@ || query.format@ == "json"@),
        plan matches Ok(p) ==> ((p.format == ExportFormat::Csv) <==> query.format@ == "csv"@),
{
    let user_id = requesting_user(user_header);
    let from = export_bound(&query.from);
    let to = export_bound(&query.to);
    plan_export_with(&query.format, from, to, user_id)
}

/// `attachment; filename="vault-<id>.<format>"`: the download name of an
/// export of vault `vault_id`.
pub fn export_disposition(vault_id: &str, format: ExportFormat) -> (header: String)
    ensures
        header@ == "attachment; filename=\"vault-"@ + vault_id@ + "."@ + format.spec_name() + "\""@,
{
    let mut header = String::from_str("attachment; filename=\"vault-");
    header.append(vault_id);
    header.append(".");
    let name = format.name();
    header.append(name.as_str());
    header.append("\"");
    header
}

/// Only the exact texts `csv` and `json` name an export format, each its
/// own: any other text, whatever its case, names none.
pub proof fn law_export_format_names_exactly(text: Seq<char>)
    ensures
        export_format_spec(text) is Some <==> (text == "csv"@ || text == "json"@),
        export_format_spec(text) == Some(ExportFormat::Csv) <==> text == "csv"@,
        export_format_spec(text) == Some(ExportFormat::Json) <==> text == "json"@,
{
    reveal_strlit("csv");
    reveal_strlit("json");
    assert("csv"@.len() != "json"@.len());
}

/// An export is planned exactly for the formats `csv` and `json`, taken
/// byte for byte; every other text is refused with the same message.
pub proof fn law_plan_refuses_other_formats(format: Seq<char>)
    ensures
        (format != "csv"@ && format != "json"@) ==> export_format_spec(format) is None,
        format == "csv"@ ==> export_format_spec(format) == Some(ExportFormat::Csv),
        format == "json"@ ==> export_format_spec(format) == Some(ExportFormat::Json),
{
    law_export_format_names_exactly(format);
}

} // verus!
