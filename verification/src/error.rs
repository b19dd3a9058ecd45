//! The errors of the command line client.
use vstd::prelude::*;
use std::time::Duration;
use crate::json::{members, object, pair_views, put, string, Json, JsonValue};
use crate::text::{append, copy, decimal, u64_to_decimal};

verus! {

/// What can go wrong when talking to the service.
pub enum CapxError {
    Auth { message: String },
    Api { status: u16, message: String, endpoint: String },
    NotFound { id: String },
    RateLimited { retry_after: Option<Duration> },
    Parse { context: String },
    Network { source: String },
}

/// The debug text of a duration, as `<Duration as Debug>::fmt` writes it (such as `5s` or
/// `1.5ms`): a function of the duration's value alone.
pub uninterp spec fn duration_debug(d: Duration) -> Seq<char>;

/// Writes a duration in its debug form (`format!("{:?}", d)`). Verus sees no seconds or
/// nanoseconds in a `Duration`, so the text is named over the duration itself.
#[verifier::external_body]
fn duration_text(d: &Duration) -> (r: String)
    ensures
        r@ == duration_debug(*d),
{
    format!("{d:?}")
}

impl CapxError {
    /// The kind of the error, as one word.
    pub open spec fn spec_error_type(&self) -> Seq<char> {
        match self {
            CapxError::Auth { .. } => "auth"@,
            CapxError::Api { .. } => "api"@,
            CapxError::NotFound { .. } => "not_found"@,
            CapxError::RateLimited { .. } => "rate_limited"@,
            CapxError::Parse { .. } => "parse"@,
            CapxError::Network { .. } => "network"@,
        }
    }

    pub fn error_type(&self) -> (r: &'static str)
        ensures
            r@ == self.spec_error_type(),
    {
        match self {
            CapxError::Auth { .. } => "auth",
            CapxError::Api { .. } => "api",
            CapxError::NotFound { .. } => "not_found",
            CapxError::RateLimited { .. } => "rate_limited",
            CapxError::Parse { .. } => "parse",
            CapxError::Network { .. } => "network",
        }
    }

    /// The message of the error.
    pub open spec fn spec_message(&self) -> Seq<char> {
        match self {
            CapxError::Auth { message } => "Authentication failed: "@ + message@,
            CapxError::Api { status, message, endpoint } => "API error "@ + decimal(*status as nat)
                + " on "@ + endpoint@ + ": "@ + message@,
            CapxError::NotFound { id } => "Not found: "@ + id@,
            CapxError::RateLimited { retry_after } => match retry_after {
                Some(d) => "Rate limited. Retry after "@ + duration_debug(*d),
                None => "Rate limited. Please try again later."@,
            },
            CapxError::Parse { context } => "Parse error: "@ + context@,
            CapxError::Network { source } => "Network error: "@ + source@,
        }
    }

    /// The text the error is shown as.
    pub fn to_string(&self) -> (r: String)
        ensures
            r@ == self.spec_message(),
    {
        match self {
            CapxError::Auth { message } => {
                let mut r = copy("Authentication failed: ");
                append(&mut r, message.as_str());
                r
            },
            CapxError::Api { status, message, endpoint } => {
                let mut r = copy("API error ");
                append(&mut r, u64_to_decimal(*status as u64).as_str());
                append(&mut r, " on ");
                append(&mut r, endpoint.as_str());
                append(&mut r, ": ");
                append(&mut r, message.as_str());
                r
            },
            CapxError::NotFound { id } => {
                let mut r = copy("Not found: ");
                append(&mut r, id.as_str());
                r
            },
            CapxError::RateLimited { retry_after } => match retry_after {
                Some(d) => {
                    let mut r = copy("Rate limited. Retry after ");
                    let t = duration_text(d);
                    append(&mut r, t.as_str());
                    r
                },
                None => copy("Rate limited. Please try again later."),
            },
            CapxError::Parse { context } => {
                let mut r = copy("Parse error: ");
                append(&mut r, context.as_str());
                r
            },
            CapxError::Network { source } => {
                let mut r = copy("Network error: ");
                append(&mut r, source.as_str());
                r
            },
        }
    }

    /// The error as a JSON object: `{"error": {"type": ..., "message": ...}}`.
    pub fn to_json(&self) -> (r: JsonValue)
        ensures
            r@ == Json::Object(
                seq![
                    ("error"@, Json::Object(
                        seq![
                            ("type"@, Json::Str(self.spec_error_type())),
                            ("message"@, Json::Str(self.spec_message())),
                        ],
                    )),
                ],
            ),
    {
        let msg = self.to_string();
        let ghost mv = msg@;
        let mut inner = members();
        put(&mut inner, "type", string(self.error_type()));
        put(&mut inner, "message", JsonValue::Str(msg));
        let io = object(inner);
        let mut outer = members();
        put(&mut outer, "error", io);
        let r = object(outer);
        assert(pair_views(inner@) =~= seq![("type"@, Json::Str(self.spec_error_type())), ("message"@, Json::Str(mv))]);
        assert(pair_views(outer@) =~= seq![("error"@, Json::Object(seq![("type"@, Json::Str(self.spec_error_type())), ("message"@, Json::Str(mv))]))]);
        r
    }
}

} // verus!
