//! Failure types for the public API.
//!
//! A tool that fails, a call that fails, and a run that cannot be carried out
//! are different events. A tool failure is ordinary conversation — the model
//! reads the message and adapts — so [`ToolFailure`] converts into a
//! [`ToolResult`] and the loop continues. A [`RunFailure`] means the loop
//! cannot proceed.

use vstd::prelude::*;

use crate::duration::Duration;
use crate::message::ToolResult;
use crate::text::{decimal, decimal_text, owned};
use crate::trace::RunTrace;

verus! {

/// Why a call to a model provider failed.
///
/// Callers match on this to decide whether retrying can help. An underlying
/// cause is carried as its rendered message.
#[derive(Debug)]
pub enum ProviderFailure {
    /// The request never reached the provider, or the response never
    /// arrived.
    Transport {
        /// Which provider was being called.
        provider: String,
        /// The underlying cause, rendered.
        detail: String,
    },
    /// The provider answered with an error status.
    Status {
        /// Which provider answered.
        provider: String,
        /// The HTTP status code.
        status: u16,
        /// The provider's error message, passed through unchanged.
        message: String,
        /// How long the provider asked us to wait, from `Retry-After` if
        /// present.
        retry_after: Option<Duration>,
    },
    /// The response arrived but could not be understood.
    Decode {
        /// Which provider answered.
        provider: String,
        /// The underlying cause, rendered.
        detail: String,
    },
    /// Credentials are missing or malformed, detected before any request.
    Configuration(String),
    /// The request broke one of the request invariants, caught before it
    /// reached a provider.
    InvalidRequest(String),
}

/// Whether an HTTP status is worth retrying: 408, 429, or any 5xx.
pub open spec fn retryable_status(status: u16) -> bool {
    status == 408 || status == 429 || (500 <= status && status < 600)
}

/// Which failures are worth retrying is fixed by the failure's kind and
/// status alone: a transport failure, a timeout (408), a rate limit (429)
/// and every server error (any 5xx) are; every other status and every
/// decode, configuration or invalid-request failure is not — and the
/// provider's name, its message and its `Retry-After` never change that.
pub proof fn law_retry_classification(a: ProviderFailure, b: ProviderFailure)
    ensures
        a is Transport ==> a.spec_retryable(),
        (a is Decode || a is Configuration || a is InvalidRequest) ==> !a.spec_retryable(),
        a matches ProviderFailure::Status { status, .. } ==> (a.spec_retryable() <==> (status == 408
            || status == 429 || (500 <= status && status < 600))),
        a matches ProviderFailure::Status { status: s, .. } ==> (b matches ProviderFailure::Status {
            status: t,
            ..
        } ==> (s == t ==> a.spec_retryable() == b.spec_retryable())),
{
}

/// The rendered message of a provider failure.
pub open spec fn provider_failure_text(f: ProviderFailure) -> Seq<char> {
    match f {
        ProviderFailure::Transport { provider, .. } => "transport failure contacting "@
            + provider@,
        ProviderFailure::Status { provider, status, message, .. } => provider@ + " returned HTTP "@
            + decimal(status as nat) + ": "@ + message@,
        ProviderFailure::Decode { provider, .. } => "could not decode "@ + provider@
            + " response"@,
        ProviderFailure::Configuration(text) => text@,
        ProviderFailure::InvalidRequest(rule) => "invalid request: "@ + rule@,
    }
}

impl ProviderFailure {
    /// Whether retrying the identical request could plausibly succeed.
    pub open spec fn spec_retryable(self) -> bool {
        match self {
            ProviderFailure::Transport { .. } => true,
            ProviderFailure::Status { status, .. } => retryable_status(status),
            _ => false,
        }
    }

    /// The wait the provider asked for, if it said.
    pub open spec fn spec_retry_after(self) -> Option<Duration> {
        match self {
            ProviderFailure::Status { retry_after, .. } => retry_after,
            _ => None,
        }
    }

    /// Whether retrying the identical request could plausibly succeed.
    ///
    /// Classification is structural — transport failures, 408, 429, and 5xx
    /// — never read from the message text.
    pub fn is_retryable(&self) -> (b: bool)
        ensures
            b == self.spec_retryable(),
            self is Transport ==> b,
            self matches ProviderFailure::Status { status, .. } ==> (b <==> (*status == 408
                || *status == 429 || (500 <= *status && *status < 600))),
            (self is Decode || self is Configuration || self is InvalidRequest) ==> !b,
    {
        match self {
            ProviderFailure::Transport { .. } => true,
            ProviderFailure::Status { status, .. } => *status == 408 || *status == 429 || (500
                <= *status && *status < 600),
            ProviderFailure::Decode { .. } => false,
            ProviderFailure::Configuration(_) => false,
            ProviderFailure::InvalidRequest(_) => false,
        }
    }

    /// How long the provider asked us to wait, if it said.
    pub fn retry_after(&self) -> (r: Option<Duration>)
        ensures
            r == self.spec_retry_after(),
    {
        match self {
            ProviderFailure::Status { retry_after, .. } => *retry_after,
            _ => None,
        }
    }

    /// This failure's message.
    pub fn describe(&self) -> (r: String)
        ensures
            r@ == provider_failure_text(*self),
    {
        match self {
            ProviderFailure::Transport { provider, .. } => owned("transport failure contacting ").concat(
                provider.as_str(),
            ),
            ProviderFailure::Status { provider, status, message, .. } => {
                let r = provider.clone().concat(" returned HTTP ");
                let r = r.concat(decimal_text(*status as u64).as_str());
                let r = r.concat(": ");
                r.concat(message.as_str())
            },
            ProviderFailure::Decode { provider, .. } => owned("could not decode ").concat(
                provider.as_str(),
            ).concat(" response"),
            ProviderFailure::Configuration(text) => text.clone(),
            ProviderFailure::InvalidRequest(rule) => owned("invalid request: ").concat(
                rule.as_str(),
            ),
        }
    }
}

/// A transport-class failure for `provider`, caused by `detail`.
pub fn transport_failure(provider: &str, detail: &str) -> (f: ProviderFailure)
    ensures
        f matches ProviderFailure::Transport { provider: p, detail: d } && p@ == provider@ && d@
            == detail@,
{
    ProviderFailure::Transport { provider: owned(provider), detail: owned(detail) }
}

/// The failure a model call reports when its timeout elapses.
pub fn timeout_failure(model: &str) -> (f: ProviderFailure)
    ensures
        f matches ProviderFailure::Transport { provider: p, detail: d } && p@ == model@ && d@
            == "model call timed out"@,
{
    transport_failure(model, "model call timed out")
}

/// Why a tool did not produce a useful result.
///
/// Not a loop-ending error: every variant renders to text the model reads
/// and can act on, via [`ToolFailure::into_result`].
#[derive(Debug)]
pub enum ToolFailure {
    /// The model asked for a tool that is not registered.
    Unknown {
        /// The name the model used.
        name: String,
        /// Registered names, so the message can suggest alternatives.
        available: Vec<String>,
    },
    /// The arguments did not match the tool's schema.
    InvalidArguments {
        /// Which tool was called.
        name: String,
        /// What was wrong, phrased as an instruction.
        reason: String,
    },
    /// The tool ran and failed.
    Execution {
        /// Which tool ran.
        name: String,
        /// What went wrong, in terms the model can act on.
        message: String,
    },
}

/// The rendered message of a tool failure.
pub open spec fn tool_failure_text(f: ToolFailure) -> Seq<char> {
    match f {
        ToolFailure::Unknown { name, .. } => "no tool named `"@ + name@ + "`"@,
        ToolFailure::InvalidArguments { name, reason } => "invalid arguments for `"@ + name@
            + "`: "@ + reason@,
        ToolFailure::Execution { name, message } => "`"@ + name@ + "` failed: "@ + message@,
    }
}

impl ToolFailure {
    /// This failure's message, as the model will read it.
    pub fn describe(&self) -> (r: String)
        ensures
            r@ == tool_failure_text(*self),
    {
        match self {
            ToolFailure::Unknown { name, .. } => owned("no tool named `").concat(name.as_str()).concat(
                "`",
            ),
            ToolFailure::InvalidArguments { name, reason } => owned("invalid arguments for `").concat(
                name.as_str(),
            ).concat("`: ").concat(reason.as_str()),
            ToolFailure::Execution { name, message } => owned("`").concat(name.as_str()).concat(
                "` failed: ",
            ).concat(message.as_str()),
        }
    }

    /// Render this failure as the tool result the model will read: flagged
    /// as an error and addressed to `tool_use_id`.
    pub fn into_result(self, tool_use_id: &str) -> (r: ToolResult)
        ensures
            r.tool_use_id@ == tool_use_id@,
            r.content@ == tool_failure_text(self),
            r.is_error,
    {
        let content = self.describe();
        ToolResult { tool_use_id: owned(tool_use_id), content, is_error: true }
    }
}

/// Why arguments that do not match a tool's parameter schema were refused:
/// `detail` is what the parser said.
pub open spec fn mismatch_reason(detail: Seq<char>) -> Seq<char> {
    "arguments do not match this tool's parameter schema ("@ + detail
        + ") — re-read the schema and resend corrected arguments"@
}

/// The failure for arguments the tool `name` could not read into its
/// parameter type, phrased as an instruction the model can act on.
pub fn mismatched_arguments(name: &str, detail: &str) -> (f: ToolFailure)
    ensures
        f matches ToolFailure::InvalidArguments { name: n, reason } && n@ == name@ && reason@
            == mismatch_reason(detail@),
{
    let reason = owned("arguments do not match this tool's parameter schema (").concat(detail).concat(
        ") — re-read the schema and resend corrected arguments",
    );
    ToolFailure::InvalidArguments { name: owned(name), reason }
}

/// Why a run could not be carried out.
///
/// Running out of rounds and stalling are not run failures — they are run
/// endings. Only an invalid conversation or a provider failure means the
/// system itself broke.
#[derive(Debug)]
pub enum RunFailure {
    /// The conversation the run was given broke a rule, caught before any
    /// work began.
    InvalidConversation {
        /// The rule the conversation broke.
        reason: String,
    },
    /// A model call failed in a way retries could not recover from.
    Provider {
        /// The underlying provider failure.
        source: ProviderFailure,
        /// Every round the run completed before the failure.
        trace: Box<RunTrace>,
    },
}

/// The rendered message of a run failure.
pub open spec fn run_failure_text(f: RunFailure) -> Seq<char> {
    match f {
        RunFailure::InvalidConversation { reason } => "invalid conversation: "@ + reason@,
        RunFailure::Provider { .. } => "provider call failed"@,
    }
}

impl RunFailure {
    /// This failure's message.
    pub fn describe(&self) -> (r: String)
        ensures
            r@ == run_failure_text(*self),
    {
        match self {
            RunFailure::InvalidConversation { reason } => owned("invalid conversation: ").concat(
                reason.as_str(),
            ),
            RunFailure::Provider { .. } => owned("provider call failed"),
        }
    }

    /// The provider failure underneath, if this is one.
    pub fn source(&self) -> (r: Option<&ProviderFailure>)
        ensures
            match *self {
                RunFailure::Provider { source, .. } => r == Some(&source),
                RunFailure::InvalidConversation { .. } => r is None,
            },
    {
        match self {
            RunFailure::Provider { source, .. } => Some(source),
            RunFailure::InvalidConversation { .. } => None,
        }
    }
}

/// Two registered tools advertise the same wire name.
#[derive(Debug, PartialEq, Eq)]
pub struct DuplicateToolName {
    /// The name two or more handlers advertised.
    pub name: String,
}

impl DuplicateToolName {
    /// This failure's message.
    pub fn describe(&self) -> (r: String)
        ensures
            r@ == "duplicate tool name `"@ + self.name@ + "`"@,
    {
        owned("duplicate tool name `").concat(self.name.as_str()).concat("`")
    }
}

} // verus!
