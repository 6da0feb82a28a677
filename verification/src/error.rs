//! Why an operation is given up.

use crate::text::{decimal, push_decimal, push_str, string_of};
use vstd::prelude::*;

verus! {

/// What is wrong with a reply that names no error yet has no usable shape.
#[derive(Clone, Copy, Debug, PartialEq, Eq, Structural)]
pub enum Malformed {
    /// The body of the reply is not JSON.
    NotJson,
    /// `choices` is an empty array.
    EmptyChoices,
    /// The first element of `choices` has no `message`.
    MissingMessage,
    /// `candidates` is an empty array.
    EmptyCandidates,
    /// The first element of `candidates` has no `content`.
    MissingContent,
    /// The reply has neither a `choices` nor a `candidates` array.
    NoEnvelope,
}

/// Why an operation as a whole is given up.
#[derive(Clone, Debug, PartialEq, Eq)]
pub enum ToolError {
    /// An edit was asked for without any image.
    Usage,
    /// The request could not be sent.
    Transport { detail: String },
    /// The endpoint answered with a status outside 200..=299.
    UpstreamHttp { status: u16, body: String },
    /// The endpoint answered with an `error` member.
    Upstream { message: String },
    /// The endpoint answered with a body of no known shape.
    MalformedResponse { reason: Malformed },
}

/// Mathematical value of a [`ToolError`].
pub enum ToolErrorView {
    Usage,
    Transport { detail: Seq<char> },
    UpstreamHttp { status: u16, body: Seq<char> },
    Upstream { message: Seq<char> },
    MalformedResponse { reason: Malformed },
}

impl View for ToolError {
    type V = ToolErrorView;

    open spec fn view(&self) -> ToolErrorView {
        match self {
            ToolError::Usage => ToolErrorView::Usage,
            ToolError::Transport { detail } => ToolErrorView::Transport { detail: detail@ },
            ToolError::UpstreamHttp { status, body } => ToolErrorView::UpstreamHttp {
                status: *status,
                body: body@,
            },
            ToolError::Upstream { message } => ToolErrorView::Upstream { message: message@ },
            ToolError::MalformedResponse { reason } => ToolErrorView::MalformedResponse {
                reason: *reason,
            },
        }
    }
}

/// What a caller is told when an edit names no image.
pub open spec fn usage_text() -> Seq<char> {
    "editing needs at least one image\n\naccepted formats:\n- URL (http:// or https://)\n- base64 data URI (data:image/...)\n- local file path"@
}

/// What a caller is told about a reply of no known shape.
pub open spec fn malformed_text(reason: Malformed) -> Seq<char> {
    match reason {
        Malformed::NotJson => "failed to parse the reply: it is not JSON"@,
        Malformed::EmptyChoices => "the 'choices' array of the reply is empty"@,
        Malformed::MissingMessage => "invalid reply: choices[0].message is missing"@,
        Malformed::EmptyCandidates => "the 'candidates' array of the reply is empty"@,
        Malformed::MissingContent => "invalid reply: candidates[0].content is missing"@,
        Malformed::NoEnvelope => "invalid reply: neither choices nor candidates found"@,
    }
}

/// What a caller is told about an error.
pub open spec fn description(e: ToolErrorView) -> Seq<char> {
    match e {
        ToolErrorView::Usage => usage_text(),
        ToolErrorView::Transport { detail } => "request failed: "@ + detail,
        ToolErrorView::UpstreamHttp { status, body } => "API request failed, status: "@ + decimal(
            status as nat,
        ) + ", error: "@ + body,
        ToolErrorView::Upstream { message } => "API returned an error: "@ + message,
        ToolErrorView::MalformedResponse { reason } => malformed_text(reason),
    }
}

impl ToolError {
    /// A second value of the same error.
    pub fn duplicate(&self) -> (r: ToolError)
        ensures
            r@ == self@,
    {
        match self {
            ToolError::Usage => ToolError::Usage,
            ToolError::Transport { detail } => ToolError::Transport { detail: detail.clone() },
            ToolError::UpstreamHttp { status, body } => ToolError::UpstreamHttp {
                status: *status,
                body: body.clone(),
            },
            ToolError::Upstream { message } => ToolError::Upstream { message: message.clone() },
            ToolError::MalformedResponse { reason } => ToolError::MalformedResponse {
                reason: *reason,
            },
        }
    }

    /// The message that is shown to the caller.
    pub fn describe(&self) -> (r: String)
        ensures
            r@ == description(self@),
    {
        let mut out: Vec<char> = Vec::new();
        match self {
            ToolError::Usage => {
                push_str(
                    &mut out,
                    "editing needs at least one image\n\naccepted formats:\n- URL (http:// or https://)\n- base64 data URI (data:image/...)\n- local file path",
                );
            },
            ToolError::Transport { detail } => {
                push_str(&mut out, "request failed: ");
                push_str(&mut out, detail.as_str());
            },
            ToolError::UpstreamHttp { status, body } => {
                push_str(&mut out, "API request failed, status: ");
                push_decimal(&mut out, *status as u64);
                push_str(&mut out, ", error: ");
                push_str(&mut out, body.as_str());
            },
            ToolError::Upstream { message } => {
                push_str(&mut out, "API returned an error: ");
                push_str(&mut out, message.as_str());
            },
            ToolError::MalformedResponse { reason } => {
                match reason {
                    Malformed::NotJson => push_str(
                        &mut out,
                        "failed to parse the reply: it is not JSON",
                    ),
                    Malformed::EmptyChoices => push_str(
                        &mut out,
                        "the 'choices' array of the reply is empty",
                    ),
                    Malformed::MissingMessage => push_str(
                        &mut out,
                        "invalid reply: choices[0].message is missing",
                    ),
                    Malformed::EmptyCandidates => push_str(
                        &mut out,
                        "the 'candidates' array of the reply is empty",
                    ),
                    Malformed::MissingContent => push_str(
                        &mut out,
                        "invalid reply: candidates[0].content is missing",
                    ),
                    Malformed::NoEnvelope => push_str(
                        &mut out,
                        "invalid reply: neither choices nor candidates found",
                    ),
                }
            },
        }
        assert(out@ =~= description(self@));
        string_of(&out)
    }
}

} // verus!
