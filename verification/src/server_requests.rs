//! Requests and notifications from the app server, as the chat widget takes
//! them: which flow a server request opens, and the guardian assessment a
//! review notification becomes.

use vstd::prelude::*;
use crate::text::push_str_chars;

verus! {

/// The kinds of request the app server sends.
#[derive(Clone, Copy, Debug, PartialEq, Eq, Structural)]
pub enum ServerRequestKind {
    CommandExecutionRequestApproval,
    FileChangeRequestApproval,
    McpServerElicitationRequest,
    PermissionsRequestApproval,
    ToolRequestUserInput,
    DynamicToolCall,
    AttestationGenerate,
    CurrentTimeRead,
    ChatgptAuthTokensRefresh,
    ApplyPatchApproval,
    ExecCommandApproval,
}

/// What the widget does with a server request.
#[derive(Debug, PartialEq, Eq)]
pub enum ServerRequestRoute {
    ExecApproval,
    PatchApproval,
    Elicitation,
    RequestPermissions,
    RequestUserInput,
    /// Show this error message.
    Error(String),
    Ignore,
}

pub open spec fn stub_text() -> Seq<char> {
    "Not available in TUI yet."@
}

pub open spec fn permissions_error_prefix() -> Seq<char> {
    "failed to localize requested filesystem paths: "@
}

pub open spec fn guardian_error_prefix() -> Seq<char> {
    "failed to localize guardian filesystem paths: "@
}

/// A route, with its error text as characters.
pub enum RouteView {
    ExecApproval,
    PatchApproval,
    Elicitation,
    RequestPermissions,
    RequestUserInput,
    Error(Seq<char>),
    Ignore,
}

/// The route of a request.
pub open spec fn request_route(kind: ServerRequestKind, permissions: Result<(), Seq<char>>, replayed: bool) -> RouteView {
    match kind {
        ServerRequestKind::CommandExecutionRequestApproval => RouteView::ExecApproval,
        ServerRequestKind::FileChangeRequestApproval => RouteView::PatchApproval,
        ServerRequestKind::McpServerElicitationRequest => RouteView::Elicitation,
        ServerRequestKind::PermissionsRequestApproval => match permissions {
            Ok(()) => RouteView::RequestPermissions,
            Err(e) => RouteView::Error(permissions_error_prefix() + e),
        },
        ServerRequestKind::ToolRequestUserInput => RouteView::RequestUserInput,
        _ => if replayed { RouteView::Ignore } else { RouteView::Error(stub_text()) },
    }
}

impl ServerRequestRoute {
    /// The route with its error text as characters.
    pub open spec fn route_view(&self) -> RouteView {
        match self {
            ServerRequestRoute::ExecApproval => RouteView::ExecApproval,
            ServerRequestRoute::PatchApproval => RouteView::PatchApproval,
            ServerRequestRoute::Elicitation => RouteView::Elicitation,
            ServerRequestRoute::RequestPermissions => RouteView::RequestPermissions,
            ServerRequestRoute::RequestUserInput => RouteView::RequestUserInput,
            ServerRequestRoute::Error(s) => RouteView::Error(s@),
            ServerRequestRoute::Ignore => RouteView::Ignore,
        }
    }
}

/// The error message for a value whose filesystem paths could not be
/// localized.
fn prefixed(prefix: &str, err: &str) -> (s: String)
    ensures
        s@ == prefix@ + err@,
{
    let mut s = String::from_str(prefix);
    push_str_chars(&mut s, err);
    s
}

/// Routes a server request. `permissions` is how converting a permissions
/// request went (the conversion's error text where it failed); requests the
/// TUI does not support show an error, except when replayed.
pub fn handle_server_request(kind: ServerRequestKind, permissions: Result<(), String>, replayed: bool) -> (r: ServerRequestRoute)
    ensures
        r.route_view() == request_route(
            kind,
            match permissions {
                Ok(()) => Ok(()),
                Err(e) => Err(e@),
            },
            replayed,
        ),
{
    proof {
        reveal_strlit("Not available in TUI yet.");
        reveal_strlit("failed to localize requested filesystem paths: ");
    }
    match kind {
        ServerRequestKind::CommandExecutionRequestApproval => ServerRequestRoute::ExecApproval,
        ServerRequestKind::FileChangeRequestApproval => ServerRequestRoute::PatchApproval,
        ServerRequestKind::McpServerElicitationRequest => ServerRequestRoute::Elicitation,
        ServerRequestKind::PermissionsRequestApproval => match permissions {
            Ok(()) => ServerRequestRoute::RequestPermissions,
            Err(e) => ServerRequestRoute::Error(prefixed("failed to localize requested filesystem paths: ", e.as_str())),
        },
        ServerRequestKind::ToolRequestUserInput => ServerRequestRoute::RequestUserInput,
        _ => if replayed {
            ServerRequestRoute::Ignore
        } else {
            ServerRequestRoute::Error(String::from_str("Not available in TUI yet."))
        },
    }
}

/// The status of a guardian review, as the server reports it.
#[derive(Clone, Copy, Debug, PartialEq, Eq, Structural)]
pub enum GuardianApprovalReviewStatus {
    InProgress,
    Approved,
    Denied,
    TimedOut,
    Aborted,
}

/// The status of a guardian assessment, as the widget shows it.
#[derive(Clone, Copy, Debug, PartialEq, Eq, Structural)]
pub enum GuardianAssessmentStatus {
    InProgress,
    Approved,
    Denied,
    TimedOut,
    Aborted,
}

/// A risk level, as the server reports it.
#[derive(Clone, Copy, Debug, PartialEq, Eq, Structural)]
pub enum ReviewRiskLevel {
    Low,
    Medium,
    High,
    Critical,
}

/// A risk level, as the widget shows it.
#[derive(Clone, Copy, Debug, PartialEq, Eq, Structural)]
pub enum GuardianRiskLevel {
    Low,
    Medium,
    High,
    Critical,
}

/// The user's authorization, as the server reports it.
#[derive(Clone, Copy, Debug, PartialEq, Eq, Structural)]
pub enum ReviewUserAuthorization {
    Unknown,
    Low,
    Medium,
    High,
}

/// The user's authorization, as the widget shows it.
#[derive(Clone, Copy, Debug, PartialEq, Eq, Structural)]
pub enum GuardianUserAuthorization {
    Unknown,
    Low,
    Medium,
    High,
}

/// Who decided an automatic review, as the server reports it.
#[derive(Clone, Copy, Debug, PartialEq, Eq, Structural)]
pub enum AutoReviewDecisionSource {
    Agent,
}

/// Who decided an assessment, as the widget shows it.
#[derive(Clone, Copy, Debug, PartialEq, Eq, Structural)]
pub enum GuardianAssessmentDecisionSource {
    Agent,
}

/// A guardian review from the server.
#[derive(Debug)]
pub struct GuardianApprovalReview {
    pub status: GuardianApprovalReviewStatus,
    pub risk_level: Option<ReviewRiskLevel>,
    pub user_authorization: Option<ReviewUserAuthorization>,
    pub rationale: Option<String>,
}

/// A guardian assessment for the widget; `A` is the reviewed action with
/// its paths localized.
#[derive(Debug)]
pub struct GuardianAssessmentEvent<A> {
    pub id: String,
    pub target_item_id: Option<String>,
    pub turn_id: String,
    pub started_at_ms: i64,
    pub completed_at_ms: Option<i64>,
    pub status: GuardianAssessmentStatus,
    pub risk_level: Option<GuardianRiskLevel>,
    pub user_authorization: Option<GuardianUserAuthorization>,
    pub rationale: Option<String>,
    pub decision_source: Option<GuardianAssessmentDecisionSource>,
    pub action: A,
}

pub open spec fn status_of(s: GuardianApprovalReviewStatus) -> GuardianAssessmentStatus {
    match s {
        GuardianApprovalReviewStatus::InProgress => GuardianAssessmentStatus::InProgress,
        GuardianApprovalReviewStatus::Approved => GuardianAssessmentStatus::Approved,
        GuardianApprovalReviewStatus::Denied => GuardianAssessmentStatus::Denied,
        GuardianApprovalReviewStatus::TimedOut => GuardianAssessmentStatus::TimedOut,
        GuardianApprovalReviewStatus::Aborted => GuardianAssessmentStatus::Aborted,
    }
}

pub open spec fn risk_of(r: ReviewRiskLevel) -> GuardianRiskLevel {
    match r {
        ReviewRiskLevel::Low => GuardianRiskLevel::Low,
        ReviewRiskLevel::Medium => GuardianRiskLevel::Medium,
        ReviewRiskLevel::High => GuardianRiskLevel::High,
        ReviewRiskLevel::Critical => GuardianRiskLevel::Critical,
    }
}

pub open spec fn authorization_of(a: ReviewUserAuthorization) -> GuardianUserAuthorization {
    match a {
        ReviewUserAuthorization::Unknown => GuardianUserAuthorization::Unknown,
        ReviewUserAuthorization::Low => GuardianUserAuthorization::Low,
        ReviewUserAuthorization::Medium => GuardianUserAuthorization::Medium,
        ReviewUserAuthorization::High => GuardianUserAuthorization::High,
    }
}

fn assessment_status(s: GuardianApprovalReviewStatus) -> (r: GuardianAssessmentStatus)
    ensures
        r == status_of(s),
{
    match s {
        GuardianApprovalReviewStatus::InProgress => GuardianAssessmentStatus::InProgress,
        GuardianApprovalReviewStatus::Approved => GuardianAssessmentStatus::Approved,
        GuardianApprovalReviewStatus::Denied => GuardianAssessmentStatus::Denied,
        GuardianApprovalReviewStatus::TimedOut => GuardianAssessmentStatus::TimedOut,
        GuardianApprovalReviewStatus::Aborted => GuardianAssessmentStatus::Aborted,
    }
}

fn assessment_risk(r: Option<ReviewRiskLevel>) -> (g: Option<GuardianRiskLevel>)
    ensures
        g == (match r {
            Some(x) => Some(risk_of(x)),
            None => None,
        }),
{
    match r {
        Some(ReviewRiskLevel::Low) => Some(GuardianRiskLevel::Low),
        Some(ReviewRiskLevel::Medium) => Some(GuardianRiskLevel::Medium),
        Some(ReviewRiskLevel::High) => Some(GuardianRiskLevel::High),
        Some(ReviewRiskLevel::Critical) => Some(GuardianRiskLevel::Critical),
        None => None,
    }
}

fn assessment_authorization(a: Option<ReviewUserAuthorization>) -> (g: Option<GuardianUserAuthorization>)
    ensures
        g == (match a {
            Some(x) => Some(authorization_of(x)),
            None => None,
        }),
{
    match a {
        Some(ReviewUserAuthorization::Unknown) => Some(GuardianUserAuthorization::Unknown),
        Some(ReviewUserAuthorization::Low) => Some(GuardianUserAuthorization::Low),
        Some(ReviewUserAuthorization::Medium) => Some(GuardianUserAuthorization::Medium),
        Some(ReviewUserAuthorization::High) => Some(GuardianUserAuthorization::High),
        None => None,
    }
}

/// The assessment for a guardian review notification. `action` is the
/// reviewed action after localizing its paths, or the error text where that
/// failed; then the notification becomes an error message.
pub fn on_guardian_review_notification<A>(
    id: String,
    turn_id: String,
    started_at_ms: i64,
    review: GuardianApprovalReview,
    completion: Option<(i64, AutoReviewDecisionSource)>,
    action: Result<A, String>,
) -> (r: Result<GuardianAssessmentEvent<A>, String>)
    ensures
        match (action, r) {
            (Err(e), Err(m)) => m@ == guardian_error_prefix() + e@,
            (Ok(a), Ok(ev)) => {
                &&& ev.id == id
                &&& ev.target_item_id is None
                &&& ev.turn_id == turn_id
                &&& ev.started_at_ms == started_at_ms
                &&& ev.completed_at_ms == (match completion {
                    Some((at, _)) => Some(at),
                    None => None,
                })
                &&& ev.status == status_of(review.status)
                &&& ev.risk_level == (match review.risk_level {
                    Some(x) => Some(risk_of(x)),
                    None => None,
                })
                &&& ev.user_authorization == (match review.user_authorization {
                    Some(x) => Some(authorization_of(x)),
                    None => None,
                })
                &&& ev.rationale == review.rationale
                &&& ev.decision_source == (if completion is Some {
                    Some(GuardianAssessmentDecisionSource::Agent)
                } else {
                    None
                })
                &&& ev.action == a
            },
            _ => false,
        },
{
    proof {
        reveal_strlit("failed to localize guardian filesystem paths: ");
    }
    let action = match action {
        Ok(a) => a,
        Err(e) => return Err(prefixed("failed to localize guardian filesystem paths: ", e.as_str())),
    };
    let (completed_at_ms, decision_source) = match completion {
        Some((at, AutoReviewDecisionSource::Agent)) => (Some(at), Some(GuardianAssessmentDecisionSource::Agent)),
        None => (None, None),
    };
    Ok(GuardianAssessmentEvent {
        id,
        target_item_id: None,
        turn_id,
        started_at_ms,
        completed_at_ms,
        status: assessment_status(review.status),
        risk_level: assessment_risk(review.risk_level),
        user_authorization: assessment_authorization(review.user_authorization),
        rationale: review.rationale,
        decision_source,
        action,
    })
}

} // verus!
