use reflect_tui::server_requests::{
    handle_server_request, on_guardian_review_notification, AutoReviewDecisionSource,
    GuardianApprovalReview, GuardianApprovalReviewStatus, GuardianAssessmentDecisionSource,
    GuardianAssessmentStatus, GuardianRiskLevel, GuardianUserAuthorization, ReviewRiskLevel,
    ReviewUserAuthorization, ServerRequestKind, ServerRequestRoute,
};

#[test]
fn server_requests_open_their_flows() {
    assert_eq!(
        handle_server_request(ServerRequestKind::CommandExecutionRequestApproval, Ok(()), false),
        ServerRequestRoute::ExecApproval
    );
    assert_eq!(
        handle_server_request(ServerRequestKind::FileChangeRequestApproval, Ok(()), true),
        ServerRequestRoute::PatchApproval
    );
    assert_eq!(
        handle_server_request(ServerRequestKind::McpServerElicitationRequest, Ok(()), false),
        ServerRequestRoute::Elicitation
    );
    assert_eq!(
        handle_server_request(ServerRequestKind::PermissionsRequestApproval, Ok(()), false),
        ServerRequestRoute::RequestPermissions
    );
    assert_eq!(
        handle_server_request(ServerRequestKind::ToolRequestUserInput, Ok(()), false),
        ServerRequestRoute::RequestUserInput
    );
}

#[test]
fn failed_permission_conversion_becomes_an_error() {
    assert_eq!(
        handle_server_request(
            ServerRequestKind::PermissionsRequestApproval,
            Err("permission conversion failed".to_string()),
            false
        ),
        ServerRequestRoute::Error(
            "failed to localize requested filesystem paths: permission conversion failed".to_string()
        )
    );
}

#[test]
fn unsupported_requests_show_stub_unless_replayed() {
    for kind in [
        ServerRequestKind::DynamicToolCall,
        ServerRequestKind::AttestationGenerate,
        ServerRequestKind::CurrentTimeRead,
        ServerRequestKind::ChatgptAuthTokensRefresh,
        ServerRequestKind::ApplyPatchApproval,
        ServerRequestKind::ExecCommandApproval,
    ] {
        assert_eq!(
            handle_server_request(kind, Ok(()), false),
            ServerRequestRoute::Error("Not available in TUI yet.".to_string())
        );
        assert_eq!(handle_server_request(kind, Ok(()), true), ServerRequestRoute::Ignore);
    }
}

#[test]
fn guardian_review_becomes_an_assessment() {
    let review = GuardianApprovalReview {
        status: GuardianApprovalReviewStatus::Denied,
        risk_level: Some(ReviewRiskLevel::Critical),
        user_authorization: Some(ReviewUserAuthorization::Medium),
        rationale: Some("writes outside the workspace".to_string()),
    };
    let ev = on_guardian_review_notification(
        "g1".to_string(),
        "t1".to_string(),
        100,
        review,
        Some((250, AutoReviewDecisionSource::Agent)),
        Ok(7u8),
    )
    .expect("assessment");
    assert_eq!(ev.id, "g1");
    assert_eq!(ev.turn_id, "t1");
    assert!(ev.target_item_id.is_none());
    assert_eq!(ev.started_at_ms, 100);
    assert_eq!(ev.completed_at_ms, Some(250));
    assert_eq!(ev.status, GuardianAssessmentStatus::Denied);
    assert_eq!(ev.risk_level, Some(GuardianRiskLevel::Critical));
    assert_eq!(ev.user_authorization, Some(GuardianUserAuthorization::Medium));
    assert_eq!(ev.rationale.as_deref(), Some("writes outside the workspace"));
    assert_eq!(ev.decision_source, Some(GuardianAssessmentDecisionSource::Agent));
    assert_eq!(ev.action, 7);
}

#[test]
fn guardian_review_in_progress_has_no_completion() {
    let review = GuardianApprovalReview {
        status: GuardianApprovalReviewStatus::InProgress,
        risk_level: None,
        user_authorization: None,
        rationale: None,
    };
    let ev = on_guardian_review_notification("g".to_string(), "t".to_string(), 1, review, None, Ok(()))
        .expect("assessment");
    assert_eq!(ev.status, GuardianAssessmentStatus::InProgress);
    assert!(ev.completed_at_ms.is_none());
    assert!(ev.decision_source.is_none());
    assert!(ev.risk_level.is_none());
    assert!(ev.user_authorization.is_none());
}

#[test]
fn guardian_review_with_unlocalized_paths_is_an_error() {
    let review = GuardianApprovalReview {
        status: GuardianApprovalReviewStatus::Approved,
        risk_level: None,
        user_authorization: None,
        rationale: None,
    };
    let r = on_guardian_review_notification::<u8>(
        "g".to_string(),
        "t".to_string(),
        1,
        review,
        None,
        Err("bad path".to_string()),
    );
    assert_eq!(r.err().as_deref(), Some("failed to localize guardian filesystem paths: bad path"));
}
