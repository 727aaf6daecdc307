//! Permission requests.

use agentcord::discord::permission::{
    answer, approve_all, ask, cancelled, permission_components, timed_out, truncate, Answer, Ask,
    ButtonStyle, PermissionOption, PermissionOptionKind, RequestPermissionOutcome,
    RequestPermissionRequest,
};
use agentcord::ids::UserId;

fn option(id: &str, name: &str, kind: PermissionOptionKind) -> PermissionOption {
    PermissionOption {
        option_id: id.to_owned(),
        name: name.to_owned(),
        kind,
    }
}

/// Builds a permission request for response-policy tests.
fn request(options: Vec<PermissionOption>) -> RequestPermissionRequest {
    RequestPermissionRequest {
        session_id: "session".to_owned(),
        title: None,
        options,
    }
}

/// Verifies approve-all prefers a persistent allow option.
#[test]
fn approve_all_prefers_allow_always() {
    let response = approve_all(&request(vec![
        option("once", "allow once", PermissionOptionKind::AllowOnce),
        option("always", "allow always", PermissionOptionKind::AllowAlways),
    ]));
    let RequestPermissionOutcome::Selected { option_id } = response.outcome else {
        panic!("approve-all should select an allow option");
    };
    assert_eq!(option_id, "always");
}

/// Verifies approve-all cancels when no allow option exists.
#[test]
fn approve_all_cancels_without_allow_option() {
    let response = approve_all(&request(vec![option(
        "reject",
        "reject",
        PermissionOptionKind::RejectOnce,
    )]));
    assert_eq!(response, cancelled());
}

/// Verifies allow and reject choices become separate action rows.
#[test]
fn permission_components_group_allow_and_reject_buttons() {
    let components = permission_components(&request(vec![
        option("reject", "REJECT", PermissionOptionKind::RejectOnce),
        option("allow", "ALLOW", PermissionOptionKind::AllowOnce),
    ]));
    assert_eq!(components.len(), 2);
    assert_eq!(components[0][0].style, ButtonStyle::Success);
    assert_eq!(components[0][0].custom_id, "agentcord:permission:1");
    assert_eq!(components[0][0].label, "allow");
    assert_eq!(components[1][0].style, ButtonStyle::Danger);
    assert_eq!(components[1][0].custom_id, "agentcord:permission:0");
    assert_eq!(components[1][0].label, "reject");
}

/// Verifies button labels are truncated at the Discord limit.
#[test]
fn truncate_preserves_unicode_boundaries() {
    assert_eq!(truncate("😀😀😀", 2), "😀…");
}

#[test]
fn a_request_without_options_is_refused() {
    assert!(matches!(ask(&request(vec![])), Ask::Refuse(_)));
    let one = request(vec![option("a", "A", PermissionOptionKind::AllowOnce)]);
    assert!(matches!(ask(&one), Ask::Present { .. }));
}

#[test]
fn only_the_allowed_user_answers() {
    let asked = request(vec![option("a", "A", PermissionOptionKind::AllowOnce)]);
    let pressed = "agentcord:permission:0";
    assert!(matches!(
        answer(&asked, UserId(1), UserId(2), pressed),
        Answer::Unauthorized
    ));
    assert!(matches!(
        answer(&asked, UserId(2), UserId(2), "agentcord:permission:7"),
        Answer::Ignored
    ));
    let Answer::Answered { response, .. } = answer(&asked, UserId(2), UserId(2), pressed) else {
        panic!("the allowed user answers");
    };
    assert_eq!(
        response.outcome,
        RequestPermissionOutcome::Selected {
            option_id: "a".to_owned()
        }
    );
    assert_eq!(timed_out().1, cancelled());
}
