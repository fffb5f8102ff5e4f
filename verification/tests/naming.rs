use screenshot_renamer::naming::{
    build_naming_request, classify_naming_response, plan_rename, verdict_base_name, Envelope,
    NamingResponse, NamingVerdict,
};

fn success_response(name: &str) -> NamingResponse {
    NamingResponse::Response {
        status: 200,
        envelope: Some(Envelope {
            success: true,
            message: "ok".to_string(),
            screenshot_name: name.to_string(),
        }),
    }
}

#[test]
fn test_quota_exceeded_is_distinct_and_falls_back() {
    let resp = NamingResponse::Response { status: 429, envelope: None };
    let v = classify_naming_response(&resp);
    assert!(matches!(v, NamingVerdict::QuotaExceeded));
    assert_eq!(verdict_base_name(&v), "screenshot");
}

#[test]
fn test_malformed_success_body_falls_back() {
    let resp = NamingResponse::Response { status: 200, envelope: None };
    let v = classify_naming_response(&resp);
    assert!(matches!(v, NamingVerdict::Fallback));
    assert_eq!(verdict_base_name(&v), "screenshot");
}

#[test]
fn test_transport_failure_falls_back() {
    let v = classify_naming_response(&NamingResponse::TransportFailure);
    assert!(matches!(v, NamingVerdict::Fallback));
}

#[test]
fn test_unexpected_status_falls_back() {
    let resp = NamingResponse::Response { status: 500, envelope: None };
    assert!(matches!(classify_naming_response(&resp), NamingVerdict::Fallback));
    let resp2 = NamingResponse::Response {
        status: 500,
        envelope: Some(Envelope {
            success: true,
            message: "ok".to_string(),
            screenshot_name: "ignored".to_string(),
        }),
    };
    assert!(matches!(classify_naming_response(&resp2), NamingVerdict::Fallback));
}

#[test]
fn test_reported_failure_falls_back() {
    let resp = NamingResponse::Response {
        status: 200,
        envelope: Some(Envelope {
            success: false,
            message: "no quota".to_string(),
            screenshot_name: "beach-sunset".to_string(),
        }),
    };
    assert!(matches!(classify_naming_response(&resp), NamingVerdict::Fallback));
}

#[test]
fn test_successful_name_is_trimmed() {
    let v = classify_naming_response(&success_response("  beach-sunset \n"));
    match v {
        NamingVerdict::Named { name } => assert_eq!(name, "beach-sunset"),
        _ => panic!("expected a named verdict"),
    }
}

#[test]
fn test_successful_name_is_stripped_of_separators() {
    let v = classify_naming_response(&success_response("../etc/passwd"));
    match v {
        NamingVerdict::Named { name } => assert_eq!(name, "..etcpasswd"),
        _ => panic!("expected a named verdict"),
    }
    let v2 = classify_naming_response(&success_response("a\\b/c"));
    match v2 {
        NamingVerdict::Named { name } => assert_eq!(name, "abc"),
        _ => panic!("expected a named verdict"),
    }
}

#[test]
fn test_name_empty_after_sanitizing_falls_back() {
    assert!(matches!(classify_naming_response(&success_response("   ")), NamingVerdict::Fallback));
    assert!(matches!(classify_naming_response(&success_response(" / ")), NamingVerdict::Fallback));
    assert!(matches!(classify_naming_response(&success_response("")), NamingVerdict::Fallback));
}

#[test]
fn test_build_naming_request_exact_body() {
    let body = build_naming_request("QUJD", "dev-1", "1.0.0");
    assert_eq!(
        body,
        "{\"base64Img\":\"data:image/png;base64,QUJD\",\"deviceId\":\"dev-1\",\"appVersion\":\"1.0.0\"}"
    );
}

#[test]
fn test_build_naming_request_escapes_json() {
    let body = build_naming_request("", "de\"v\\1", "1.0\n");
    assert_eq!(
        body,
        "{\"base64Img\":\"data:image/png;base64,\",\"deviceId\":\"de\\\"v\\\\1\",\"appVersion\":\"1.0\\u000a\"}"
    );
}

#[test]
fn test_plan_rename_success() {
    let plan = plan_rename("/dir/Screenshot_2025-06-12.png", &success_response("beach-sunset"));
    assert_eq!(plan.base_name, "beach-sunset");
    assert_eq!(plan.destination, "/dir/beach-sunset.png");
    assert!(matches!(plan.verdict, NamingVerdict::Named { .. }));
}

#[test]
fn test_plan_rename_fallback_still_renames() {
    let plan = plan_rename("/dir/Screenshot_2025-06-12.png", &NamingResponse::TransportFailure);
    assert_eq!(plan.base_name, "screenshot");
    assert_eq!(plan.destination, "/dir/screenshot.png");
}
