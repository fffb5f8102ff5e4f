use screenshot_renamer::user::{accept_registration, ApiResponse, ApiResponseData, Tier, UserDevice};

fn device() -> UserDevice {
    UserDevice {
        device_id: "dev-1".to_string(),
        system: "linux".to_string(),
        app_version: "0.1.0".to_string(),
        tier: Tier::Free,
        max_quota: 50,
        quota_used: 3,
        created_at: 1_700_000_000,
        updated_at: None,
        subscribed_at: None,
        email: None,
        stripe_customer_id: None,
        cancel_at_period_end: None,
        current_period_end: None,
        subscription_status: None,
    }
}

#[test]
fn test_registration_accepted_on_success() {
    let resp = ApiResponse {
        success: true,
        message: "registered".to_string(),
        data: ApiResponseData { user_device: device() },
    };
    let d = accept_registration(resp).expect("device expected");
    assert_eq!(d.device_id, "dev-1");
    assert_eq!(d.tier, Tier::Free);
}

#[test]
fn test_registration_refused_on_failure() {
    let resp = ApiResponse {
        success: false,
        message: "bad payload".to_string(),
        data: ApiResponseData { user_device: device() },
    };
    assert!(accept_registration(resp).is_none());
}
