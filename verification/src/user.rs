//! The caller identity attached to naming requests, and the registration
//! reply it comes from.
//!
//! Timestamps are carried as Unix epoch seconds; the surrounding
//! application converts to and from its calendar types at the boundary.

use vstd::prelude::*;

verus! {

/// Subscription tier of the device's owner.
#[derive(Clone, Copy, Debug, PartialEq, Eq, Structural)]
pub enum Tier {
    Free,
    Pro,
}

/// Billing state of a subscription.
#[derive(Clone, Copy, Debug, PartialEq, Eq, Structural)]
pub enum SubscriptionStatus {
    Active,
    Incomplete,
    Canceled,
    PastDue,
    Trialing,
}

/// Per-process identity and account state of this installation.  Only
/// `device_id` and `app_version` travel with naming requests; the rest is
/// read-only account bookkeeping.
#[derive(Clone, Debug)]
pub struct UserDevice {
    pub device_id: String,
    pub system: String,
    pub app_version: String,
    pub tier: Tier,
    pub max_quota: u32,
    pub quota_used: u32,
    pub created_at: i64,
    pub updated_at: Option<i64>,
    pub subscribed_at: Option<i64>,
    pub email: Option<String>,
    pub stripe_customer_id: Option<String>,
    pub cancel_at_period_end: Option<bool>,
    pub current_period_end: Option<i64>,
    pub subscription_status: Option<SubscriptionStatus>,
}

/// Payload of a successful registration reply.
#[derive(Clone, Debug)]
pub struct ApiResponseData {
    pub user_device: UserDevice,
}

/// Envelope of the registration reply.
#[derive(Clone, Debug)]
pub struct ApiResponse {
    pub success: bool,
    pub message: String,
    pub data: ApiResponseData,
}

/// Accepts or refuses a parsed registration reply: the device is taken
/// exactly when the service reported success.
pub fn accept_registration(resp: ApiResponse) -> (r: Option<UserDevice>)
    ensures
        resp.success ==> (r matches Some(d) && d == resp.data.user_device),
        !resp.success ==> r is None,
{
    if resp.success {
        Some(resp.data.user_device)
    } else {
        None
    }
}

}
