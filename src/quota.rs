//! The rolling request budget of an organization.
use vstd::prelude::*;

use crate::model::Organization;

verus! {

/// Length of a quota window: thirty days, in seconds.
pub const QUOTA_WINDOW_SECS: i64 = 2592000;

/// What the quota guard decided for one occurrence, and the budget state to
/// store afterwards.
pub struct QuotaCheck {
    pub accepted: bool,
    /// The organization has just reached nine tenths of its limit.
    pub alert: bool,
    pub requests_count: u32,
    pub requests_count_start: i64,
}

/// The window has run for more than thirty days at `now`.
pub open spec fn window_expired(start: i64, now: i64) -> bool {
    now - start > QUOTA_WINDOW_SECS
}

/// The count at the start of the check, after a reset of an expired window.
pub open spec fn effective_count(count: u32, start: i64, now: i64) -> u32 {
    if window_expired(start, now) { 0 } else { count }
}

pub open spec fn effective_start(start: i64, now: i64) -> i64 {
    if window_expired(start, now) { now } else { start }
}

/// Nine tenths of a limit, rounded down.
pub open spec fn alert_level(limit: u32) -> int {
    limit * 9 / 10
}

/// The decision of the quota guard, in full.
pub open spec fn quota_decision(limit: Option<u32>, count: u32, start: i64, now: i64) -> QuotaCheck {
    match limit {
        None => QuotaCheck {
            accepted: true,
            alert: false,
            requests_count: count,
            requests_count_start: start,
        },
        Some(l) => {
            let c = effective_count(count, start, now);
            let s = effective_start(start, now);
            if c >= l {
                QuotaCheck { accepted: false, alert: false, requests_count: c, requests_count_start: s }
            } else {
                QuotaCheck {
                    accepted: true,
                    alert: c == alert_level(l),
                    requests_count: (c + 1) as u32,
                    requests_count_start: s,
                }
            }
        },
    }
}

/// Checks one occurrence against the organization's budget at `now`.
pub fn check_quota(org: &Organization, now: i64) -> (r: QuotaCheck)
    ensures
        r == quota_decision(org.requests_limit, org.requests_count, org.requests_count_start, now),
{
    match org.requests_limit {
        None => QuotaCheck {
            accepted: true,
            alert: false,
            requests_count: org.requests_count,
            requests_count_start: org.requests_count_start,
        },
        Some(limit) => {
            let elapsed: i128 = now as i128 - org.requests_count_start as i128;
            let expired = elapsed > QUOTA_WINDOW_SECS as i128;
            let count = if expired { 0 } else { org.requests_count };
            let start = if expired { now } else { org.requests_count_start };
            if count >= limit {
                QuotaCheck { accepted: false, alert: false, requests_count: count, requests_count_start: start }
            } else {
                let level = (limit as u64 * 9 / 10) as u32;
                QuotaCheck {
                    accepted: true,
                    alert: count == level,
                    requests_count: count + 1,
                    requests_count_start: start,
                }
            }
        },
    }
}

/// Stores the budget state that a check decided.
pub fn apply_quota(org: &mut Organization, check: &QuotaCheck)
    ensures
        final(org).requests_count == check.requests_count,
        final(org).requests_count_start == check.requests_count_start,
        final(org).organization_id == old(org).organization_id,
        final(org).name == old(org).name,
        final(org).is_enabled == old(org).is_enabled,
        final(org).requests_limit == old(org).requests_limit,
        final(org).requests_alert_threshold == old(org).requests_alert_threshold,
{
    org.requests_count = check.requests_count;
    org.requests_count_start = check.requests_count_start;
}

} // verus!
