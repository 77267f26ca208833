use landscape::ddns::{
    cf_error, classify_provider_error, effective_ddns_ttl, job_has_local_wan_source,
    job_matches_wan_event, normalized_ddns_ttl, retry_delay_secs, runtime_message_for_reason,
    select_primary_family, summarize_job, CfError, DdnsFamilyState, DdnsJobStatus,
    DdnsRuntimeReason, DdnsSource, IpFamily, family_sync_step, job_has_source_for_family,
    profile_lookup_error, ProfileLookup, plan_record_families, record_enabled, DdnsRecordConfig,
};

fn wan(name: &str, family: IpFamily) -> DdnsSource {
    DdnsSource::LocalWan { iface_name: name.to_string(), family }
}

fn fam(status: DdnsJobStatus, reason: DdnsRuntimeReason, retryable: bool) -> DdnsFamilyState {
    DdnsFamilyState { status, reason, retryable }
}

#[test]
fn wan_event_only_matches_same_iface_and_family() {
    let sources = vec![wan("wan0", IpFamily::Ipv4)];
    assert!(job_matches_wan_event(&sources, "wan0", IpFamily::Ipv4));
    assert!(!job_matches_wan_event(&sources, "wan1", IpFamily::Ipv4));
    assert!(!job_matches_wan_event(&sources, "wan0", IpFamily::Ipv6));
}

#[test]
fn custom_job_ttl_overrides_profile_default() {
    assert_eq!(effective_ddns_ttl(Some(120), Some(600)), Some(120));
    assert_eq!(effective_ddns_ttl(Some(120), None), Some(120));
}

#[test]
fn inherited_job_ttl_uses_profile_default() {
    assert_eq!(effective_ddns_ttl(None, Some(600)), Some(600));
    assert_eq!(effective_ddns_ttl(None, None), None);
}

#[test]
fn single_stack_job_summary_ignores_unconfigured_family() {
    let ipv4 = fam(DdnsJobStatus::Idle, DdnsRuntimeReason::NotConfigured, false);
    let ipv6 = fam(DdnsJobStatus::Success, DdnsRuntimeReason::UpToDate, false);
    let summary = summarize_job(&[ipv4, ipv6]);
    assert_eq!(ipv4.reason, DdnsRuntimeReason::NotConfigured);
    assert_eq!(summary.status, DdnsJobStatus::Success);
    assert_eq!(summary.reason, DdnsRuntimeReason::UpToDate);
    assert_eq!(runtime_message_for_reason(summary.reason), "DNS record is already up to date");
}

#[test]
fn primary_family_follows_tiers() {
    let idle_off = fam(DdnsJobStatus::Idle, DdnsRuntimeReason::Disabled, false);
    let idle_wait = fam(DdnsJobStatus::Idle, DdnsRuntimeReason::WaitingWanIp, true);
    let ok = fam(DdnsJobStatus::Success, DdnsRuntimeReason::UpToDate, false);
    let published = fam(DdnsJobStatus::Success, DdnsRuntimeReason::Published, false);
    let syncing = fam(DdnsJobStatus::Syncing, DdnsRuntimeReason::Publishing, false);
    let failed = fam(DdnsJobStatus::Error, DdnsRuntimeReason::Timeout, true);
    assert_eq!(select_primary_family(&[]), None);
    assert_eq!(select_primary_family(&[idle_off, idle_off]), Some(0));
    assert_eq!(select_primary_family(&[idle_off, idle_wait]), Some(1));
    assert_eq!(select_primary_family(&[idle_wait, ok]), Some(1));
    assert_eq!(select_primary_family(&[ok, published]), Some(1));
    assert_eq!(select_primary_family(&[published, syncing]), Some(1));
    assert_eq!(select_primary_family(&[syncing, ok, failed, failed]), Some(2));
    let summary = summarize_job(&[idle_wait, failed, ok]);
    assert_eq!(summary.status, DdnsJobStatus::Error);
    assert_eq!(summary.reason, DdnsRuntimeReason::Timeout);
    assert!(summary.retryable);
    let empty = summarize_job(&[]);
    assert_eq!(empty.status, DdnsJobStatus::Idle);
    assert_eq!(empty.reason, DdnsRuntimeReason::Pending);
    assert!(!empty.retryable);
}

#[test]
fn local_wan_source_by_family() {
    let sources = vec![DdnsSource::EnrolledDevice { family: IpFamily::Ipv4 }, wan("wan0", IpFamily::Ipv6)];
    assert!(!job_has_local_wan_source(&sources, IpFamily::Ipv4));
    assert!(job_has_local_wan_source(&sources, IpFamily::Ipv6));
    assert!(!job_matches_wan_event(&sources, "wan0", IpFamily::Ipv4));
}

#[test]
fn provider_errors_are_classified() {
    assert_eq!(
        classify_provider_error("Manual DNS provider does not support DDNS"),
        (DdnsRuntimeReason::ProviderUnsupported, false)
    );
    assert_eq!(classify_provider_error("HTTP 403 Forbidden"), (DdnsRuntimeReason::AuthFailed, false));
    assert_eq!(classify_provider_error("status 429"), (DdnsRuntimeReason::RateLimited, true));
    assert_eq!(classify_provider_error("operation Timed Out"), (DdnsRuntimeReason::Timeout, true));
    assert_eq!(classify_provider_error("connection refused"), (DdnsRuntimeReason::NetworkError, true));
    assert_eq!(classify_provider_error("record not found"), (DdnsRuntimeReason::RemoteRejected, false));
    assert_eq!(classify_provider_error("invalid token"), (DdnsRuntimeReason::AuthFailed, false));
    assert_eq!(classify_provider_error("something odd"), (DdnsRuntimeReason::UnknownError, false));
    assert_eq!(classify_provider_error(""), (DdnsRuntimeReason::UnknownError, false));
}

#[test]
fn retry_delay_is_short_only_before_first_publish() {
    assert_eq!(retry_delay_secs(DdnsRuntimeReason::WaitingWanIp, true), 5);
    assert_eq!(retry_delay_secs(DdnsRuntimeReason::WaitingWanIp, false), 60);
    assert_eq!(retry_delay_secs(DdnsRuntimeReason::AuthFailed, true), 60);
    assert_eq!(retry_delay_secs(DdnsRuntimeReason::NetworkError, true), 5);
}

#[test]
fn ttl_and_messages() {
    assert_eq!(normalized_ddns_ttl(None), 120);
    assert_eq!(normalized_ddns_ttl(Some(300)), 300);
    assert_eq!(runtime_message_for_reason(DdnsRuntimeReason::Disabled), "DDNS sync is disabled");
    assert_eq!(cf_error(&None), "unknown Cloudflare API error");
    assert_eq!(cf_error(&Some(vec![])), "unknown Cloudflare API error");
    let errs = vec![CfError { message: "bad zone".to_string() }, CfError { message: "x".to_string() }];
    assert_eq!(cf_error(&Some(errs)), "bad zone");
}

#[test]
fn sync_steps_for_families() {
    let sources = vec![wan("wan0", IpFamily::Ipv4), DdnsSource::EnrolledDevice { family: IpFamily::Ipv4 }];
    let idle = |reason| Some(DdnsFamilyState { status: DdnsJobStatus::Idle, reason, retryable: false });
    assert_eq!(family_sync_step(false, &sources, IpFamily::Ipv4), idle(DdnsRuntimeReason::Disabled));
    assert_eq!(family_sync_step(true, &sources, IpFamily::Ipv6), idle(DdnsRuntimeReason::NotConfigured));
    assert_eq!(family_sync_step(true, &sources, IpFamily::Ipv4), None);
    assert!(job_has_source_for_family(&[DdnsSource::EnrolledDevice { family: IpFamily::Ipv6 }], IpFamily::Ipv6));
    assert!(!job_has_source_for_family(&[], IpFamily::Ipv6));
}

#[test]
fn profile_lookup_errors() {
    assert_eq!(profile_lookup_error(ProfileLookup::Found), None);
    assert_eq!(profile_lookup_error(ProfileLookup::Missing), Some(DdnsRuntimeReason::ProviderProfileMissing));
    assert_eq!(profile_lookup_error(ProfileLookup::Failed), Some(DdnsRuntimeReason::UnknownError));
}

#[test]
fn record_plans_follow_configs() {
    let configs = vec![
        DdnsRecordConfig { name: "www".to_string(), enable: true },
        DdnsRecordConfig { name: "off".to_string(), enable: false },
        DdnsRecordConfig { name: "www".to_string(), enable: false },
    ];
    assert!(record_enabled(&configs, "www"));
    assert!(!record_enabled(&configs, "off"));
    assert!(!record_enabled(&configs, "missing"));
    let sources = vec![wan("wan0", IpFamily::Ipv4)];
    let names = vec!["www".to_string(), "missing".to_string()];
    let plan = plan_record_families(&configs, &names, &sources);
    let idle = |reason| Some(DdnsFamilyState { status: DdnsJobStatus::Idle, reason, retryable: false });
    assert_eq!(plan.len(), 2);
    assert_eq!(plan[0], (None, idle(DdnsRuntimeReason::NotConfigured)));
    assert_eq!(plan[1], (idle(DdnsRuntimeReason::Disabled), idle(DdnsRuntimeReason::Disabled)));
}
