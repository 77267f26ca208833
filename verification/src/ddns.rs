//! Decisions of the dynamic DNS updater: how a provider's error message is
//! read, when to retry, the record TTL, and what the status page says.
use vstd::prelude::*;
use vstd::string::StringExecFns;

verus! {

/// Seconds between two passes over all enabled jobs.
pub const DDNS_SYNC_INTERVAL_SECS: u64 = 60;

/// Seconds before a job that failed early is tried again.
pub const DDNS_RETRY_INTERVAL_SECS: u64 = 5;

/// TTL of a record whose job and profile set none.
pub const DEFAULT_DDNS_RECORD_TTL: u32 = 120;

/// Why a DDNS job, or one of its address families, is where it is.
#[derive(Clone, Copy, Debug, PartialEq, Eq, Structural)]
pub enum DdnsRuntimeReason {
    Disabled,
    NotConfigured,
    Pending,
    Publishing,
    Published,
    UpToDate,
    WaitingWanIp,
    NoMatchingSource,
    SourceNotImplemented,
    ProviderProfileMissing,
    ProviderUnsupported,
    AuthFailed,
    RateLimited,
    Timeout,
    NetworkError,
    RemoteRejected,
    UnknownError,
}

/// The character with ASCII capitals turned to small letters.
pub open spec fn lower_char(c: char) -> char {
    if 'A' <= c <= 'Z' {
        ((c as u32) + 32) as char
    } else {
        c
    }
}

/// The text with ASCII capitals turned to small letters.
pub open spec fn ascii_lower(s: Seq<char>) -> Seq<char> {
    s.map_values(|c: char| lower_char(c))
}

/// `needle` occurs in `hay`.
pub open spec fn occurs(hay: Seq<char>, needle: Seq<char>) -> bool {
    exists|i: int| 0 <= i <= hay.len() - needle.len() && #[trigger] hay.subrange(i, i + needle.len()) == needle
}

fn lower(s: &str) -> (r: Vec<char>)
    ensures
        r@ == ascii_lower(s@),
{
    let mut r: Vec<char> = Vec::new();
    let n = s.unicode_len();
    let mut i: usize = 0;
    while i < n
        invariant
            n == s@.len(),
            i <= n,
            r@ == ascii_lower(s@.take(i as int)),
        decreases n - i,
    {
        let c = s.get_char(i);
        let l = if 'A' <= c && c <= 'Z' {
            ((c as u8) + 32) as char
        } else {
            c
        };
        assert(l == lower_char(c));
        r.push(l);
        assert(ascii_lower(s@.take(i + 1)) =~= ascii_lower(s@.take(i as int)).push(lower_char(c)));
        i += 1;
    }
    assert(s@.take(n as int) =~= s@);
    r
}

fn occurs_in(hay: &Vec<char>, needle: &str) -> (r: bool)
    ensures
        r == occurs(hay@, needle@),
{
    let m = needle.unicode_len();
    if m > hay.len() {
        return false;
    }
    let mut i: usize = 0;
    while i <= hay.len() - m
        invariant
            m == needle@.len(),
            m <= hay@.len(),
            i <= hay@.len() - m + 1,
            forall|j: int| 0 <= j < i ==> #[trigger] hay@.subrange(j, j + m) != needle@,
        decreases hay@.len() - m + 1 - i,
    {
        let mut k: usize = 0;
        let mut same = true;
        while k < m
            invariant
                m == needle@.len(),
                i + m <= hay@.len(),
                hay@.len() <= usize::MAX,
                k <= m,
                same == (forall|t: int| 0 <= t < k ==> hay@[i + t] == needle@[t]),
            decreases m - k,
        {
            if hay[i + k] != needle.get_char(k) {
                same = false;
            }
            k += 1;
        }
        if same {
            assert(hay@.subrange(i as int, i + m) =~= needle@);
            return true;
        }
        proof {
            if hay@.subrange(i as int, i + m) == needle@ {
                assert forall|t: int| 0 <= t < m implies hay@[i + t] == needle@[t] by {
                    assert(hay@.subrange(i as int, i + m)[t] == hay@[i + t]);
                }
            }
        }
        i += 1;
    }
    false
}

/// What the provider's error message says of the failure, and whether
/// trying again may help; the message is read without regard to ASCII case.
pub open spec fn spec_classify(message: Seq<char>) -> (DdnsRuntimeReason, bool) {
    let m = ascii_lower(message);
    if occurs(m, "manual dns provider does not support ddns"@) || occurs(
        m,
        "does not support ddns updates"@,
    ) {
        (DdnsRuntimeReason::ProviderUnsupported, false)
    } else if occurs(m, "unauthorized"@) || occurs(m, "forbidden"@) || occurs(m, "invalid token"@)
        || occurs(m, "invalid key"@) || occurs(m, "invalid secret"@) || occurs(
        m,
        "invalid signature"@,
    ) || occurs(m, "authentication"@) || occurs(m, "auth failed"@) || occurs(m, "access key"@)
        || occurs(m, "api token"@) {
        (DdnsRuntimeReason::AuthFailed, false)
    } else if occurs(m, "rate limit"@) || occurs(m, "too many requests"@) || occurs(m, "429"@) {
        (DdnsRuntimeReason::RateLimited, true)
    } else if occurs(m, "timed out"@) || occurs(m, "timeout"@) {
        (DdnsRuntimeReason::Timeout, true)
    } else if occurs(m, "request failed"@) || occurs(m, "dns lookup failed"@) || occurs(
        m,
        "connection reset"@,
    ) || occurs(m, "connection refused"@) || occurs(m, "network"@) {
        (DdnsRuntimeReason::NetworkError, true)
    } else if occurs(m, "not found"@) || occurs(m, "invalid"@) || occurs(m, "rejected"@) {
        (DdnsRuntimeReason::RemoteRejected, false)
    } else {
        (DdnsRuntimeReason::UnknownError, false)
    }
}

/// Reads a provider's error message: the reason of the failure, and
/// whether trying again may help.
pub fn classify_provider_error(message: &str) -> (r: (DdnsRuntimeReason, bool))
    ensures
        r == spec_classify(message@),
{
    let lower = lower(message);
    if occurs_in(&lower, "manual dns provider does not support ddns") || occurs_in(
        &lower,
        "does not support ddns updates",
    ) {
        return (DdnsRuntimeReason::ProviderUnsupported, false);
    }
    if occurs_in(&lower, "unauthorized") || occurs_in(&lower, "forbidden") || occurs_in(
        &lower,
        "invalid token",
    ) || occurs_in(&lower, "invalid key") || occurs_in(&lower, "invalid secret") || occurs_in(
        &lower,
        "invalid signature",
    ) || occurs_in(&lower, "authentication") || occurs_in(&lower, "auth failed") || occurs_in(
        &lower,
        "access key",
    ) || occurs_in(&lower, "api token") {
        return (DdnsRuntimeReason::AuthFailed, false);
    }
    if occurs_in(&lower, "rate limit") || occurs_in(&lower, "too many requests") || occurs_in(
        &lower,
        "429",
    ) {
        return (DdnsRuntimeReason::RateLimited, true);
    }
    if occurs_in(&lower, "timed out") || occurs_in(&lower, "timeout") {
        return (DdnsRuntimeReason::Timeout, true);
    }
    if occurs_in(&lower, "request failed") || occurs_in(&lower, "dns lookup failed") || occurs_in(
        &lower,
        "connection reset",
    ) || occurs_in(&lower, "connection refused") || occurs_in(&lower, "network") {
        return (DdnsRuntimeReason::NetworkError, true);
    }
    if occurs_in(&lower, "not found") || occurs_in(&lower, "invalid") || occurs_in(
        &lower,
        "rejected",
    ) {
        return (DdnsRuntimeReason::RemoteRejected, false);
    }
    (DdnsRuntimeReason::UnknownError, false)
}

/// Seconds until a failed job is tried again: the short retry interval
/// while its record was never published and the failure may pass (no WAN
/// address yet, rate limit, timeout, network error), else the sync interval.
pub fn retry_delay_secs(reason: DdnsRuntimeReason, is_initial_publish: bool) -> (r: u64)
    ensures
        r == if is_initial_publish && (reason == DdnsRuntimeReason::WaitingWanIp || reason
            == DdnsRuntimeReason::RateLimited || reason == DdnsRuntimeReason::Timeout || reason
            == DdnsRuntimeReason::NetworkError) {
            DDNS_RETRY_INTERVAL_SECS
        } else {
            DDNS_SYNC_INTERVAL_SECS
        },
{
    let transient = match reason {
        DdnsRuntimeReason::WaitingWanIp
        | DdnsRuntimeReason::RateLimited
        | DdnsRuntimeReason::Timeout
        | DdnsRuntimeReason::NetworkError => true,
        _ => false,
    };
    if is_initial_publish && transient {
        DDNS_RETRY_INTERVAL_SECS
    } else {
        DDNS_SYNC_INTERVAL_SECS
    }
}

/// The TTL of a record: the one set, or 120 seconds.
pub fn normalized_ddns_ttl(ttl: Option<u32>) -> (r: u32)
    ensures
        r == match ttl {
            Some(t) => t,
            None => DEFAULT_DDNS_RECORD_TTL,
        },
{
    match ttl {
        Some(t) => t,
        None => DEFAULT_DDNS_RECORD_TTL,
    }
}

/// What the status page says for a reason.
pub open spec fn spec_reason_message(reason: DdnsRuntimeReason) -> Seq<char> {
    match reason {
        DdnsRuntimeReason::Disabled => "DDNS sync is disabled"@,
        DdnsRuntimeReason::NotConfigured => "This IP family is not configured for the DDNS job"@,
        DdnsRuntimeReason::Pending => "Waiting for the first DDNS sync"@,
        DdnsRuntimeReason::Publishing => "Syncing DNS record"@,
        DdnsRuntimeReason::Published => "DNS record updated successfully"@,
        DdnsRuntimeReason::UpToDate => "DNS record is already up to date"@,
        DdnsRuntimeReason::WaitingWanIp => "Waiting for WAN IP"@,
        DdnsRuntimeReason::NoMatchingSource => "No DDNS source matches this IP family"@,
        DdnsRuntimeReason::SourceNotImplemented => "Selected DDNS source is not implemented yet"@,
        DdnsRuntimeReason::ProviderProfileMissing => "DNS provider profile was not found"@,
        DdnsRuntimeReason::ProviderUnsupported => "Selected DNS provider does not support DDNS"@,
        DdnsRuntimeReason::AuthFailed => "DNS provider authentication failed"@,
        DdnsRuntimeReason::RateLimited => "DNS provider rate limited the update request"@,
        DdnsRuntimeReason::Timeout => "DDNS update timed out"@,
        DdnsRuntimeReason::NetworkError => "Network error while updating DNS record"@,
        DdnsRuntimeReason::RemoteRejected => "DNS provider rejected the update request"@,
        DdnsRuntimeReason::UnknownError => "DDNS update failed due to an unknown error"@,
    }
}

/// What the status page says for a reason.
pub fn runtime_message_for_reason(reason: DdnsRuntimeReason) -> (r: &'static str)
    ensures
        r@ == spec_reason_message(reason),
{
    match reason {
        DdnsRuntimeReason::Disabled => "DDNS sync is disabled",
        DdnsRuntimeReason::NotConfigured => "This IP family is not configured for the DDNS job",
        DdnsRuntimeReason::Pending => "Waiting for the first DDNS sync",
        DdnsRuntimeReason::Publishing => "Syncing DNS record",
        DdnsRuntimeReason::Published => "DNS record updated successfully",
        DdnsRuntimeReason::UpToDate => "DNS record is already up to date",
        DdnsRuntimeReason::WaitingWanIp => "Waiting for WAN IP",
        DdnsRuntimeReason::NoMatchingSource => "No DDNS source matches this IP family",
        DdnsRuntimeReason::SourceNotImplemented => "Selected DDNS source is not implemented yet",
        DdnsRuntimeReason::ProviderProfileMissing => "DNS provider profile was not found",
        DdnsRuntimeReason::ProviderUnsupported => "Selected DNS provider does not support DDNS",
        DdnsRuntimeReason::AuthFailed => "DNS provider authentication failed",
        DdnsRuntimeReason::RateLimited => "DNS provider rate limited the update request",
        DdnsRuntimeReason::Timeout => "DDNS update timed out",
        DdnsRuntimeReason::NetworkError => "Network error while updating DNS record",
        DdnsRuntimeReason::RemoteRejected => "DNS provider rejected the update request",
        DdnsRuntimeReason::UnknownError => "DDNS update failed due to an unknown error",
    }
}

/// One error of a Cloudflare API answer.
#[derive(Clone, Debug)]
pub struct CfError {
    pub message: String,
}

/// The message of the first error of a Cloudflare answer, or a generic one.
pub fn cf_error(errors: &Option<Vec<CfError>>) -> (r: String)
    ensures
        r@ == match errors {
            Some(errs) => if errs@.len() > 0 {
                errs@[0].message@
            } else {
                "unknown Cloudflare API error"@
            },
            None => "unknown Cloudflare API error"@,
        },
{
    match errors {
        Some(errs) => if errs.len() > 0 {
            errs[0].message.clone()
        } else {
            String::from_str("unknown Cloudflare API error")
        },
        None => String::from_str("unknown Cloudflare API error"),
    }
}

/// An address family.
#[derive(Clone, Copy, Debug, PartialEq, Eq, Structural)]
pub enum IpFamily {
    Ipv4,
    Ipv6,
}

/// Where a DDNS job, or one of its address families, stands.
#[derive(Clone, Copy, Debug, PartialEq, Eq, Structural)]
pub enum DdnsJobStatus {
    Idle,
    Syncing,
    Success,
    Error,
}

/// Where a record's address comes from: the address of a WAN interface,
/// or an enrolled device.
#[derive(Clone, Debug)]
pub enum DdnsSource {
    LocalWan { iface_name: String, family: IpFamily },
    EnrolledDevice { family: IpFamily },
}

/// The state of one address family of one record, as the job summary
/// reads it.
#[derive(Clone, Copy, Debug, PartialEq, Eq, Structural)]
pub struct DdnsFamilyState {
    pub status: DdnsJobStatus,
    pub reason: DdnsRuntimeReason,
    pub retryable: bool,
}

/// The TTL a job publishes with: its own, else its provider profile's
/// default, else none.
pub fn effective_ddns_ttl(job_ttl: Option<u32>, profile_default_ttl: Option<u32>) -> (r: Option<u32>)
    ensures
        r == match job_ttl {
            Some(t) => Some(t),
            None => profile_default_ttl,
        },
{
    match job_ttl {
        Some(t) => Some(t),
        None => profile_default_ttl,
    }
}

/// The source is the WAN interface `owner` for `family`.
pub open spec fn is_wan_source_of(s: DdnsSource, owner: Seq<char>, family: IpFamily) -> bool {
    s matches DdnsSource::LocalWan { iface_name, family: f } && iface_name@ == owner && f == family
}

/// The source is some WAN interface for `family`.
pub open spec fn is_wan_source_for(s: DdnsSource, family: IpFamily) -> bool {
    s matches DdnsSource::LocalWan { family: f, .. } && f == family
}

fn str_equal(a: &str, b: &str) -> (r: bool)
    ensures
        r == (a@ == b@),
{
    let n = a.unicode_len();
    if n != b.unicode_len() {
        return false;
    }
    let mut i: usize = 0;
    while i < n
        invariant
            n == a@.len(),
            n == b@.len(),
            i <= n,
            forall|j: int| 0 <= j < i ==> a@[j] == b@[j],
        decreases n - i,
    {
        if a.get_char(i) != b.get_char(i) {
            return false;
        }
        i += 1;
    }
    assert(a@ =~= b@);
    true
}

/// The family a source gives an address of.
pub open spec fn source_family(src: DdnsSource) -> IpFamily {
    match src {
        DdnsSource::LocalWan { family, .. } => family,
        DdnsSource::EnrolledDevice { family } => family,
    }
}

/// The job has some source, of any kind, for `family`.
pub fn job_has_source_for_family(sources: &[DdnsSource], family: IpFamily) -> (r: bool)
    ensures
        r == exists|i: int| 0 <= i < sources@.len() && source_family(#[trigger] sources@[i]) == family,
{
    let mut i: usize = 0;
    while i < sources.len()
        invariant
            i <= sources@.len(),
            forall|j: int| 0 <= j < i ==> source_family(#[trigger] sources@[j]) != family,
        decreases sources@.len() - i,
    {
        let f = match &sources[i] {
            DdnsSource::LocalWan { family: f, .. } => *f,
            DdnsSource::EnrolledDevice { family: f } => *f,
        };
        if f == family {
            return true;
        }
        i += 1;
    }
    false
}

/// How the provider profile of a job was looked up.
#[derive(Clone, Copy, Debug, PartialEq, Eq, Structural)]
pub enum ProfileLookup {
    Found,
    Missing,
    Failed,
}

/// The first step of syncing a job: where its provider profile cannot be
/// had, the error every family is left with (missing profile, or an
/// unknown error where the lookup failed), not to be retried early; where
/// it is found, none.
pub fn profile_lookup_error(lookup: ProfileLookup) -> (r: Option<DdnsRuntimeReason>)
    ensures
        r == match lookup {
            ProfileLookup::Found => None,
            ProfileLookup::Missing => Some(DdnsRuntimeReason::ProviderProfileMissing),
            ProfileLookup::Failed => Some(DdnsRuntimeReason::UnknownError),
        },
{
    match lookup {
        ProfileLookup::Found => None,
        ProfileLookup::Missing => Some(DdnsRuntimeReason::ProviderProfileMissing),
        ProfileLookup::Failed => Some(DdnsRuntimeReason::UnknownError),
    }
}

/// `r` is the state a sync leaves one family in without publishing (see
/// `family_sync_step`).
pub open spec fn family_step_is(record_enabled: bool, sources: Seq<DdnsSource>, family: IpFamily, r: Option<DdnsFamilyState>) -> bool {
    if !record_enabled {
        r == Some(DdnsFamilyState { status: DdnsJobStatus::Idle, reason: DdnsRuntimeReason::Disabled, retryable: false })
    } else if !(exists|i: int| 0 <= i < sources.len() && source_family(#[trigger] sources[i]) == family) {
        r == Some(DdnsFamilyState { status: DdnsJobStatus::Idle, reason: DdnsRuntimeReason::NotConfigured, retryable: false })
    } else {
        r is None
    }
}

/// The state a sync leaves one address family of one record in without
/// resolving or publishing anything: idle and disabled where the record is
/// not enabled; idle and not configured where the job has no source for
/// the family; none where the family's address is to be resolved and
/// published.
pub fn family_sync_step(record_enabled: bool, sources: &[DdnsSource], family: IpFamily) -> (r: Option<DdnsFamilyState>)
    ensures
        family_step_is(record_enabled, sources@, family, r),
        !record_enabled ==> r == Some(
            DdnsFamilyState {
                status: DdnsJobStatus::Idle,
                reason: DdnsRuntimeReason::Disabled,
                retryable: false,
            },
        ),
        record_enabled && !(exists|i: int| 0 <= i < sources@.len() && source_family(#[trigger] sources@[i]) == family)
            ==> r == Some(
            DdnsFamilyState {
                status: DdnsJobStatus::Idle,
                reason: DdnsRuntimeReason::NotConfigured,
                retryable: false,
            },
        ),
        record_enabled && (exists|i: int| 0 <= i < sources@.len() && source_family(#[trigger] sources@[i]) == family)
            ==> r is None,
{
    if !record_enabled {
        return Some(
            DdnsFamilyState {
                status: DdnsJobStatus::Idle,
                reason: DdnsRuntimeReason::Disabled,
                retryable: false,
            },
        );
    }
    if !job_has_source_for_family(sources, family) {
        return Some(
            DdnsFamilyState {
                status: DdnsJobStatus::Idle,
                reason: DdnsRuntimeReason::NotConfigured,
                retryable: false,
            },
        );
    }
    None
}

/// A record's configuration in a job: its name and whether it is enabled.
#[derive(Clone, Debug)]
pub struct DdnsRecordConfig {
    pub name: String,
    pub enable: bool,
}

/// The index of the first configuration named `name` among `configs`, if
/// any.
pub open spec fn first_named(configs: Seq<DdnsRecordConfig>, name: Seq<char>) -> Option<int>
    decreases configs.len(),
{
    if configs.len() == 0 {
        None
    } else {
        match first_named(configs.drop_last(), name) {
            Some(i) => Some(i),
            None => if configs.last().name@ == name {
                Some(configs.len() - 1)
            } else {
                None
            },
        }
    }
}

/// Whether the record `name` is enabled: the flag of the first
/// configuration of that name, and not enabled where the job has none.
pub open spec fn spec_record_enabled(configs: Seq<DdnsRecordConfig>, name: Seq<char>) -> bool {
    match first_named(configs, name) {
        Some(i) => configs[i].enable,
        None => false,
    }
}

/// Whether the record `name` is enabled in the job's configurations.
pub fn record_enabled(configs: &[DdnsRecordConfig], name: &str) -> (r: bool)
    ensures
        r == spec_record_enabled(configs@, name@),
{
    let mut i: usize = 0;
    while i < configs.len()
        invariant
            i <= configs@.len(),
            first_named(configs@.take(i as int), name@) is None,
        decreases configs@.len() - i,
    {
        assert(configs@.take(i + 1).drop_last() =~= configs@.take(i as int));
        if str_equal(configs[i].name.as_str(), name) {
            proof {
                lemma_first_named_prefix(configs@, name@, i as int);
            }
            return configs[i].enable;
        }
        i += 1;
    }
    assert(configs@.take(configs@.len() as int) =~= configs@);
    false
}

proof fn lemma_first_named_prefix(configs: Seq<DdnsRecordConfig>, name: Seq<char>, i: int)
    requires
        0 <= i < configs.len(),
        first_named(configs.take(i), name) is None,
        configs[i].name@ == name,
    ensures
        first_named(configs, name) == Some(i),
    decreases configs.len(),
{
    if i < configs.len() - 1 {
        let c = configs.drop_last();
        assert(c.take(i) =~= configs.take(i));
        lemma_first_named_prefix(c, name, i);
    } else {
        assert(configs.drop_last() =~= configs.take(i));
    }
}

/// The first steps of syncing a job's records, record by record (named
/// `names`, in the order the runtime holds them): for each, the state its
/// IPv4 and its IPv6 family are left in without publishing, or none where
/// the family's address is to be resolved and published.
pub fn plan_record_families(
    configs: &[DdnsRecordConfig],
    names: &[String],
    sources: &[DdnsSource],
) -> (r: Vec<(Option<DdnsFamilyState>, Option<DdnsFamilyState>)>)
    ensures
        r@.len() == names@.len(),
        forall|k: int|
            0 <= k < names@.len() ==> {
                let on = spec_record_enabled(configs@, names@[k]@);
                &&& family_step_is(on, sources@, IpFamily::Ipv4, (#[trigger] r@[k]).0)
                &&& family_step_is(on, sources@, IpFamily::Ipv6, r@[k].1)
            },
{
    let mut out: Vec<(Option<DdnsFamilyState>, Option<DdnsFamilyState>)> = Vec::new();
    let mut k: usize = 0;
    while k < names.len()
        invariant
            k <= names@.len(),
            out@.len() == k,
            forall|j: int|
                0 <= j < k ==> {
                    let on = spec_record_enabled(configs@, names@[j]@);
                    &&& family_step_is(on, sources@, IpFamily::Ipv4, (#[trigger] out@[j]).0)
                    &&& family_step_is(on, sources@, IpFamily::Ipv6, out@[j].1)
                },
        decreases names@.len() - k,
    {
        let on = record_enabled(configs, names[k].as_str());
        let v4 = family_sync_step(on, sources, IpFamily::Ipv4);
        let v6 = family_sync_step(on, sources, IpFamily::Ipv6);
        out.push((v4, v6));
        k += 1;
    }
    out
}

/// A change of the WAN route of `owner` for `family` concerns a job whose
/// sources include that interface for that family.
pub fn job_matches_wan_event(sources: &[DdnsSource], owner: &str, family: IpFamily) -> (r: bool)
    ensures
        r == exists|i: int| 0 <= i < sources@.len() && is_wan_source_of(#[trigger] sources@[i], owner@, family),
{
    let mut i: usize = 0;
    while i < sources.len()
        invariant
            i <= sources@.len(),
            forall|j: int| 0 <= j < i ==> !is_wan_source_of(#[trigger] sources@[j], owner@, family),
        decreases sources@.len() - i,
    {
        match &sources[i] {
            DdnsSource::LocalWan { iface_name, family: f } => {
                if *f == family && str_equal(iface_name.as_str(), owner) {
                    assert(is_wan_source_of(sources@[i as int], owner@, family));
                    return true;
                }
            },
            DdnsSource::EnrolledDevice { .. } => {},
        }
        i += 1;
    }
    false
}

/// The job takes an address of `family` from some WAN interface.
pub fn job_has_local_wan_source(sources: &[DdnsSource], family: IpFamily) -> (r: bool)
    ensures
        r == exists|i: int| 0 <= i < sources@.len() && is_wan_source_for(#[trigger] sources@[i], family),
{
    let mut i: usize = 0;
    while i < sources.len()
        invariant
            i <= sources@.len(),
            forall|j: int| 0 <= j < i ==> !is_wan_source_for(#[trigger] sources@[j], family),
        decreases sources@.len() - i,
    {
        match &sources[i] {
            DdnsSource::LocalWan { family: f, .. } => {
                if *f == family {
                    assert(is_wan_source_for(sources@[i as int], family));
                    return true;
                }
            },
            DdnsSource::EnrolledDevice { .. } => {},
        }
        i += 1;
    }
    false
}

/// The tiers in which the job summary looks for the family that speaks for
/// the job: an error, then a sync under way, then a fresh publication, then
/// any success, then an idle family that is enabled and configured.
pub open spec fn primary_tier(f: DdnsFamilyState, tier: int) -> bool {
    if tier == 0 {
        f.status == DdnsJobStatus::Error
    } else if tier == 1 {
        f.status == DdnsJobStatus::Syncing
    } else if tier == 2 {
        f.status == DdnsJobStatus::Success && f.reason == DdnsRuntimeReason::Published
    } else if tier == 3 {
        f.status == DdnsJobStatus::Success
    } else {
        f.status == DdnsJobStatus::Idle && f.reason != DdnsRuntimeReason::Disabled && f.reason
            != DdnsRuntimeReason::NotConfigured
    }
}

/// Some family is in the tier.
pub open spec fn tier_hit(fs: Seq<DdnsFamilyState>, tier: int) -> bool {
    exists|i: int| 0 <= i < fs.len() && primary_tier(#[trigger] fs[i], tier)
}

/// The first family of the tier.
pub open spec fn first_in_tier(fs: Seq<DdnsFamilyState>, tier: int, i: int) -> bool {
    &&& 0 <= i < fs.len()
    &&& primary_tier(fs[i], tier)
    &&& forall|j: int| 0 <= j < i ==> !primary_tier(#[trigger] fs[j], tier)
}

/// The family that speaks for the job: the first of the first tier that
/// any family is in; with none in any tier, the first family; with no
/// family, none.
pub open spec fn spec_primary_family(fs: Seq<DdnsFamilyState>) -> Option<int> {
    if fs.len() == 0 {
        None
    } else if tier_hit(fs, 0) {
        Some(choose|i: int| first_in_tier(fs, 0, i))
    } else if tier_hit(fs, 1) {
        Some(choose|i: int| first_in_tier(fs, 1, i))
    } else if tier_hit(fs, 2) {
        Some(choose|i: int| first_in_tier(fs, 2, i))
    } else if tier_hit(fs, 3) {
        Some(choose|i: int| first_in_tier(fs, 3, i))
    } else if tier_hit(fs, 4) {
        Some(choose|i: int| first_in_tier(fs, 4, i))
    } else {
        Some(0)
    }
}

fn first_of_tier(fs: &[DdnsFamilyState], tier: u8) -> (r: Option<usize>)
    requires
        tier <= 4,
    ensures
        match r {
            Some(i) => first_in_tier(fs@, tier as int, i as int),
            None => !tier_hit(fs@, tier as int),
        },
{
    let mut i: usize = 0;
    while i < fs.len()
        invariant
            tier <= 4,
            i <= fs@.len(),
            forall|j: int| 0 <= j < i ==> !primary_tier(#[trigger] fs@[j], tier as int),
        decreases fs@.len() - i,
    {
        let f = fs[i];
        let hit = if tier == 0 {
            f.status == DdnsJobStatus::Error
        } else if tier == 1 {
            f.status == DdnsJobStatus::Syncing
        } else if tier == 2 {
            f.status == DdnsJobStatus::Success && f.reason == DdnsRuntimeReason::Published
        } else if tier == 3 {
            f.status == DdnsJobStatus::Success
        } else {
            f.status == DdnsJobStatus::Idle && f.reason != DdnsRuntimeReason::Disabled && f.reason
                != DdnsRuntimeReason::NotConfigured
        };
        if hit {
            return Some(i);
        }
        i += 1;
    }
    None
}

proof fn lemma_first_unique(fs: Seq<DdnsFamilyState>, tier: int, i: int)
    requires
        first_in_tier(fs, tier, i),
    ensures
        (choose|k: int| first_in_tier(fs, tier, k)) == i,
{
    let k = choose|k: int| first_in_tier(fs, tier, k);
    assert(first_in_tier(fs, tier, k));
    if k < i {
        assert(!primary_tier(fs[k], tier));
    } else if i < k {
        assert(!primary_tier(fs[i], tier));
    }
}

/// The index of the family whose status, reason and message the job
/// summary shows.
pub fn select_primary_family(fs: &[DdnsFamilyState]) -> (r: Option<usize>)
    ensures
        match r {
            Some(i) => i < fs@.len() && spec_primary_family(fs@) == Some(i as int),
            None => spec_primary_family(fs@) is None,
        },
{
    if fs.len() == 0 {
        return None;
    }
    let mut tier: u8 = 0;
    while tier < 5
        invariant
            tier <= 5,
            fs@.len() > 0,
            forall|t: int| 0 <= t < tier ==> !tier_hit(fs@, t),
        decreases 5 - tier,
    {
        if let Some(i) = first_of_tier(fs, tier) {
            proof {
                lemma_first_unique(fs@, tier as int, i as int);
                assert(tier_hit(fs@, tier as int));
            }
            return Some(i);
        }
        tier += 1;
    }
    Some(0)
}

/// The job summary: the primary family's status and reason, and whether
/// any family may be retried; with no family, idle and pending.
#[derive(Clone, Copy, Debug, PartialEq, Eq, Structural)]
pub struct DdnsJobSummary {
    pub status: DdnsJobStatus,
    pub reason: DdnsRuntimeReason,
    pub retryable: bool,
}

/// Summarises the families of a job's records.
pub fn summarize_job(fs: &[DdnsFamilyState]) -> (r: DdnsJobSummary)
    ensures
        match spec_primary_family(fs@) {
            Some(i) => r.status == fs@[i].status && r.reason == fs@[i].reason && r.retryable == exists|j: int|
                0 <= j < fs@.len() && (#[trigger] fs@[j]).retryable,
            None => r == DdnsJobSummary {
                status: DdnsJobStatus::Idle,
                reason: DdnsRuntimeReason::Pending,
                retryable: false,
            },
        },
{
    match select_primary_family(fs) {
        None => DdnsJobSummary {
            status: DdnsJobStatus::Idle,
            reason: DdnsRuntimeReason::Pending,
            retryable: false,
        },
        Some(p) => {
            let mut any = false;
            let mut j: usize = 0;
            while j < fs.len()
                invariant
                    j <= fs@.len(),
                    any == exists|k: int| 0 <= k < j && (#[trigger] fs@[k]).retryable,
                decreases fs@.len() - j,
            {
                if fs[j].retryable {
                    any = true;
                }
                j += 1;
            }
            DdnsJobSummary { status: fs[p].status, reason: fs[p].reason, retryable: any }
        },
    }
}

proof fn lemma_first_exists(fs: Seq<DdnsFamilyState>, tier: int, n: int)
    requires
        0 <= n < fs.len(),
        primary_tier(fs[n], tier),
    ensures
        exists|i: int| first_in_tier(fs, tier, i),
    decreases n,
{
    if forall|j: int| 0 <= j < n ==> !primary_tier(#[trigger] fs[j], tier) {
        assert(first_in_tier(fs, tier, n));
    } else {
        let m = choose|j: int| 0 <= j < n && primary_tier(#[trigger] fs[j], tier);
        lemma_first_exists(fs, tier, m);
    }
}

/// Whenever some family of the job has failed, the job is shown as failed.
pub proof fn law_error_dominates_summary(fs: Seq<DdnsFamilyState>, k: int)
    requires
        0 <= k < fs.len(),
        fs[k].status == DdnsJobStatus::Error,
    ensures
        spec_primary_family(fs) matches Some(i) && 0 <= i < fs.len() && fs[i].status
            == DdnsJobStatus::Error,
{
    assert(primary_tier(fs[k], 0));
    assert(tier_hit(fs, 0));
    lemma_first_exists(fs, 0, k);
    let i = choose|i: int| first_in_tier(fs, 0, i);
    assert(first_in_tier(fs, 0, i));
}

/// A provider's message that speaks of a timeout ("timeout" or "timed
/// out", in any ASCII case) is a timeout, to be tried again soon, unless it
/// also says the provider does not support DDNS, that authentication
/// failed, or that a rate limit was hit.
pub proof fn law_timeouts_are_retried(message: Seq<char>)
    requires
        occurs(ascii_lower(message), "timeout"@) || occurs(ascii_lower(message), "timed out"@),
        !occurs(ascii_lower(message), "manual dns provider does not support ddns"@),
        !occurs(ascii_lower(message), "does not support ddns updates"@),
        !occurs(ascii_lower(message), "unauthorized"@),
        !occurs(ascii_lower(message), "forbidden"@),
        !occurs(ascii_lower(message), "invalid token"@),
        !occurs(ascii_lower(message), "invalid key"@),
        !occurs(ascii_lower(message), "invalid secret"@),
        !occurs(ascii_lower(message), "invalid signature"@),
        !occurs(ascii_lower(message), "authentication"@),
        !occurs(ascii_lower(message), "auth failed"@),
        !occurs(ascii_lower(message), "access key"@),
        !occurs(ascii_lower(message), "api token"@),
        !occurs(ascii_lower(message), "rate limit"@),
        !occurs(ascii_lower(message), "too many requests"@),
        !occurs(ascii_lower(message), "429"@),
    ensures
        spec_classify(message) == (DdnsRuntimeReason::Timeout, true),
{
}

/// A failure is worth trying again soon exactly when it is a rate limit, a
/// timeout or a network error; whatever the message, its reason is one of
/// the reasons a provider failure can have.
pub proof fn law_retryable_failures(message: Seq<char>)
    ensures
        spec_classify(message).1 <==> (spec_classify(message).0 == DdnsRuntimeReason::RateLimited
            || spec_classify(message).0 == DdnsRuntimeReason::Timeout || spec_classify(message).0
            == DdnsRuntimeReason::NetworkError),
        spec_classify(message).0 == DdnsRuntimeReason::ProviderUnsupported || spec_classify(message).0
            == DdnsRuntimeReason::AuthFailed || spec_classify(message).0 == DdnsRuntimeReason::RateLimited
            || spec_classify(message).0 == DdnsRuntimeReason::Timeout || spec_classify(message).0
            == DdnsRuntimeReason::NetworkError || spec_classify(message).0
            == DdnsRuntimeReason::RemoteRejected || spec_classify(message).0
            == DdnsRuntimeReason::UnknownError,
{
}

/// The message says the provider cannot do DDNS.
pub open spec fn says_unsupported(m: Seq<char>) -> bool {
    occurs(m, "manual dns provider does not support ddns"@) || occurs(m, "does not support ddns updates"@)
}

/// The message says the credentials were refused.
pub open spec fn says_auth_failed(m: Seq<char>) -> bool {
    ||| occurs(m, "unauthorized"@)
    ||| occurs(m, "forbidden"@)
    ||| occurs(m, "invalid token"@)
    ||| occurs(m, "invalid key"@)
    ||| occurs(m, "invalid secret"@)
    ||| occurs(m, "invalid signature"@)
    ||| occurs(m, "authentication"@)
    ||| occurs(m, "auth failed"@)
    ||| occurs(m, "access key"@)
    ||| occurs(m, "api token"@)
}

/// The message says a rate limit was hit.
pub open spec fn says_rate_limited(m: Seq<char>) -> bool {
    occurs(m, "rate limit"@) || occurs(m, "too many requests"@) || occurs(m, "429"@)
}

/// The message says the request timed out.
pub open spec fn says_timeout(m: Seq<char>) -> bool {
    occurs(m, "timed out"@) || occurs(m, "timeout"@)
}

/// The message says the network failed.
pub open spec fn says_network_error(m: Seq<char>) -> bool {
    ||| occurs(m, "request failed"@)
    ||| occurs(m, "dns lookup failed"@)
    ||| occurs(m, "connection reset"@)
    ||| occurs(m, "connection refused"@)
    ||| occurs(m, "network"@)
}

/// The message says the provider refused the change.
pub open spec fn says_rejected(m: Seq<char>) -> bool {
    occurs(m, "not found"@) || occurs(m, "invalid"@) || occurs(m, "rejected"@)
}

/// How a provider's message is read, case aside: a missing DDNS feature
/// first, then refused credentials, a rate limit, a timeout, a network
/// failure, a refused change; anything else is unknown. Rate limits,
/// timeouts and network failures are tried again soon; the others are not.
pub proof fn law_provider_errors_classified(message: Seq<char>)
    ensures
        ({
            let m = ascii_lower(message);
            let r = spec_classify(message);
            &&& says_unsupported(m) ==> r == (DdnsRuntimeReason::ProviderUnsupported, false)
            &&& !says_unsupported(m) && says_auth_failed(m) ==> r == (DdnsRuntimeReason::AuthFailed, false)
            &&& !says_unsupported(m) && !says_auth_failed(m) && says_rate_limited(m) ==> r == (
                DdnsRuntimeReason::RateLimited,
                true,
            )
            &&& !says_unsupported(m) && !says_auth_failed(m) && !says_rate_limited(m) && says_timeout(m)
                ==> r == (DdnsRuntimeReason::Timeout, true)
            &&& !says_unsupported(m) && !says_auth_failed(m) && !says_rate_limited(m) && !says_timeout(m)
                && says_network_error(m) ==> r == (DdnsRuntimeReason::NetworkError, true)
            &&& !says_unsupported(m) && !says_auth_failed(m) && !says_rate_limited(m) && !says_timeout(m)
                && !says_network_error(m) && says_rejected(m) ==> r == (DdnsRuntimeReason::RemoteRejected, false)
            &&& !says_unsupported(m) && !says_auth_failed(m) && !says_rate_limited(m) && !says_timeout(m)
                && !says_network_error(m) && !says_rejected(m) ==> r == (DdnsRuntimeReason::UnknownError, false)
        }),
{
}

/// Messages are read without regard to ASCII case: each capital letter
/// becomes its small letter, every other character stays, and the length
/// stays.
pub proof fn law_messages_read_case_blind(s: Seq<char>, i: int)
    ensures
        ascii_lower(s).len() == s.len(),
        0 <= i < s.len() && 'A' <= s[i] <= 'Z' ==> ascii_lower(s)[i] as u32 == s[i] as u32 + 32,
        0 <= i < s.len() && !('A' <= s[i] <= 'Z') ==> ascii_lower(s)[i] == s[i],
{
}

} // verus!
