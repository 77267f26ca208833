use landscape::dns_redirect::{
    delete_one_config_events, str_lt, update_config_event, DNSRedirectService, DnsEvent,
    DynamicDnsRedirectBatch, DynamicDnsRedirectScope,
};

fn batch(scope: DynamicDnsRedirectScope, source: &str, records: Vec<&'static str>) -> DynamicDnsRedirectBatch<&'static str> {
    DynamicDnsRedirectBatch { scope, source_id: source.to_string(), records }
}

fn keys(svc: &DNSRedirectService<&'static str>) -> Vec<(DynamicDnsRedirectScope, String)> {
    svc.list_dynamic_batches().iter().map(|b| (b.scope, b.source_id.clone())).collect()
}

#[test]
fn batches_listed_global_first_then_by_flow_and_source() {
    let mut svc = DNSRedirectService::new();
    let _ = svc.set_dynamic_batch(batch(DynamicDnsRedirectScope::Flow(7), "b", vec!["x"]));
    let _ = svc.set_dynamic_batch(batch(DynamicDnsRedirectScope::Flow(2), "z", vec!["x"]));
    let _ = svc.set_dynamic_batch(batch(DynamicDnsRedirectScope::Global, "m", vec!["x"]));
    let _ = svc.set_dynamic_batch(batch(DynamicDnsRedirectScope::Flow(7), "a", vec!["x"]));
    let _ = svc.set_dynamic_batch(batch(DynamicDnsRedirectScope::Global, "c", vec!["x"]));
    assert_eq!(
        keys(&svc),
        vec![
            (DynamicDnsRedirectScope::Global, "c".to_string()),
            (DynamicDnsRedirectScope::Global, "m".to_string()),
            (DynamicDnsRedirectScope::Flow(2), "z".to_string()),
            (DynamicDnsRedirectScope::Flow(7), "a".to_string()),
            (DynamicDnsRedirectScope::Flow(7), "b".to_string()),
        ]
    );
    let flow7: Vec<(DynamicDnsRedirectScope, String)> =
        svc.list_flow_dynamic_batches(7).iter().map(|b| (b.scope, b.source_id.clone())).collect();
    assert_eq!(
        flow7,
        vec![
            (DynamicDnsRedirectScope::Global, "c".to_string()),
            (DynamicDnsRedirectScope::Global, "m".to_string()),
            (DynamicDnsRedirectScope::Flow(7), "a".to_string()),
            (DynamicDnsRedirectScope::Flow(7), "b".to_string()),
        ]
    );
    assert_eq!(svc.list_flow_dynamic_batches(9).len(), 2);
}

#[test]
fn set_replaces_and_empty_batch_withdraws() {
    let mut svc = DNSRedirectService::new();
    let _ = svc.set_dynamic_batch(batch(DynamicDnsRedirectScope::Flow(3), "dhcp", vec!["a"]));
    let e = svc.set_dynamic_batch(batch(DynamicDnsRedirectScope::Flow(3), "dhcp", vec!["b", "c"]));
    assert_eq!(e, DnsEvent::DynamicRedirectsChanged { flow_id: Some(3), source_id: "dhcp".to_string() });
    assert_eq!(svc.list_dynamic_batches().len(), 1);
    assert_eq!(svc.list_dynamic_batches()[0].records, vec!["b", "c"]);
    let e = svc.set_dynamic_batch(batch(DynamicDnsRedirectScope::Flow(3), "dhcp", vec![]));
    assert_eq!(e, DnsEvent::DynamicRedirectsChanged { flow_id: Some(3), source_id: "dhcp".to_string() });
    assert!(svc.list_dynamic_batches().is_empty());
    let e = svc.set_dynamic_batch(batch(DynamicDnsRedirectScope::Global, "none", vec![]));
    assert_eq!(e, DnsEvent::DynamicRedirectsChanged { flow_id: None, source_id: "none".to_string() });
    assert!(svc.list_dynamic_batches().is_empty());
}

#[test]
fn scope_coverage() {
    assert!(DynamicDnsRedirectScope::Global.applies_to_flow(5));
    assert!(DynamicDnsRedirectScope::Flow(5).applies_to_flow(5));
    assert!(!DynamicDnsRedirectScope::Flow(5).applies_to_flow(6));
}

#[test]
fn source_order_is_by_characters() {
    assert!(str_lt("a", "b"));
    assert!(str_lt("ab", "abc"));
    assert!(!str_lt("abc", "ab"));
    assert!(!str_lt("x", "x"));
    assert!(str_lt("", "a"));
    assert!(str_lt("Z", "a"));
    assert!(str_lt("é", "ü"));
}

#[test]
fn config_events() {
    assert_eq!(delete_one_config_events(&[]), vec![DnsEvent::RedirectsChanged { flow_id: None }]);
    assert_eq!(
        delete_one_config_events(&[4, 9]),
        vec![DnsEvent::RedirectsChanged { flow_id: Some(4) }, DnsEvent::RedirectsChanged { flow_id: Some(9) }]
    );
    assert_eq!(update_config_event(), DnsEvent::RedirectsChanged { flow_id: None });
}
