use landscape::metric_ingest::{ConnectMetric, ConnectStatusType};
use landscape::metric_schema::{
    cleanup_old_dns_metrics, create_dns_table, create_metrics_table, create_summaries_table,
    insert_dns_row, upsert_metric_bucket_values, DNS_CLEANUP_SQL, DNS_INSERT_SQL, DNS_TABLE_SQL,
};
use landscape::metric_sql::{
    dns_history_order_by, dns_history_statements, dns_summary_statements, join_display_paths,
    join_strings, metric_db_sidecar_paths, metric_db_wal_path, normalize_domain, push_decimal,
    sqlite_url, connect_history_statement, dns_lightweight_summary_statement, connect_ip_history_statement, ConnectHistoryQueryParams,
    ConnectSortKey, DnsHistoryQueryParams, DnsSortKey, DnsSummaryQueryParams, DnsWhereBuilder,
    SortOrder, SqlValue,
};
use landscape::metric_totals::{
    CleanupStats, ConnectGlobalStats, GlobalStatsDelta, SummaryTotals,
};

#[test]
fn domains_lose_one_trailing_dot() {
    let mut d = "example.com.".to_string();
    normalize_domain(&mut d);
    assert_eq!(d, "example.com");
    normalize_domain(&mut d);
    assert_eq!(d, "example.com");
    let mut root = ".".to_string();
    normalize_domain(&mut root);
    assert_eq!(root, ".");
    let mut empty = String::new();
    normalize_domain(&mut empty);
    assert_eq!(empty, "");
}

#[test]
fn where_clauses_join_with_and() {
    let mut b = DnsWhereBuilder::new();
    assert_eq!(b.where_stmt(), "");
    assert_eq!(b.where_stmt_with_extra("x = 1"), "WHERE x = 1");
    b.push_param("report_time >= ?", SqlValue::Int(5));
    b.push_param("domain LIKE ?", SqlValue::Text("%a%".to_string()));
    assert_eq!(b.where_stmt(), "WHERE report_time >= ? AND domain LIKE ?");
    assert_eq!(
        b.where_stmt_with_extra("status = 0"),
        "WHERE report_time >= ? AND domain LIKE ? AND status = 0"
    );
    assert_eq!(b.param_refs(), &[SqlValue::Int(5), SqlValue::Text("%a%".to_string())][..]);
}

#[test]
fn store_paths() {
    assert_eq!(sqlite_url("/tmp/m.db"), "sqlite:///tmp/m.db?mode=rwc");
    assert_eq!(metric_db_wal_path("/d/m.duckdb"), "/d/m.duckdb.wal");
    assert_eq!(
        metric_db_sidecar_paths("/d/m.duckdb"),
        vec!["/d/m.duckdb".to_string(), "/d/m.duckdb.wal".to_string(), "/d/m.duckdb.tmp".to_string()]
    );
    let paths = vec!["a".to_string(), "b".to_string()];
    assert_eq!(join_display_paths(&paths), "a, b");
    assert_eq!(join_strings(&[], "-"), "");
}

#[test]
fn schema_prefix_goes_before_each_table() {
    let plain = create_summaries_table("");
    let prefixed = create_summaries_table("cold");
    assert!(plain.contains("CREATE TABLE IF NOT EXISTS conn_summaries ("));
    assert!(prefixed.contains("CREATE TABLE IF NOT EXISTS cold.conn_summaries ("));
    assert_eq!(prefixed.matches("cold.").count(), 2);
    let metrics = create_metrics_table("cold");
    assert!(metrics.contains("cold.conn_metrics_1m"));
    assert!(!create_metrics_table("").contains("cold."));
}

#[test]
fn bucket_upsert_binds_values_in_order() {
    let st = upsert_metric_bucket_values("conn_metrics_1h", 1, 2, 3, 4, 5, 6, 7, 8, 9);
    assert!(st.sql.contains("INSERT INTO conn_metrics_1h ("));
    assert!(st.sql.contains("GREATEST(conn_metrics_1h.ingress_bytes, EXCLUDED.ingress_bytes)"));
    let expected: Vec<SqlValue> = (1..=9).map(SqlValue::Int).collect();
    assert_eq!(st.params, expected);
    let wrapped = upsert_metric_bucket_values("t", u64::MAX, 0, 0, 0, 0, 0, 0, 0, 0);
    assert_eq!(wrapped.params[0], SqlValue::Int(-1));
}

#[test]
fn dns_statements() {
    assert_eq!(create_dns_table(), DNS_TABLE_SQL);
    let row = insert_dns_row(7, "a.example", "A", "NOERROR", 100, 3, "10.0.0.2", "[]", "{}");
    assert_eq!(row.sql, DNS_INSERT_SQL);
    assert_eq!(row.params.len(), 9);
    assert_eq!(row.params[0], SqlValue::Int(7));
    assert_eq!(row.params[1], SqlValue::Text("a.example".to_string()));
    assert_eq!(row.params[8], SqlValue::Text("{}".to_string()));
    let cleanup = cleanup_old_dns_metrics(42);
    assert_eq!(cleanup.sql, DNS_CLEANUP_SQL);
    assert_eq!(cleanup.params, vec![SqlValue::Int(42)]);
}

fn metric(ib: u64, eb: u64, ip: u64, ep: u64) -> ConnectMetric {
    ConnectMetric {
        key: 1,
        ifindex: 1,
        create_time_ms: 0,
        report_time: 0,
        ingress_bytes: ib,
        ingress_packets: ip,
        egress_bytes: eb,
        egress_packets: ep,
        status: ConnectStatusType::Active,
    }
}

#[test]
fn totals_keep_largest_counters() {
    let t = SummaryTotals::from_metric(&metric(100, 200, 3, 4));
    let t2 = t.merge_metric(&metric(150, 180, 5, 4));
    assert_eq!(
        t2,
        SummaryTotals { total_ingress_bytes: 150, total_egress_bytes: 200, total_ingress_pkts: 5, total_egress_pkts: 4 }
    );
    assert_eq!(SummaryTotals::default().total_ingress_bytes, 0);
}

#[test]
fn global_stats_changes_add_up() {
    let t1 = SummaryTotals { total_ingress_bytes: 100, total_egress_bytes: 50, total_ingress_pkts: 2, total_egress_pkts: 1 };
    let t2 = SummaryTotals { total_ingress_bytes: 130, total_egress_bytes: 50, total_ingress_pkts: 3, total_egress_pkts: 1 };
    let first = GlobalStatsDelta::from_summary_change(None, t1);
    assert_eq!(first.total_connect_count, 1);
    assert_eq!(first.total_ingress_bytes, 100);
    let second = GlobalStatsDelta::from_summary_change(Some(t1), t2);
    assert_eq!(second.total_connect_count, 0);
    assert_eq!(second.total_ingress_bytes, 30);
    assert_eq!(second.total_egress_bytes, 0);
    let whole = GlobalStatsDelta::from_summary_change(None, t2);
    assert_eq!(first.total_ingress_bytes + second.total_ingress_bytes, whole.total_ingress_bytes);
    assert!(GlobalStatsDelta::from_summary_change(Some(t2), t2).is_zero());
    let stats = ConnectGlobalStats {
        total_ingress_bytes: 5,
        total_egress_bytes: 6,
        total_ingress_pkts: 7,
        total_egress_pkts: 8,
        total_connect_count: 2,
        last_calculate_time: 9,
    };
    let removed = GlobalStatsDelta::from_removed_stats(&stats);
    assert_eq!(removed.total_connect_count, -2);
    assert_eq!(removed.total_egress_pkts, -8);
    assert!(!removed.is_zero());
    let c = CleanupStats::default();
    assert!(!c.budget_hit && c.deleted_1m == 0);
}

fn no_history_filters() -> DnsHistoryQueryParams {
    DnsHistoryQueryParams {
        start_time: None,
        end_time: None,
        flow_id: None,
        domain: None,
        src_ip: None,
        query_type: None,
        status: None,
        min_duration_ms: None,
        max_duration_ms: None,
        sort_key: None,
        sort_order: None,
        limit: None,
        offset: None,
    }
}

#[test]
fn history_filters_in_order_with_their_values() {
    let params = DnsHistoryQueryParams {
        start_time: Some(100),
        end_time: Some(200),
        flow_id: Some(3),
        domain: Some("example.com.".to_string()),
        src_ip: Some("10.0.".to_string()),
        query_type: Some("AAAA".to_string()),
        status: Some("\"block\"".to_string()),
        min_duration_ms: Some(5),
        max_duration_ms: Some(50),
        ..no_history_filters()
    };
    let b = DnsWhereBuilder::from_history_params(&params);
    assert_eq!(
        b.where_stmt(),
        "WHERE report_time >= ? AND report_time <= ? AND flow_id = ? AND domain LIKE ? AND src_ip LIKE ? AND query_type = ? AND status = ? AND duration_ms >= ? AND duration_ms <= ?"
    );
    assert_eq!(
        b.param_refs().to_vec(),
        vec![
            SqlValue::Int(100),
            SqlValue::Int(200),
            SqlValue::Int(3),
            SqlValue::Text("%example.com%".to_string()),
            SqlValue::Text("%10.0.%".to_string()),
            SqlValue::Text("AAAA".to_string()),
            SqlValue::Text("\"block\"".to_string()),
            SqlValue::Int(5),
            SqlValue::Int(50),
        ]
    );
}

#[test]
fn empty_text_filters_are_left_out() {
    let params = DnsHistoryQueryParams {
        domain: Some(String::new()),
        src_ip: Some(String::new()),
        query_type: Some(String::new()),
        ..no_history_filters()
    };
    let b = DnsWhereBuilder::from_history_params(&params);
    assert_eq!(b.where_stmt(), "");
    assert!(b.param_refs().is_empty());
}

#[test]
fn history_page_defaults_to_newest_twenty() {
    let st = dns_history_statements(&no_history_filters());
    assert_eq!(st.count_sql, "SELECT COUNT(*) FROM dns_metrics ");
    assert!(st.query_sql.contains("FROM dns_metrics\n        \n        ORDER BY report_time DESC\n        LIMIT 20 OFFSET 0\n    "));
    assert!(st.params.is_empty());
}

#[test]
fn history_page_by_domain_breaks_ties_by_time() {
    let params = DnsHistoryQueryParams {
        start_time: Some(1),
        sort_key: Some(DnsSortKey::Domain),
        sort_order: Some(SortOrder::Asc),
        limit: Some(50),
        offset: Some(100),
        ..no_history_filters()
    };
    let st = dns_history_statements(&params);
    assert_eq!(st.count_sql, "SELECT COUNT(*) FROM dns_metrics WHERE report_time >= ?");
    assert!(st.query_sql.contains("WHERE report_time >= ?\n        ORDER BY domain ASC, report_time DESC\n        LIMIT 50 OFFSET 100"));
    assert_eq!(st.params, vec![SqlValue::Int(1)]);
    assert_eq!(dns_history_order_by(Some(DnsSortKey::Duration), None), "duration_ms DESC, report_time DESC");
    assert_eq!(dns_history_order_by(Some(DnsSortKey::Time), Some(SortOrder::Asc)), "report_time ASC");
}

#[test]
fn summary_statements_share_their_filters() {
    let params = DnsSummaryQueryParams { start_time: 10, end_time: 20, flow_id: Some(4) };
    let st = dns_summary_statements(&params);
    let w = "WHERE report_time >= ? AND report_time <= ? AND flow_id = ?";
    assert!(st.stats_sql.starts_with("SELECT\n            COUNT(*),"));
    assert!(st.stats_sql.ends_with(&format!("FROM dns_metrics {}", w)));
    assert_eq!(st.top_clients_sql, format!("SELECT src_ip, COUNT(*) as c FROM dns_metrics {} GROUP BY src_ip ORDER BY c DESC LIMIT 10", w));
    assert_eq!(st.top_domains_sql, format!("SELECT domain, COUNT(*) as c FROM dns_metrics {} GROUP BY domain ORDER BY c DESC LIMIT 10", w));
    assert_eq!(
        st.top_blocked_sql,
        format!("SELECT domain, COUNT(*) as c FROM dns_metrics {} AND status = '\"block\"' GROUP BY domain ORDER BY c DESC LIMIT 10", w)
    );
    assert_eq!(
        st.slowest_sql,
        format!("SELECT domain, AVG(duration_ms) as avg_d, COUNT(*) as c FROM dns_metrics {} GROUP BY domain HAVING c > 2 ORDER BY avg_d DESC LIMIT 10", w)
    );
    assert_eq!(st.params, vec![SqlValue::Int(10), SqlValue::Int(20), SqlValue::Int(4)]);
    let no_flow = dns_summary_statements(&DnsSummaryQueryParams { start_time: 1, end_time: 2, flow_id: None });
    assert_eq!(no_flow.params, vec![SqlValue::Int(1), SqlValue::Int(2)]);
}

#[test]
fn decimal_rendering() {
    for (n, text) in [(0u64, "0"), (7, "7"), (10, "10"), (1_234_567_890, "1234567890"), (u64::MAX, "18446744073709551615")] {
        let mut s = String::from("x=");
        push_decimal(&mut s, n);
        assert_eq!(s, format!("x={}", text));
    }
}

const CONN_BASE: &str = "SELECT
            create_time, cpu_id, src_ip, dst_ip, src_port, dst_port, l4_proto, l3_proto, flow_id, trace_id,
            total_ingress_bytes, total_egress_bytes, total_ingress_pkts, total_egress_pkts, last_report_time, status, create_time_ms, gress
        FROM conn_summaries";

fn no_connect_filters() -> ConnectHistoryQueryParams {
    ConnectHistoryQueryParams {
        start_time: None,
        end_time: None,
        src_ip: None,
        dst_ip: None,
        flow_id: None,
        port_start: None,
        port_end: None,
        l3_proto: None,
        l4_proto: None,
        status: None,
        gress: None,
        sort_key: None,
        sort_order: None,
        limit: None,
    }
}

#[test]
fn connect_history_without_filters_is_newest_first() {
    let st = connect_history_statement(&no_connect_filters());
    assert_eq!(st.sql, format!("{} ORDER BY last_report_time DESC", CONN_BASE));
    assert!(st.params.is_empty());
}

#[test]
fn connect_history_filters_order_and_limit() {
    let params = ConnectHistoryQueryParams {
        start_time: Some(5),
        src_ip: Some("192.168".to_string()),
        dst_ip: Some(String::new()),
        port_start: Some(80),
        status: Some(1),
        sort_key: Some(ConnectSortKey::Ingress),
        sort_order: Some(SortOrder::Asc),
        limit: Some(100),
        ..no_connect_filters()
    };
    let st = connect_history_statement(&params);
    assert_eq!(
        st.sql,
        format!(
            "{} WHERE last_report_time >= ? AND src_ip LIKE ? AND src_port = ? AND status = ? ORDER BY total_ingress_bytes ASC LIMIT 100",
            CONN_BASE
        )
    );
    assert_eq!(
        st.params,
        vec![SqlValue::Int(5), SqlValue::Text("%192.168%".to_string()), SqlValue::Int(80), SqlValue::Int(1)]
    );
    let by_duration = ConnectHistoryQueryParams { sort_key: Some(ConnectSortKey::Duration), ..no_connect_filters() };
    assert!(connect_history_statement(&by_duration).sql.ends_with(" ORDER BY (last_report_time - create_time_ms) DESC"));
}

#[test]
fn ip_history_groups_by_address_with_common_filters_only() {
    let params = ConnectHistoryQueryParams {
        end_time: Some(9),
        flow_id: Some(2),
        port_end: Some(443),
        sort_key: Some(ConnectSortKey::Egress),
        ..no_connect_filters()
    };
    let st = connect_ip_history_statement(&params, false);
    assert!(st.sql.starts_with("SELECT\n            dst_ip,\n            SUM(total_ingress_bytes) AS total_ingress_bytes,"));
    assert!(st.sql.ends_with("FROM conn_summaries WHERE last_report_time <= ? AND flow_id = ? GROUP BY 1 ORDER BY total_egress_bytes DESC LIMIT 10"));
    assert_eq!(st.params, vec![SqlValue::Int(9), SqlValue::Int(2)]);
    let src = connect_ip_history_statement(
        &ConnectHistoryQueryParams { sort_key: Some(ConnectSortKey::Port), limit: Some(3), ..no_connect_filters() },
        true,
    );
    assert!(src.sql.starts_with("SELECT\n            src_ip,"));
    assert!(src.sql.ends_with("FROM conn_summaries GROUP BY 1 ORDER BY total_ingress_bytes DESC LIMIT 3"));
}

#[test]
fn lightweight_summary_is_the_stats_statement() {
    let params = DnsSummaryQueryParams { start_time: 10, end_time: 20, flow_id: None };
    let light = dns_lightweight_summary_statement(&params);
    let full = dns_summary_statements(&params);
    assert_eq!(light.sql, full.stats_sql);
    assert!(light.sql.ends_with("FROM dns_metrics WHERE report_time >= ? AND report_time <= ?"));
    assert_eq!(light.params, vec![SqlValue::Int(10), SqlValue::Int(20)]);
}
