//! The statements of the DuckDB metric store, with the values bound to
//! them. Running them on a connection is the caller's part.
use vstd::prelude::*;
use vstd::string::StringExecFns;

use crate::metric_sql::{join_seq, SqlStatement, SqlValue};

verus! {

/// The summaries table and its index, split where the schema prefix goes.
pub const SUMMARIES_TABLE_SQL: [&'static str; 3] = [
    "
        CREATE TABLE IF NOT EXISTS ",
    "conn_summaries (
            create_time UBIGINT,
            cpu_id INTEGER,
            src_ip VARCHAR,
            dst_ip VARCHAR,
            src_port INTEGER,
            dst_port INTEGER,
            l4_proto INTEGER,
            l3_proto INTEGER,
            flow_id INTEGER,
            trace_id INTEGER,
            last_report_time UBIGINT,
            total_ingress_bytes UBIGINT,
            total_egress_bytes UBIGINT,
            total_ingress_pkts UBIGINT,
            total_egress_pkts UBIGINT,
            status INTEGER,
            create_time_ms UBIGINT,
            gress INTEGER,
            PRIMARY KEY (create_time, cpu_id)
        );
        CREATE INDEX IF NOT EXISTS idx_conn_summaries_time ON ",
    "conn_summaries (last_report_time);
    ",
];

/// The minute, hour and day rollup tables, the global statistics table and their indexes, split where the schema prefix goes.
pub const METRICS_TABLE_SQL: [&'static str; 8] = [
    "
        CREATE TABLE IF NOT EXISTS ",
    "conn_metrics_1m (
            create_time UBIGINT,
            cpu_id INTEGER,
            report_time BIGINT,
            ingress_bytes BIGINT,
            ingress_packets BIGINT,
            egress_bytes BIGINT,
            egress_packets BIGINT,
            status INTEGER,
            create_time_ms UBIGINT,
            PRIMARY KEY (create_time, cpu_id, report_time)
        );

        CREATE TABLE IF NOT EXISTS ",
    "conn_metrics_1h (
            create_time UBIGINT,
            cpu_id INTEGER,
            report_time BIGINT,
            ingress_bytes BIGINT,
            ingress_packets BIGINT,
            egress_bytes BIGINT,
            egress_packets BIGINT,
            status INTEGER,
            create_time_ms UBIGINT,
            PRIMARY KEY (create_time, cpu_id, report_time)
        );

        CREATE TABLE IF NOT EXISTS ",
    "conn_metrics_1d (
            create_time UBIGINT,
            cpu_id INTEGER,
            report_time BIGINT,
            ingress_bytes BIGINT,
            ingress_packets BIGINT,
            egress_bytes BIGINT,
            egress_packets BIGINT,
            status INTEGER,
            create_time_ms UBIGINT,
            PRIMARY KEY (create_time, cpu_id, report_time)
        );

        CREATE TABLE IF NOT EXISTS ",
    "global_stats (
            total_ingress_bytes BIGINT,
            total_egress_bytes BIGINT,
            total_ingress_pkts BIGINT,
            total_egress_pkts BIGINT,
            total_connect_count BIGINT,
            last_calculate_time UBIGINT
        );

        CREATE INDEX IF NOT EXISTS idx_conn_metrics_1m_time ON ",
    "conn_metrics_1m (report_time);
        CREATE INDEX IF NOT EXISTS idx_conn_metrics_1h_time ON ",
    "conn_metrics_1h (report_time);
        CREATE INDEX IF NOT EXISTS idx_conn_metrics_1d_time ON ",
    "conn_metrics_1d (report_time);
    ",
];

/// The table of raw five-second metrics and its index.
pub const LIVE_TABLES_SQL: &'static str = "
        CREATE TABLE IF NOT EXISTS conn_metrics (
            create_time UBIGINT,
            cpu_id INTEGER,
            report_time BIGINT,
            ingress_bytes BIGINT,
            ingress_packets BIGINT,
            egress_bytes BIGINT,
            egress_packets BIGINT,
            status INTEGER,
            create_time_ms UBIGINT
        );
        CREATE INDEX IF NOT EXISTS idx_conn_metrics_time ON conn_metrics (report_time);
        ";

/// Recomputes the global statistics from the daily rollup.
pub const AGGREGATE_GLOBAL_STATS_SQL: &'static str = "
        DELETE FROM global_stats;
        INSERT INTO global_stats
        SELECT
            SUM(max_ingress_bytes),
            SUM(max_egress_bytes),
            SUM(max_ingress_pkts),
            SUM(max_egress_pkts),
            COUNT(*),
            EXTRACT(EPOCH FROM now()) * 1000
        FROM (
            SELECT
                MAX(ingress_bytes) as max_ingress_bytes,
                MAX(egress_bytes) as max_egress_bytes,
                MAX(ingress_packets) as max_ingress_pkts,
                MAX(egress_packets) as max_egress_pkts
            FROM conn_metrics_1d
            GROUP BY create_time, cpu_id
        );
    ";

/// Rolls raw metrics into minutes, minutes into hours and hours into days.
pub const INNER_ROLLUP_SQL: &'static str = "
        INSERT INTO conn_metrics_1m (
            create_time, cpu_id, report_time,
            ingress_bytes, ingress_packets, egress_bytes, egress_packets, 
            status, create_time_ms
        )
        SELECT 
            create_time, cpu_id, (report_time // 60000) * 60000 as bucket_time,
            MAX(ingress_bytes), MAX(ingress_packets), MAX(egress_bytes), MAX(egress_packets),
            MAX(status), MAX(create_time_ms)
        FROM conn_metrics
        WHERE report_time >= (EXTRACT(EPOCH FROM now()) * 1000 - 600000)
        GROUP BY 1, 2, 3
        ON CONFLICT (create_time, cpu_id, report_time) DO UPDATE SET
            ingress_bytes = GREATEST(conn_metrics_1m.ingress_bytes, EXCLUDED.ingress_bytes),
            ingress_packets = GREATEST(conn_metrics_1m.ingress_packets, EXCLUDED.ingress_packets),
            egress_bytes = GREATEST(conn_metrics_1m.egress_bytes, EXCLUDED.egress_bytes),
            egress_packets = GREATEST(conn_metrics_1m.egress_packets, EXCLUDED.egress_packets),
            status = GREATEST(conn_metrics_1m.status, EXCLUDED.status);

        -- 2. Aggregate 1m into 1h
        INSERT INTO conn_metrics_1h (
            create_time, cpu_id, report_time,
            ingress_bytes, ingress_packets, egress_bytes, egress_packets, 
            status, create_time_ms
        )
        SELECT 
            create_time, cpu_id, (report_time // 3600000) * 3600000 as bucket_time,
            MAX(ingress_bytes), MAX(ingress_packets), MAX(egress_bytes), MAX(egress_packets),
            MAX(status), MAX(create_time_ms)
        FROM conn_metrics_1m
        WHERE report_time >= (EXTRACT(EPOCH FROM now()) * 1000 - 7200000)
        GROUP BY 1, 2, 3
        ON CONFLICT (create_time, cpu_id, report_time) DO UPDATE SET
            ingress_bytes = GREATEST(conn_metrics_1h.ingress_bytes, EXCLUDED.ingress_bytes),
            ingress_packets = GREATEST(conn_metrics_1h.ingress_packets, EXCLUDED.ingress_packets),
            egress_bytes = GREATEST(conn_metrics_1h.egress_bytes, EXCLUDED.egress_bytes),
            egress_packets = GREATEST(conn_metrics_1h.egress_packets, EXCLUDED.egress_packets),
            status = GREATEST(conn_metrics_1h.status, EXCLUDED.status);

        -- 3. Aggregate 1h into 1d
        INSERT INTO conn_metrics_1d (
            create_time, cpu_id, report_time,
            ingress_bytes, ingress_packets, egress_bytes, egress_packets, 
            status, create_time_ms
        )
        SELECT 
            create_time, cpu_id, (report_time // 86400000) * 86400000 as bucket_time,
            MAX(ingress_bytes), MAX(ingress_packets), MAX(egress_bytes), MAX(egress_packets),
            MAX(status), MAX(create_time_ms)
        FROM conn_metrics_1h
        WHERE report_time >= (EXTRACT(EPOCH FROM now()) * 1000 - 172800000)
        GROUP BY 1, 2, 3
        ON CONFLICT (create_time, cpu_id, report_time) DO UPDATE SET
            ingress_bytes = GREATEST(conn_metrics_1d.ingress_bytes, EXCLUDED.ingress_bytes),
            ingress_packets = GREATEST(conn_metrics_1d.ingress_packets, EXCLUDED.ingress_packets),
            egress_bytes = GREATEST(conn_metrics_1d.egress_bytes, EXCLUDED.egress_bytes),
            egress_packets = GREATEST(conn_metrics_1d.egress_packets, EXCLUDED.egress_packets),
            status = GREATEST(conn_metrics_1d.status, EXCLUDED.status);
    ";

/// The DNS metrics table.
pub const DNS_TABLE_SQL: &'static str = "
        CREATE TABLE IF NOT EXISTS dns_metrics (
            flow_id INTEGER,
            domain TEXT,
            query_type TEXT,
            response_code TEXT,
            report_time BIGINT,
            duration_ms INTEGER,
            src_ip TEXT,
            answers TEXT,
            status TEXT
        );
    ";

/// Inserts one DNS metric; nine placeholders.
pub const DNS_INSERT_SQL: &'static str = "INSERT INTO dns_metrics (
            flow_id, domain, query_type, response_code,
            report_time, duration_ms, src_ip, answers, status
        ) VALUES (?1, ?2, ?3, ?4, ?5, ?6, ?7, ?8, ?9)";

/// Deletes the DNS metrics reported before a cutoff.
pub const DNS_CLEANUP_SQL: &'static str = "DELETE FROM dns_metrics WHERE report_time < ?1";

/// Upserts one metric bucket, keeping the larger of each value; split where the table name goes.
pub const UPSERT_BUCKET_SQL: [&'static str; 8] = [
    "
        INSERT INTO ",
    " (
            create_time, cpu_id, report_time,
            ingress_bytes, ingress_packets, egress_bytes, egress_packets,
            status, create_time_ms
        ) VALUES (?1, ?2, ?3, ?4, ?5, ?6, ?7, ?8, ?9)
        ON CONFLICT (create_time, cpu_id, report_time) DO UPDATE SET
            ingress_bytes = GREATEST(",
    ".ingress_bytes, EXCLUDED.ingress_bytes),
            ingress_packets = GREATEST(",
    ".ingress_packets, EXCLUDED.ingress_packets),
            egress_bytes = GREATEST(",
    ".egress_bytes, EXCLUDED.egress_bytes),
            egress_packets = GREATEST(",
    ".egress_packets, EXCLUDED.egress_packets),
            status = GREATEST(",
    ".status, EXCLUDED.status),
            create_time_ms = GREATEST(",
    ".create_time_ms, EXCLUDED.create_time_ms)
    ",
];

/// The views of a list of string slices.
pub open spec fn str_views(v: Seq<&str>) -> Seq<Seq<char>> {
    v.map_values(|s: &str| s@)
}

/// The prefix that names a table in `schema`: the schema and a dot, or
/// nothing for the default schema.
pub open spec fn table_prefix(schema: Seq<char>) -> Seq<char> {
    if schema.len() == 0 {
        Seq::empty()
    } else {
        schema + "."@
    }
}

fn make_table_prefix(schema: &str) -> (r: String)
    ensures
        r@ == table_prefix(schema@),
{
    if schema.is_empty() {
        String::new()
    } else {
        let mut p = String::from_str(schema);
        p.append(".");
        p
    }
}

/// The pieces joined by `sep`.
fn join_strs(parts: &[&str], sep: &str) -> (r: String)
    ensures
        r@ == join_seq(str_views(parts@), sep@),
{
    let mut r = String::new();
    let mut i: usize = 0;
    while i < parts.len()
        invariant
            i <= parts@.len(),
            r@ == join_seq(str_views(parts@.take(i as int)), sep@),
        decreases parts@.len() - i,
    {
        let ghost before = str_views(parts@.take(i as int));
        let ghost after = str_views(parts@.take(i + 1));
        assert(after.drop_last() =~= before);
        assert(after.last() == parts@[i as int]@);
        if i > 0 {
            r.append(sep);
        }
        r.append(parts[i]);
        i += 1;
    }
    assert(parts@.take(parts@.len() as int) =~= parts@);
    r
}

/// The statements that create the summaries table in `schema`.
pub fn create_summaries_table(schema: &str) -> (r: String)
    ensures
        r@ == join_seq(str_views(SUMMARIES_TABLE_SQL@), table_prefix(schema@)),
{
    let prefix = make_table_prefix(schema);
    join_strs(&SUMMARIES_TABLE_SQL, prefix.as_str())
}

/// The statements that create the rollup tables and the global statistics
/// table in `schema`.
pub fn create_metrics_table(schema: &str) -> (r: String)
    ensures
        r@ == join_seq(str_views(METRICS_TABLE_SQL@), table_prefix(schema@)),
{
    let prefix = make_table_prefix(schema);
    join_strs(&METRICS_TABLE_SQL, prefix.as_str())
}

/// The statements that create the table of raw metrics.
pub fn create_live_tables() -> (r: &'static str)
    ensures
        r@ == LIVE_TABLES_SQL@,
{
    LIVE_TABLES_SQL
}

/// The statements that recompute the global statistics.
pub fn aggregate_global_stats() -> (r: &'static str)
    ensures
        r@ == AGGREGATE_GLOBAL_STATS_SQL@,
{
    AGGREGATE_GLOBAL_STATS_SQL
}

/// The statements that roll the metrics up into minutes, hours and days.
pub fn perform_inner_db_rollup() -> (r: &'static str)
    ensures
        r@ == INNER_ROLLUP_SQL@,
{
    INNER_ROLLUP_SQL
}

/// The statement that upserts one metric bucket of `table`, with its
/// values read as signed 64-bit integers.
pub fn upsert_metric_bucket_values(
    table: &str,
    create_time: u64,
    cpu_id: u32,
    report_time: u64,
    ingress_bytes: u64,
    ingress_packets: u64,
    egress_bytes: u64,
    egress_packets: u64,
    status: u8,
    create_time_ms: u64,
) -> (r: SqlStatement)
    ensures
        r.sql@ == join_seq(str_views(UPSERT_BUCKET_SQL@), table@),
        r.params@ == seq![
            SqlValue::Int(create_time as i64),
            SqlValue::Int(cpu_id as i64),
            SqlValue::Int(report_time as i64),
            SqlValue::Int(ingress_bytes as i64),
            SqlValue::Int(ingress_packets as i64),
            SqlValue::Int(egress_bytes as i64),
            SqlValue::Int(egress_packets as i64),
            SqlValue::Int(status as i64),
            SqlValue::Int(create_time_ms as i64),
        ],
{
    let sql = join_strs(&UPSERT_BUCKET_SQL, table);
    let params = vec![
        SqlValue::Int(create_time as i64),
        SqlValue::Int(cpu_id as i64),
        SqlValue::Int(report_time as i64),
        SqlValue::Int(ingress_bytes as i64),
        SqlValue::Int(ingress_packets as i64),
        SqlValue::Int(egress_bytes as i64),
        SqlValue::Int(egress_packets as i64),
        SqlValue::Int(status as i64),
        SqlValue::Int(create_time_ms as i64),
    ];
    assert(params@ =~= seq![
        SqlValue::Int(create_time as i64),
        SqlValue::Int(cpu_id as i64),
        SqlValue::Int(report_time as i64),
        SqlValue::Int(ingress_bytes as i64),
        SqlValue::Int(ingress_packets as i64),
        SqlValue::Int(egress_bytes as i64),
        SqlValue::Int(egress_packets as i64),
        SqlValue::Int(status as i64),
        SqlValue::Int(create_time_ms as i64),
    ]);
    SqlStatement { sql, params }
}

/// The statement that creates the DNS metrics table.
pub fn create_dns_table() -> (r: &'static str)
    ensures
        r@ == DNS_TABLE_SQL@,
{
    DNS_TABLE_SQL
}

/// The statement that inserts one DNS metric.
pub fn insert_dns_row(
    flow_id: u32,
    domain: &str,
    query_type: &str,
    response_code: &str,
    report_time: u64,
    duration_ms: u32,
    src_ip: &str,
    answers_json: &str,
    status_json: &str,
) -> (r: SqlStatement)
    ensures
        r.sql@ == DNS_INSERT_SQL@,
        r.params@.len() == 9,
        r.params@[0] == SqlValue::Int(flow_id as i64),
        r.params@[1] matches SqlValue::Text(t) && t@ == domain@,
        r.params@[2] matches SqlValue::Text(t) && t@ == query_type@,
        r.params@[3] matches SqlValue::Text(t) && t@ == response_code@,
        r.params@[4] == SqlValue::Int(report_time as i64),
        r.params@[5] == SqlValue::Int(duration_ms as i64),
        r.params@[6] matches SqlValue::Text(t) && t@ == src_ip@,
        r.params@[7] matches SqlValue::Text(t) && t@ == answers_json@,
        r.params@[8] matches SqlValue::Text(t) && t@ == status_json@,
{
    let params = vec![
        SqlValue::Int(flow_id as i64),
        SqlValue::Text(String::from_str(domain)),
        SqlValue::Text(String::from_str(query_type)),
        SqlValue::Text(String::from_str(response_code)),
        SqlValue::Int(report_time as i64),
        SqlValue::Int(duration_ms as i64),
        SqlValue::Text(String::from_str(src_ip)),
        SqlValue::Text(String::from_str(answers_json)),
        SqlValue::Text(String::from_str(status_json)),
    ];
    SqlStatement { sql: String::from_str(DNS_INSERT_SQL), params }
}

/// The statement that deletes the DNS metrics reported before `cutoff`.
pub fn cleanup_old_dns_metrics(cutoff: u64) -> (r: SqlStatement)
    ensures
        r.sql@ == DNS_CLEANUP_SQL@,
        r.params@ == seq![SqlValue::Int(cutoff as i64)],
{
    let params = vec![SqlValue::Int(cutoff as i64)];
    assert(params@ =~= seq![SqlValue::Int(cutoff as i64)]);
    SqlStatement { sql: String::from_str(DNS_CLEANUP_SQL), params }
}

} // verus!
