//! The text around the metric store's SQL: WHERE clauses of the DNS metric
//! queries with their parameters, domain normalisation, and the names of
//! the database files.
use vstd::prelude::*;
use vstd::string::{StrSliceExecFns, StringExecFns};

use crate::duid::string_push;

verus! {

/// `String::pop`: takes the last character off the string. std documents
/// that the string loses exactly that character.
#[verifier::external_body]
fn string_pop(s: &mut String) -> (r: Option<char>)
    ensures
        old(s)@.len() == 0 ==> r is None && final(s)@ == old(s)@,
        old(s)@.len() > 0 ==> r == Some(old(s)@.last()) && final(s)@ == old(s)@.drop_last(),
{
    s.pop()
}

/// The domain without the one trailing dot of its fully qualified form,
/// unless the dot is all there is.
pub open spec fn spec_normalize_domain(d: Seq<char>) -> Seq<char> {
    if d.len() > 1 && d.last() == '.' {
        d.drop_last()
    } else {
        d
    }
}

/// Drops the trailing dot of a fully qualified domain name.
pub fn normalize_domain(domain: &mut String)
    ensures
        final(domain)@ == spec_normalize_domain(old(domain)@),
{
    let n = domain.as_str().unicode_len();
    if n > 1 && domain.as_str().get_char(n - 1) == '.' {
        let _ = string_pop(domain);
    }
}

/// A value bound to a placeholder of a statement.
#[derive(Clone, Debug, PartialEq, Eq)]
pub enum SqlValue {
    Int(i64),
    Text(String),
}

/// A statement and the values of its placeholders, in order.
#[derive(Clone, Debug)]
pub struct SqlStatement {
    pub sql: String,
    pub params: Vec<SqlValue>,
}

/// The parts joined by `sep`.
pub open spec fn join_seq(parts: Seq<Seq<char>>, sep: Seq<char>) -> Seq<char>
    decreases parts.len(),
{
    if parts.len() == 0 {
        Seq::empty()
    } else if parts.len() == 1 {
        parts[0]
    } else {
        join_seq(parts.drop_last(), sep) + sep + parts.last()
    }
}

/// The views of a list of strings.
pub open spec fn string_views(v: Seq<String>) -> Seq<Seq<char>> {
    v.map_values(|s: String| s@)
}

/// Joins the strings with `sep` between them.
pub fn join_strings(parts: &[String], sep: &str) -> (r: String)
    ensures
        r@ == join_seq(string_views(parts@), sep@),
{
    let mut r = String::new();
    let mut i: usize = 0;
    while i < parts.len()
        invariant
            i <= parts@.len(),
            r@ == join_seq(string_views(parts@.take(i as int)), sep@),
        decreases parts@.len() - i,
    {
        let ghost before = string_views(parts@.take(i as int));
        let ghost after = string_views(parts@.take(i + 1));
        assert(after.drop_last() =~= before);
        assert(after.last() == parts@[i as int]@);
        if i > 0 {
            r.append(sep);
        }
        r.append(parts[i].as_str());
        i += 1;
    }
    assert(parts@.take(parts@.len() as int) =~= parts@);
    r
}

/// The WHERE clauses of a DNS metric query and their parameters, one
/// parameter per clause.
pub struct DnsWhereBuilder {
    pub clauses: Vec<String>,
    pub params: Vec<SqlValue>,
}

/// "WHERE " and the clauses joined by " AND ", or nothing without clauses.
pub open spec fn spec_where(clauses: Seq<Seq<char>>) -> Seq<char> {
    if clauses.len() == 0 {
        Seq::empty()
    } else {
        "WHERE "@ + join_seq(clauses, " AND "@)
    }
}

/// The WHERE clause with `extra` appended as one more condition.
pub open spec fn spec_where_extra(clauses: Seq<Seq<char>>, extra: Seq<char>) -> Seq<char> {
    if clauses.len() == 0 {
        "WHERE "@ + extra
    } else {
        "WHERE "@ + join_seq(clauses, " AND "@) + " AND "@ + extra
    }
}

impl DnsWhereBuilder {
    /// A builder with no clause.
    pub fn new() -> (r: Self)
        ensures
            r.clauses@.len() == 0,
            r.params@.len() == 0,
    {
        DnsWhereBuilder { clauses: Vec::new(), params: Vec::new() }
    }

    /// Adds a clause and the parameter of its placeholder.
    pub fn push_param(&mut self, clause: &str, value: SqlValue)
        ensures
            string_views(final(self).clauses@) == string_views(old(self).clauses@).push(clause@),
            final(self).params@ == old(self).params@.push(value),
    {
        let ghost before = string_views(self.clauses@);
        self.clauses.push(String::from_str(clause));
        self.params.push(value);
        assert(string_views(self.clauses@) =~= before.push(clause@));
    }

    /// The WHERE clause of the query: "WHERE " and the clauses joined by
    /// " AND ", or nothing without clauses.
    pub fn where_stmt(&self) -> (r: String)
        ensures
            r@ == spec_where(string_views(self.clauses@)),
    {
        if self.clauses.len() == 0 {
            String::new()
        } else {
            let mut r = String::from_str("WHERE ");
            let joined = join_strings(self.clauses.as_slice(), " AND ");
            r.append(joined.as_str());
            r
        }
    }

    /// The WHERE clause with one more condition at its end.
    pub fn where_stmt_with_extra(&self, extra_clause: &str) -> (r: String)
        ensures
            r@ == spec_where_extra(string_views(self.clauses@), extra_clause@),
    {
        let mut r = String::from_str("WHERE ");
        if self.clauses.len() > 0 {
            let joined = join_strings(self.clauses.as_slice(), " AND ");
            r.append(joined.as_str());
            r.append(" AND ");
        }
        r.append(extra_clause);
        r
    }

    /// The parameters, in the order of their clauses.
    pub fn param_refs(&self) -> (r: &[SqlValue])
        ensures
            r@ == self.params@,
    {
        self.params.as_slice()
    }
}

/// The connection URL of the hot SQLite store at `path`, created if missing.
pub fn sqlite_url(path: &str) -> (r: String)
    ensures
        r@ == "sqlite://"@ + path@ + "?mode=rwc"@,
{
    let mut r = String::from_str("sqlite://");
    r.append(path);
    r.append("?mode=rwc");
    r
}

/// The write-ahead log of the database at `db_path`.
pub fn metric_db_wal_path(db_path: &str) -> (r: String)
    ensures
        r@ == db_path@ + ".wal"@,
{
    let mut r = String::from_str(db_path);
    r.append(".wal");
    r
}

/// The files of the database at `db_path`: itself, its log and its
/// scratch file.
pub fn metric_db_sidecar_paths(db_path: &str) -> (r: Vec<String>)
    ensures
        r@.len() == 3,
        r@[0]@ == db_path@,
        r@[1]@ == db_path@ + ".wal"@,
        r@[2]@ == db_path@ + ".tmp"@,
{
    let mut tmp = String::from_str(db_path);
    tmp.append(".tmp");
    vec![String::from_str(db_path), metric_db_wal_path(db_path), tmp]
}

/// The paths, joined by ", " for a message.
pub fn join_display_paths(paths: &[String]) -> (r: String)
    ensures
        r@ == join_seq(string_views(paths@), ", "@),
{
    join_strings(paths, ", ")
}

/// A placeholder's value, as a value of the model.
pub enum SqlParamView {
    Int(i64),
    Text(Seq<char>),
}

pub open spec fn param_view(v: SqlValue) -> SqlParamView {
    match v {
        SqlValue::Int(i) => SqlParamView::Int(i),
        SqlValue::Text(t) => SqlParamView::Text(t@),
    }
}

/// The clauses of a builder, each with the value of its placeholder.
pub open spec fn filters_of(b: DnsWhereBuilder) -> Seq<(Seq<char>, SqlParamView)> {
    Seq::new(b.clauses@.len(), |i: int| (b.clauses@[i]@, param_view(b.params@[i])))
}

/// One filter where `present` holds, none otherwise.
pub open spec fn filter_when(present: bool, clause: Seq<char>, v: SqlParamView) -> Seq<
    (Seq<char>, SqlParamView),
> {
    if present {
        seq![(clause, v)]
    } else {
        Seq::empty()
    }
}

/// The column and direction by which DNS history rows are sorted.
#[derive(Clone, Copy, Debug, PartialEq, Eq, Structural)]
pub enum DnsSortKey {
    Time,
    Domain,
    Duration,
}

#[derive(Clone, Copy, Debug, PartialEq, Eq, Structural)]
pub enum SortOrder {
    Asc,
    Desc,
}

/// The filters, order and page of a DNS history query. `status` is a
/// result status as the store writes it (its JSON text, such as
/// `"block"` in quotes).
#[derive(Clone, Debug)]
pub struct DnsHistoryQueryParams {
    pub start_time: Option<u64>,
    pub end_time: Option<u64>,
    pub flow_id: Option<u32>,
    pub domain: Option<String>,
    pub src_ip: Option<String>,
    pub query_type: Option<String>,
    pub status: Option<String>,
    pub min_duration_ms: Option<u32>,
    pub max_duration_ms: Option<u32>,
    pub sort_key: Option<DnsSortKey>,
    pub sort_order: Option<SortOrder>,
    pub limit: Option<u64>,
    pub offset: Option<u64>,
}

/// The time span, and optionally the flow, of a DNS summary.
#[derive(Clone, Copy, Debug, PartialEq, Eq, Structural)]
pub struct DnsSummaryQueryParams {
    pub start_time: u64,
    pub end_time: u64,
    pub flow_id: Option<u32>,
}

/// A text filter is given where it is there and not empty.
pub open spec fn text_given(t: Option<String>) -> bool {
    t is Some && t->0@.len() > 0
}

/// `%text%`: a LIKE pattern matching any value that holds `text`.
pub open spec fn like_pattern(text: Seq<char>) -> Seq<char> {
    "%"@ + text + "%"@
}

/// The filters of a DNS history query, in order: time span, flow, domain
/// (without its trailing dot) and client as substrings, query type,
/// status, and duration span.
pub open spec fn history_filters(p: DnsHistoryQueryParams) -> Seq<(Seq<char>, SqlParamView)> {
    filter_when(p.start_time is Some, "report_time >= ?"@, SqlParamView::Int(p.start_time->0 as i64))
        + filter_when(
        p.end_time is Some,
        "report_time <= ?"@,
        SqlParamView::Int(p.end_time->0 as i64),
    ) + filter_when(p.flow_id is Some, "flow_id = ?"@, SqlParamView::Int(p.flow_id->0 as i64))
        + filter_when(
        text_given(p.domain),
        "domain LIKE ?"@,
        SqlParamView::Text(like_pattern(spec_normalize_domain(p.domain->0@))),
    ) + filter_when(
        text_given(p.src_ip),
        "src_ip LIKE ?"@,
        SqlParamView::Text(like_pattern(p.src_ip->0@)),
    ) + filter_when(
        text_given(p.query_type),
        "query_type = ?"@,
        SqlParamView::Text(p.query_type->0@),
    ) + filter_when(p.status is Some, "status = ?"@, SqlParamView::Text(p.status->0@))
        + filter_when(
        p.min_duration_ms is Some,
        "duration_ms >= ?"@,
        SqlParamView::Int(p.min_duration_ms->0 as i64),
    ) + filter_when(
        p.max_duration_ms is Some,
        "duration_ms <= ?"@,
        SqlParamView::Int(p.max_duration_ms->0 as i64),
    )
}

/// The filters of a DNS summary: its time span and, if given, its flow.
pub open spec fn summary_filters(p: DnsSummaryQueryParams) -> Seq<(Seq<char>, SqlParamView)> {
    seq![
        ("report_time >= ?"@, SqlParamView::Int(p.start_time as i64)),
        ("report_time <= ?"@, SqlParamView::Int(p.end_time as i64)),
    ] + filter_when(p.flow_id is Some, "flow_id = ?"@, SqlParamView::Int(p.flow_id->0 as i64))
}

/// `s` as the text that `s` holds.
fn text_of(s: &str) -> (r: String)
    ensures
        r@ == s@,
{
    String::from_str(s)
}

/// `%text%`.
fn like_of(text: &str) -> (r: String)
    ensures
        r@ == like_pattern(text@),
{
    let mut r = String::from_str("%");
    r.append(text);
    r.append("%");
    r
}

impl DnsWhereBuilder {
    /// Adds a clause and its value, keeping one value per clause.
    fn push_filter(&mut self, clause: &str, value: SqlValue)
        requires
            old(self).clauses@.len() == old(self).params@.len(),
        ensures
            final(self).clauses@.len() == final(self).params@.len(),
            filters_of(*final(self)) == filters_of(*old(self)).push((clause@, param_view(value))),
    {
        let ghost before = filters_of(*self);
        let ghost v = value;
        self.clauses.push(String::from_str(clause));
        self.params.push(value);
        proof {
            assert(filters_of(*self) =~= before.push((clause@, param_view(v))));
        }
    }

    /// Adds the clause with an integer value where `present` holds.
    fn push_int_when(&mut self, present: bool, clause: &str, v: i64)
        requires
            old(self).clauses@.len() == old(self).params@.len(),
        ensures
            final(self).clauses@.len() == final(self).params@.len(),
            filters_of(*final(self)) == filters_of(*old(self)) + filter_when(
                present,
                clause@,
                SqlParamView::Int(v),
            ),
    {
        let ghost before = filters_of(*self);
        if present {
            self.push_filter(clause, SqlValue::Int(v));
        }
        proof {
            assert(filters_of(*self) =~= before + filter_when(present, clause@, SqlParamView::Int(v)));
        }
    }

    /// Adds the clause with a text value where `present` holds.
    fn push_text_when(&mut self, present: bool, clause: &str, text: String)
        requires
            old(self).clauses@.len() == old(self).params@.len(),
        ensures
            final(self).clauses@.len() == final(self).params@.len(),
            filters_of(*final(self)) == filters_of(*old(self)) + filter_when(
                present,
                clause@,
                SqlParamView::Text(text@),
            ),
    {
        let ghost before = filters_of(*self);
        let ghost t = text@;
        if present {
            self.push_filter(clause, SqlValue::Text(text));
        }
        proof {
            assert(filters_of(*self) =~= before + filter_when(present, clause@, SqlParamView::Text(t)));
        }
    }

    /// The filters of a DNS summary; see `summary_filters`.
    pub fn from_summary_params(params: &DnsSummaryQueryParams) -> (r: Self)
        ensures
            r.clauses@.len() == r.params@.len(),
            filters_of(r) == summary_filters(*params),
    {
        let mut builder = Self::new();
        builder.push_filter("report_time >= ?", SqlValue::Int(params.start_time as i64));
        builder.push_filter("report_time <= ?", SqlValue::Int(params.end_time as i64));
        let ghost two = filters_of(builder);
        if let Some(flow_id) = params.flow_id {
            builder.push_filter("flow_id = ?", SqlValue::Int(flow_id as i64));
        }
        proof {
            assert(filters_of(builder) =~= summary_filters(*params));
        }
        builder
    }

    /// The filters of a DNS history query; see `history_filters`.
    pub fn from_history_params(params: &DnsHistoryQueryParams) -> (r: Self)
        ensures
            r.clauses@.len() == r.params@.len(),
            filters_of(r) == history_filters(*params),
    {
        let p = params;
        let mut b = Self::new();
        proof {
            assert(filters_of(b) =~= Seq::<(Seq<char>, SqlParamView)>::empty());
        }
        b.push_int_when(p.start_time.is_some(), "report_time >= ?", int_or_zero(p.start_time));
        b.push_int_when(p.end_time.is_some(), "report_time <= ?", int_or_zero(p.end_time));
        b.push_int_when(p.flow_id.is_some(), "flow_id = ?", small_int_or_zero(p.flow_id));
        let domain = match &p.domain {
            Some(d) => {
                let mut domain = text_of(d.as_str());
                normalize_domain(&mut domain);
                like_of(domain.as_str())
            },
            None => String::new(),
        };
        b.push_text_when(text_present(&p.domain), "domain LIKE ?", domain);
        let src_ip = match &p.src_ip {
            Some(ip) => like_of(ip.as_str()),
            None => String::new(),
        };
        b.push_text_when(text_present(&p.src_ip), "src_ip LIKE ?", src_ip);
        let query_type = match &p.query_type {
            Some(q) => text_of(q.as_str()),
            None => String::new(),
        };
        b.push_text_when(text_present(&p.query_type), "query_type = ?", query_type);
        let status = match &p.status {
            Some(st) => text_of(st.as_str()),
            None => String::new(),
        };
        b.push_text_when(p.status.is_some(), "status = ?", status);
        b.push_int_when(
            p.min_duration_ms.is_some(),
            "duration_ms >= ?",
            small_int_or_zero(p.min_duration_ms),
        );
        b.push_int_when(
            p.max_duration_ms.is_some(),
            "duration_ms <= ?",
            small_int_or_zero(p.max_duration_ms),
        );
        proof {
            let e = Seq::<(Seq<char>, SqlParamView)>::empty();
            assert(e + filter_when(
                p.start_time is Some,
                "report_time >= ?"@,
                SqlParamView::Int(p.start_time->0 as i64),
            ) =~= filter_when(
                p.start_time is Some,
                "report_time >= ?"@,
                SqlParamView::Int(p.start_time->0 as i64),
            ));
        }
        b
    }
}

/// The value as a signed 64-bit number (as the store keeps it), or zero.
fn int_or_zero(v: Option<u64>) -> (r: i64)
    ensures
        v is Some ==> r == v->0 as i64,
{
    match v {
        Some(x) => x as i64,
        None => 0,
    }
}

/// The value as a signed 64-bit number, or zero.
fn small_int_or_zero(v: Option<u32>) -> (r: i64)
    ensures
        v is Some ==> r == v->0 as i64,
{
    match v {
        Some(x) => x as i64,
        None => 0,
    }
}

/// The text is there and not empty.
fn text_present(t: &Option<String>) -> (r: bool)
    ensures
        r == text_given(*t),
{
    match t {
        Some(s) => s.as_str().unicode_len() > 0,
        None => false,
    }
}

/// The decimal digit `d`.
pub open spec fn digit_char(d: nat) -> char {
    if d == 0 {
        '0'
    } else if d == 1 {
        '1'
    } else if d == 2 {
        '2'
    } else if d == 3 {
        '3'
    } else if d == 4 {
        '4'
    } else if d == 5 {
        '5'
    } else if d == 6 {
        '6'
    } else if d == 7 {
        '7'
    } else if d == 8 {
        '8'
    } else {
        '9'
    }
}

/// `n` in decimal, without leading zeros.
pub open spec fn spec_decimal(n: nat) -> Seq<char>
    decreases n,
{
    if n < 10 {
        seq![digit_char(n)]
    } else {
        spec_decimal(n / 10).push(digit_char(n % 10))
    }
}

fn digit_of(d: u64) -> (c: char)
    requires
        d < 10,
    ensures
        c == digit_char(d as nat),
{
    if d == 0 {
        '0'
    } else if d == 1 {
        '1'
    } else if d == 2 {
        '2'
    } else if d == 3 {
        '3'
    } else if d == 4 {
        '4'
    } else if d == 5 {
        '5'
    } else if d == 6 {
        '6'
    } else if d == 7 {
        '7'
    } else if d == 8 {
        '8'
    } else {
        '9'
    }
}

/// Appends `n` in decimal.
pub fn push_decimal(s: &mut String, n: u64)
    ensures
        final(s)@ == old(s)@ + spec_decimal(n as nat),
    decreases n,
{
    if n >= 10 {
        push_decimal(s, n / 10);
    }
    string_push(s, digit_of(n % 10));
    proof {
        if n < 10 {
            assert(spec_decimal(n as nat) == seq![digit_char(n as nat)]);
        }
    }
}

/// The column that a sort key sorts by.
pub open spec fn sort_column(k: DnsSortKey) -> Seq<char> {
    match k {
        DnsSortKey::Time => "report_time"@,
        DnsSortKey::Domain => "domain"@,
        DnsSortKey::Duration => "duration_ms"@,
    }
}

pub open spec fn order_word(o: SortOrder) -> Seq<char> {
    match o {
        SortOrder::Asc => "ASC"@,
        SortOrder::Desc => "DESC"@,
    }
}

/// The ORDER BY of a DNS history query: by time unless another key is
/// given, newest first unless another order is given, and by time (newest
/// first) among rows equal in another key.
pub open spec fn history_order_by(k: Option<DnsSortKey>, o: Option<SortOrder>) -> Seq<char> {
    let key = match k {
        Some(k) => k,
        None => DnsSortKey::Time,
    };
    let order = match o {
        Some(o) => o,
        None => SortOrder::Desc,
    };
    if key == DnsSortKey::Time {
        sort_column(key) + " "@ + order_word(order)
    } else {
        sort_column(key) + " "@ + order_word(order) + ", report_time DESC"@
    }
}

pub fn dns_history_order_by(sort_key: Option<DnsSortKey>, sort_order: Option<SortOrder>) -> (r:
    String)
    ensures
        r@ == history_order_by(sort_key, sort_order),
{
    let key = match sort_key {
        Some(k) => k,
        None => DnsSortKey::Time,
    };
    let order = match sort_order {
        Some(o) => o,
        None => SortOrder::Desc,
    };
    let col = match key {
        DnsSortKey::Time => "report_time",
        DnsSortKey::Domain => "domain",
        DnsSortKey::Duration => "duration_ms",
    };
    let word = match order {
        SortOrder::Asc => "ASC",
        SortOrder::Desc => "DESC",
    };
    let mut r = String::from_str(col);
    r.append(" ");
    r.append(word);
    if key != DnsSortKey::Time {
        r.append(", report_time DESC");
    }
    r
}

/// The statements of a DNS history page: how many rows match, and the rows
/// of the page; both take `params` for their placeholders.
pub struct DnsHistoryStatements {
    pub count_sql: String,
    pub query_sql: String,
    pub params: Vec<SqlValue>,
}

/// The clauses of a list of filters.
pub open spec fn clauses_of(f: Seq<(Seq<char>, SqlParamView)>) -> Seq<Seq<char>> {
    f.map_values(|c: (Seq<char>, SqlParamView)| c.0)
}

/// The values of a list of filters.
pub open spec fn values_of(f: Seq<(Seq<char>, SqlParamView)>) -> Seq<SqlParamView> {
    f.map_values(|c: (Seq<char>, SqlParamView)| c.1)
}

/// The query of one page of DNS history rows.
pub open spec fn history_query_text(where_stmt: Seq<char>, order_by: Seq<char>, limit: u64, offset: u64) -> Seq<char> {
    "\n        SELECT\n            flow_id, domain, query_type, response_code, report_time, duration_ms, src_ip, answers, status\n        FROM dns_metrics\n        "@
        + where_stmt + "\n        ORDER BY "@ + order_by + "\n        LIMIT "@ + spec_decimal(
        limit as nat,
    ) + " OFFSET "@ + spec_decimal(offset as nat) + "\n    "@
}

proof fn lemma_where_of_filters(b: DnsWhereBuilder)
    requires
        b.clauses@.len() == b.params@.len(),
    ensures
        string_views(b.clauses@) == clauses_of(filters_of(b)),
        b.params@.map_values(|v: SqlValue| param_view(v)) == values_of(filters_of(b)),
{
    assert(string_views(b.clauses@) =~= clauses_of(filters_of(b)));
    assert(b.params@.map_values(|v: SqlValue| param_view(v)) =~= values_of(filters_of(b)));
}

/// The statements of a DNS history page: the rows matching the filters of
/// `params`, counted, and the page of them (twenty from the first unless
/// given) in the order that `params` asks for.
pub fn dns_history_statements(params: &DnsHistoryQueryParams) -> (r: DnsHistoryStatements)
    ensures
        ({
            let w = spec_where(clauses_of(history_filters(*params)));
            let limit = match params.limit {
                Some(l) => l,
                None => 20,
            };
            let offset = match params.offset {
                Some(o) => o,
                None => 0,
            };
            &&& r.count_sql@ == "SELECT COUNT(*) FROM dns_metrics "@ + w
            &&& r.query_sql@ == history_query_text(
                w,
                history_order_by(params.sort_key, params.sort_order),
                limit,
                offset,
            )
            &&& r.params@.map_values(|v: SqlValue| param_view(v)) == values_of(
                history_filters(*params),
            )
        }),
{
    let builder = DnsWhereBuilder::from_history_params(params);
    proof {
        lemma_where_of_filters(builder);
    }
    let where_stmt = builder.where_stmt();
    let mut count_sql = String::from_str("SELECT COUNT(*) FROM dns_metrics ");
    count_sql.append(where_stmt.as_str());
    let order_by = dns_history_order_by(params.sort_key, params.sort_order);
    let limit = match params.limit {
        Some(l) => l,
        None => 20,
    };
    let offset = match params.offset {
        Some(o) => o,
        None => 0,
    };
    let mut q = String::from_str(
        "\n        SELECT\n            flow_id, domain, query_type, response_code, report_time, duration_ms, src_ip, answers, status\n        FROM dns_metrics\n        ",
    );
    q.append(where_stmt.as_str());
    q.append("\n        ORDER BY ");
    q.append(order_by.as_str());
    q.append("\n        LIMIT ");
    push_decimal(&mut q, limit);
    q.append(" OFFSET ");
    push_decimal(&mut q, offset);
    q.append("\n    ");
    DnsHistoryStatements { count_sql, query_sql: q, params: builder.params }
}

/// The statements of a DNS summary, all over the same filters: the counts
/// and latencies, the ten busiest clients, the ten most asked domains, the
/// ten most blocked domains, and the ten slowest domains (asked more than
/// twice).
pub struct DnsSummaryStatements {
    pub stats_sql: String,
    pub top_clients_sql: String,
    pub top_domains_sql: String,
    pub top_blocked_sql: String,
    pub slowest_sql: String,
    pub params: Vec<SqlValue>,
}

/// The counts and latencies of a DNS summary over `where_stmt`.
pub open spec fn summary_stats_text(where_stmt: Seq<char>) -> Seq<char> {
    "SELECT
            COUNT(*),
            COUNT(CASE WHEN status = '\"hit\"' THEN 1 END),
            COUNT(CASE WHEN status NOT IN ('\"block\"', '\"filter\"', '\"error\"') THEN 1 END),
            COUNT(CASE WHEN query_type = 'A' AND status NOT IN ('\"block\"', '\"filter\"', '\"error\"') THEN 1 END),
            COUNT(CASE WHEN query_type = 'A' AND status = '\"hit\"' THEN 1 END),
            COUNT(CASE WHEN query_type = 'AAAA' AND status NOT IN ('\"block\"', '\"filter\"', '\"error\"') THEN 1 END),
            COUNT(CASE WHEN query_type = 'AAAA' AND status = '\"hit\"' THEN 1 END),
            COUNT(CASE WHEN query_type NOT IN ('A', 'AAAA') AND status NOT IN ('\"block\"', '\"filter\"', '\"error\"') THEN 1 END),
            COUNT(CASE WHEN query_type NOT IN ('A', 'AAAA') AND status = '\"hit\"' THEN 1 END),
            COUNT(CASE WHEN status = '\"block\"' THEN 1 END),
            COUNT(CASE WHEN status = '\"filter\"' THEN 1 END),
            COUNT(CASE WHEN status = '\"nxdomain\"' THEN 1 END),
            COUNT(CASE WHEN status = '\"error\"' THEN 1 END),
            AVG(CASE WHEN status NOT IN ('\"block\"', '\"filter\"', '\"error\"', '\"local\"', '\"hit\"') THEN duration_ms END),
            percentile_cont(0.5) WITHIN GROUP (ORDER BY CASE WHEN status NOT IN ('\"block\"', '\"filter\"', '\"error\"', '\"local\"', '\"hit\"') THEN duration_ms END),
            percentile_cont(0.95) WITHIN GROUP (ORDER BY CASE WHEN status NOT IN ('\"block\"', '\"filter\"', '\"error\"', '\"local\"', '\"hit\"') THEN duration_ms END),
            percentile_cont(0.99) WITHIN GROUP (ORDER BY CASE WHEN status NOT IN ('\"block\"', '\"filter\"', '\"error\"', '\"local\"', '\"hit\"') THEN duration_ms END),
            MAX(CASE WHEN status NOT IN ('\"block\"', '\"filter\"', '\"error\"', '\"local\"', '\"hit\"') THEN duration_ms END)
        FROM dns_metrics "@ + where_stmt
}

pub fn dns_summary_statements(params: &DnsSummaryQueryParams) -> (r: DnsSummaryStatements)
    ensures
        ({
            let c = clauses_of(summary_filters(*params));
            let w = spec_where(c);
            &&& r.stats_sql@ == summary_stats_text(w)
            &&& r.top_clients_sql@ == "SELECT src_ip, COUNT(*) as c FROM dns_metrics "@ + w
                + " GROUP BY src_ip ORDER BY c DESC LIMIT 10"@
            &&& r.top_domains_sql@ == "SELECT domain, COUNT(*) as c FROM dns_metrics "@ + w
                + " GROUP BY domain ORDER BY c DESC LIMIT 10"@
            &&& r.top_blocked_sql@ == "SELECT domain, COUNT(*) as c FROM dns_metrics "@
                + spec_where_extra(c, "status = '\"block\"'"@)
                + " GROUP BY domain ORDER BY c DESC LIMIT 10"@
            &&& r.slowest_sql@ == "SELECT domain, AVG(duration_ms) as avg_d, COUNT(*) as c FROM dns_metrics "@
                + w + " GROUP BY domain HAVING c > 2 ORDER BY avg_d DESC LIMIT 10"@
            &&& r.params@.map_values(|v: SqlValue| param_view(v)) == values_of(
                summary_filters(*params),
            )
        }),
{
    let builder = DnsWhereBuilder::from_summary_params(params);
    proof {
        lemma_where_of_filters(builder);
    }
    let where_stmt = builder.where_stmt();
    let where_blocked = builder.where_stmt_with_extra("status = '\"block\"'");
    let mut stats_sql = String::from_str("SELECT
            COUNT(*),
            COUNT(CASE WHEN status = '\"hit\"' THEN 1 END),
            COUNT(CASE WHEN status NOT IN ('\"block\"', '\"filter\"', '\"error\"') THEN 1 END),
            COUNT(CASE WHEN query_type = 'A' AND status NOT IN ('\"block\"', '\"filter\"', '\"error\"') THEN 1 END),
            COUNT(CASE WHEN query_type = 'A' AND status = '\"hit\"' THEN 1 END),
            COUNT(CASE WHEN query_type = 'AAAA' AND status NOT IN ('\"block\"', '\"filter\"', '\"error\"') THEN 1 END),
            COUNT(CASE WHEN query_type = 'AAAA' AND status = '\"hit\"' THEN 1 END),
            COUNT(CASE WHEN query_type NOT IN ('A', 'AAAA') AND status NOT IN ('\"block\"', '\"filter\"', '\"error\"') THEN 1 END),
            COUNT(CASE WHEN query_type NOT IN ('A', 'AAAA') AND status = '\"hit\"' THEN 1 END),
            COUNT(CASE WHEN status = '\"block\"' THEN 1 END),
            COUNT(CASE WHEN status = '\"filter\"' THEN 1 END),
            COUNT(CASE WHEN status = '\"nxdomain\"' THEN 1 END),
            COUNT(CASE WHEN status = '\"error\"' THEN 1 END),
            AVG(CASE WHEN status NOT IN ('\"block\"', '\"filter\"', '\"error\"', '\"local\"', '\"hit\"') THEN duration_ms END),
            percentile_cont(0.5) WITHIN GROUP (ORDER BY CASE WHEN status NOT IN ('\"block\"', '\"filter\"', '\"error\"', '\"local\"', '\"hit\"') THEN duration_ms END),
            percentile_cont(0.95) WITHIN GROUP (ORDER BY CASE WHEN status NOT IN ('\"block\"', '\"filter\"', '\"error\"', '\"local\"', '\"hit\"') THEN duration_ms END),
            percentile_cont(0.99) WITHIN GROUP (ORDER BY CASE WHEN status NOT IN ('\"block\"', '\"filter\"', '\"error\"', '\"local\"', '\"hit\"') THEN duration_ms END),
            MAX(CASE WHEN status NOT IN ('\"block\"', '\"filter\"', '\"error\"', '\"local\"', '\"hit\"') THEN duration_ms END)
        FROM dns_metrics ");
    stats_sql.append(where_stmt.as_str());
    let mut top_clients_sql = String::from_str("SELECT src_ip, COUNT(*) as c FROM dns_metrics ");
    top_clients_sql.append(where_stmt.as_str());
    top_clients_sql.append(" GROUP BY src_ip ORDER BY c DESC LIMIT 10");
    let mut top_domains_sql = String::from_str("SELECT domain, COUNT(*) as c FROM dns_metrics ");
    top_domains_sql.append(where_stmt.as_str());
    top_domains_sql.append(" GROUP BY domain ORDER BY c DESC LIMIT 10");
    let mut top_blocked_sql = String::from_str("SELECT domain, COUNT(*) as c FROM dns_metrics ");
    top_blocked_sql.append(where_blocked.as_str());
    top_blocked_sql.append(" GROUP BY domain ORDER BY c DESC LIMIT 10");
    let mut slowest_sql = String::from_str(
        "SELECT domain, AVG(duration_ms) as avg_d, COUNT(*) as c FROM dns_metrics ",
    );
    slowest_sql.append(where_stmt.as_str());
    slowest_sql.append(" GROUP BY domain HAVING c > 2 ORDER BY avg_d DESC LIMIT 10");
    DnsSummaryStatements {
        stats_sql,
        top_clients_sql,
        top_domains_sql,
        top_blocked_sql,
        slowest_sql,
        params: builder.params,
    }
}

/// The column by which connection history rows are sorted.
#[derive(Clone, Copy, Debug, PartialEq, Eq, Structural)]
pub enum ConnectSortKey {
    Port,
    Ingress,
    Egress,
    Time,
    Duration,
}

/// The filters, order and length of a connection history query.
#[derive(Clone, Debug)]
pub struct ConnectHistoryQueryParams {
    pub start_time: Option<u64>,
    pub end_time: Option<u64>,
    pub src_ip: Option<String>,
    pub dst_ip: Option<String>,
    pub flow_id: Option<u8>,
    pub port_start: Option<u16>,
    pub port_end: Option<u16>,
    pub l3_proto: Option<u8>,
    pub l4_proto: Option<u8>,
    pub status: Option<u8>,
    pub gress: Option<u8>,
    pub sort_key: Option<ConnectSortKey>,
    pub sort_order: Option<SortOrder>,
    pub limit: Option<u64>,
}

/// The filters that every connection history query applies: the span of
/// last reports, the addresses as substrings, and the flow.
pub open spec fn connect_common_filters(p: ConnectHistoryQueryParams) -> Seq<(Seq<char>, SqlParamView)> {
    filter_when(
        p.start_time is Some,
        "last_report_time >= ?"@,
        SqlParamView::Int(p.start_time->0 as i64),
    ) + filter_when(
        p.end_time is Some,
        "last_report_time <= ?"@,
        SqlParamView::Int(p.end_time->0 as i64),
    ) + filter_when(
        text_given(p.src_ip),
        "src_ip LIKE ?"@,
        SqlParamView::Text(like_pattern(p.src_ip->0@)),
    ) + filter_when(
        text_given(p.dst_ip),
        "dst_ip LIKE ?"@,
        SqlParamView::Text(like_pattern(p.dst_ip->0@)),
    ) + filter_when(p.flow_id is Some, "flow_id = ?"@, SqlParamView::Int(p.flow_id->0 as i64))
}

/// The port and protocol filters of a connection list.
pub open spec fn connect_port_filters(p: ConnectHistoryQueryParams) -> Seq<(Seq<char>, SqlParamView)> {
    filter_when(p.port_start is Some, "src_port = ?"@, SqlParamView::Int(p.port_start->0 as i64))
        + filter_when(
        p.port_end is Some,
        "dst_port = ?"@,
        SqlParamView::Int(p.port_end->0 as i64),
    ) + filter_when(p.l3_proto is Some, "l3_proto = ?"@, SqlParamView::Int(p.l3_proto->0 as i64))
        + filter_when(p.l4_proto is Some, "l4_proto = ?"@, SqlParamView::Int(p.l4_proto->0 as i64))
}

/// The status and direction filters of a connection list.
pub open spec fn connect_state_filters(p: ConnectHistoryQueryParams) -> Seq<(Seq<char>, SqlParamView)> {
    filter_when(p.status is Some, "status = ?"@, SqlParamView::Int(p.status->0 as i64))
        + filter_when(p.gress is Some, "gress = ?"@, SqlParamView::Int(p.gress->0 as i64))
}

/// The further filters of a connection list: ports, protocols, status and
/// direction.
pub open spec fn connect_summary_filters(p: ConnectHistoryQueryParams) -> Seq<(Seq<char>, SqlParamView)> {
    connect_port_filters(p) + connect_state_filters(p)
}

fn byte_or_zero(v: Option<u8>) -> (r: i64)
    ensures
        v is Some ==> r == v->0 as i64,
{
    match v {
        Some(x) => x as i64,
        None => 0,
    }
}

fn port_or_zero(v: Option<u16>) -> (r: i64)
    ensures
        v is Some ==> r == v->0 as i64,
{
    match v {
        Some(x) => x as i64,
        None => 0,
    }
}

fn like_or_empty(t: &Option<String>) -> (r: String)
    ensures
        t is Some ==> r@ == like_pattern(t->0@),
{
    match t {
        Some(x) => like_of(x.as_str()),
        None => String::new(),
    }
}

impl DnsWhereBuilder {
    /// Adds the filters that every connection history query applies; see
    /// `connect_common_filters`.
    pub fn push_connect_common_filters(&mut self, params: &ConnectHistoryQueryParams)
        requires
            old(self).clauses@.len() == old(self).params@.len(),
        ensures
            final(self).clauses@.len() == final(self).params@.len(),
            filters_of(*final(self)) == filters_of(*old(self)) + connect_common_filters(*params),
    {
        let p = params;
        let ghost f0 = filters_of(*self);
        self.push_int_when(p.start_time.is_some(), "last_report_time >= ?", int_or_zero(p.start_time));
        self.push_int_when(p.end_time.is_some(), "last_report_time <= ?", int_or_zero(p.end_time));
        self.push_text_when(text_present(&p.src_ip), "src_ip LIKE ?", like_or_empty(&p.src_ip));
        self.push_text_when(text_present(&p.dst_ip), "dst_ip LIKE ?", like_or_empty(&p.dst_ip));
        self.push_int_when(p.flow_id.is_some(), "flow_id = ?", byte_or_zero(p.flow_id));
        proof {
            assert(filters_of(*self) =~= f0 + connect_common_filters(*p));
        }
    }

    fn push_connect_port_filters(&mut self, params: &ConnectHistoryQueryParams)
        requires
            old(self).clauses@.len() == old(self).params@.len(),
        ensures
            final(self).clauses@.len() == final(self).params@.len(),
            filters_of(*final(self)) == filters_of(*old(self)) + connect_port_filters(*params),
    {
        let p = params;
        let ghost f0 = filters_of(*self);
        self.push_int_when(p.port_start.is_some(), "src_port = ?", port_or_zero(p.port_start));
        self.push_int_when(p.port_end.is_some(), "dst_port = ?", port_or_zero(p.port_end));
        self.push_int_when(p.l3_proto.is_some(), "l3_proto = ?", byte_or_zero(p.l3_proto));
        self.push_int_when(p.l4_proto.is_some(), "l4_proto = ?", byte_or_zero(p.l4_proto));
        proof {
            assert(filters_of(*self) =~= f0 + connect_port_filters(*p));
        }
    }

    fn push_connect_state_filters(&mut self, params: &ConnectHistoryQueryParams)
        requires
            old(self).clauses@.len() == old(self).params@.len(),
        ensures
            final(self).clauses@.len() == final(self).params@.len(),
            filters_of(*final(self)) == filters_of(*old(self)) + connect_state_filters(*params),
    {
        let p = params;
        let ghost f0 = filters_of(*self);
        self.push_int_when(p.status.is_some(), "status = ?", byte_or_zero(p.status));
        self.push_int_when(p.gress.is_some(), "gress = ?", byte_or_zero(p.gress));
        proof {
            assert(filters_of(*self) =~= f0 + connect_state_filters(*p));
        }
    }

    /// Adds the further filters of a connection list; see
    /// `connect_summary_filters`.
    pub fn push_connect_summary_filters(&mut self, params: &ConnectHistoryQueryParams)
        requires
            old(self).clauses@.len() == old(self).params@.len(),
        ensures
            final(self).clauses@.len() == final(self).params@.len(),
            filters_of(*final(self)) == filters_of(*old(self)) + connect_summary_filters(*params),
    {
        let ghost f0 = filters_of(*self);
        self.push_connect_port_filters(params);
        self.push_connect_state_filters(params);
        proof {
            assert(filters_of(*self) =~= f0 + connect_summary_filters(*params));
        }
    }
}

/// The WHERE part of a connection query: nothing without filters, else a
/// space, "WHERE " and the clauses joined by " AND ".
pub open spec fn connect_where(f: Seq<(Seq<char>, SqlParamView)>) -> Seq<char> {
    if f.len() == 0 {
        Seq::empty()
    } else {
        " "@ + spec_where(clauses_of(f))
    }
}

/// The column that a connection sort key sorts by.
pub open spec fn connect_sort_column(k: ConnectSortKey) -> Seq<char> {
    match k {
        ConnectSortKey::Port => "src_port"@,
        ConnectSortKey::Ingress => "total_ingress_bytes"@,
        ConnectSortKey::Egress => "total_egress_bytes"@,
        ConnectSortKey::Time => "last_report_time"@,
        ConnectSortKey::Duration => "(last_report_time - create_time_ms)"@,
    }
}

fn connect_sort_col(k: ConnectSortKey) -> (r: &'static str)
    ensures
        r@ == connect_sort_column(k),
{
    match k {
        ConnectSortKey::Port => "src_port",
        ConnectSortKey::Ingress => "total_ingress_bytes",
        ConnectSortKey::Egress => "total_egress_bytes",
        ConnectSortKey::Time => "last_report_time",
        ConnectSortKey::Duration => "(last_report_time - create_time_ms)",
    }
}

fn order_text(o: SortOrder) -> (r: &'static str)
    ensures
        r@ == order_word(o),
{
    match o {
        SortOrder::Asc => "ASC",
        SortOrder::Desc => "DESC",
    }
}

/// The query of a connection list.
pub open spec fn connect_history_text(p: ConnectHistoryQueryParams) -> Seq<char> {
    let key = match p.sort_key {
        Some(k) => k,
        None => ConnectSortKey::Time,
    };
    let order = match p.sort_order {
        Some(o) => o,
        None => SortOrder::Desc,
    };
    "SELECT
            create_time, cpu_id, src_ip, dst_ip, src_port, dst_port, l4_proto, l3_proto, flow_id, trace_id,
            total_ingress_bytes, total_egress_bytes, total_ingress_pkts, total_egress_pkts, last_report_time, status, create_time_ms, gress
        FROM conn_summaries"@ + connect_where(connect_common_filters(p) + connect_summary_filters(p))
        + " ORDER BY "@ + connect_sort_column(key) + " "@ + order_word(order) + match p.limit {
        Some(l) => " LIMIT "@ + spec_decimal(l as nat),
        None => Seq::empty(),
    }
}

/// Appends the WHERE part of a connection query.
fn append_connect_where(q: &mut String, b: &DnsWhereBuilder)
    requires
        b.clauses@.len() == b.params@.len(),
    ensures
        final(q)@ == old(q)@ + connect_where(filters_of(*b)),
{
    proof {
        lemma_where_of_filters(*b);
    }
    if b.clauses.len() > 0 {
        q.append(" ");
        let w = b.where_stmt();
        q.append(w.as_str());
    } else {
        proof {
            assert(old(q)@ + connect_where(filters_of(*b)) =~= old(q)@);
        }
    }
}

/// The list of past connections matching the filters of `params`, in the
/// order it asks for (newest report first unless given), as many as its
/// limit where it gives one.
pub fn connect_history_statement(params: &ConnectHistoryQueryParams) -> (r: SqlStatement)
    ensures
        r.sql@ == connect_history_text(*params),
        r.params@.map_values(|v: SqlValue| param_view(v)) == values_of(
            connect_common_filters(*params) + connect_summary_filters(*params),
        ),
{
    let mut b = DnsWhereBuilder::new();
    proof {
        assert(filters_of(b) =~= Seq::<(Seq<char>, SqlParamView)>::empty());
    }
    b.push_connect_common_filters(params);
    b.push_connect_summary_filters(params);
    proof {
        assert(filters_of(b) =~= connect_common_filters(*params) + connect_summary_filters(*params));
        lemma_where_of_filters(b);
    }
    let key = match params.sort_key {
        Some(k) => k,
        None => ConnectSortKey::Time,
    };
    let order = match params.sort_order {
        Some(o) => o,
        None => SortOrder::Desc,
    };
    let mut q = String::from_str("SELECT
            create_time, cpu_id, src_ip, dst_ip, src_port, dst_port, l4_proto, l3_proto, flow_id, trace_id,
            total_ingress_bytes, total_egress_bytes, total_ingress_pkts, total_egress_pkts, last_report_time, status, create_time_ms, gress
        FROM conn_summaries");
    append_connect_where(&mut q, &b);
    q.append(" ORDER BY ");
    q.append(connect_sort_col(key));
    q.append(" ");
    q.append(order_text(order));
    match params.limit {
        Some(l) => {
            q.append(" LIMIT ");
            push_decimal(&mut q, l);
        },
        None => {},
    }
    SqlStatement { sql: q, params: b.params }
}

/// The column that a per-address history sorts by: egress where asked,
/// else ingress.
pub open spec fn ip_sort_column(k: Option<ConnectSortKey>) -> Seq<char> {
    if k == Some(ConnectSortKey::Egress) {
        "total_egress_bytes"@
    } else {
        "total_ingress_bytes"@
    }
}

/// The per-address totals of past connections.
pub open spec fn ip_history_text(p: ConnectHistoryQueryParams, is_src: bool) -> Seq<char> {
    let order = match p.sort_order {
        Some(o) => o,
        None => SortOrder::Desc,
    };
    "SELECT
            "@ + (if is_src {
        "src_ip"@
    } else {
        "dst_ip"@
    }) + ",
            SUM(total_ingress_bytes) AS total_ingress_bytes,
            SUM(total_egress_bytes) AS total_egress_bytes,
            SUM(total_ingress_pkts) AS total_ingress_pkts,
            SUM(total_egress_pkts) AS total_egress_pkts,
            COUNT(*) AS connect_count
        FROM conn_summaries"@ + connect_where(connect_common_filters(p)) + " GROUP BY 1 ORDER BY "@
        + ip_sort_column(p.sort_key) + " "@ + order_word(order) + " LIMIT "@ + spec_decimal(
        (match p.limit {
            Some(l) => l,
            None => 10,
        }) as nat,
    )
}

/// The totals of past connections per source (or destination) address,
/// over the common filters of `params`, the largest first unless asked
/// otherwise, ten unless another limit is given.
pub fn connect_ip_history_statement(params: &ConnectHistoryQueryParams, is_src: bool) -> (r:
    SqlStatement)
    ensures
        r.sql@ == ip_history_text(*params, is_src),
        r.params@.map_values(|v: SqlValue| param_view(v)) == values_of(
            connect_common_filters(*params),
        ),
{
    let mut b = DnsWhereBuilder::new();
    proof {
        assert(filters_of(b) =~= Seq::<(Seq<char>, SqlParamView)>::empty());
    }
    b.push_connect_common_filters(params);
    proof {
        assert(filters_of(b) =~= connect_common_filters(*params));
        lemma_where_of_filters(b);
    }
    let column = if is_src {
        "src_ip"
    } else {
        "dst_ip"
    };
    let col = match params.sort_key {
        Some(ConnectSortKey::Egress) => "total_egress_bytes",
        _ => "total_ingress_bytes",
    };
    let order = match params.sort_order {
        Some(o) => o,
        None => SortOrder::Desc,
    };
    let limit = match params.limit {
        Some(l) => l,
        None => 10,
    };
    let mut q = String::from_str("SELECT
            ");
    q.append(column);
    q.append(",
            SUM(total_ingress_bytes) AS total_ingress_bytes,
            SUM(total_egress_bytes) AS total_egress_bytes,
            SUM(total_ingress_pkts) AS total_ingress_pkts,
            SUM(total_egress_pkts) AS total_egress_pkts,
            COUNT(*) AS connect_count
        FROM conn_summaries");
    append_connect_where(&mut q, &b);
    q.append(" GROUP BY 1 ORDER BY ");
    q.append(col);
    q.append(" ");
    q.append(order_text(order));
    q.append(" LIMIT ");
    push_decimal(&mut q, limit);
    SqlStatement { sql: q, params: b.params }
}

/// The statement of a lightweight DNS summary: the counts and latencies
/// over the summary's filters, without the top lists.
pub fn dns_lightweight_summary_statement(params: &DnsSummaryQueryParams) -> (r: SqlStatement)
    ensures
        r.sql@ == summary_stats_text(spec_where(clauses_of(summary_filters(*params)))),
        r.params@.map_values(|v: SqlValue| param_view(v)) == values_of(summary_filters(*params)),
{
    let builder = DnsWhereBuilder::from_summary_params(params);
    proof {
        lemma_where_of_filters(builder);
    }
    let where_stmt = builder.where_stmt();
    let mut sql = String::from_str("SELECT
            COUNT(*),
            COUNT(CASE WHEN status = '\"hit\"' THEN 1 END),
            COUNT(CASE WHEN status NOT IN ('\"block\"', '\"filter\"', '\"error\"') THEN 1 END),
            COUNT(CASE WHEN query_type = 'A' AND status NOT IN ('\"block\"', '\"filter\"', '\"error\"') THEN 1 END),
            COUNT(CASE WHEN query_type = 'A' AND status = '\"hit\"' THEN 1 END),
            COUNT(CASE WHEN query_type = 'AAAA' AND status NOT IN ('\"block\"', '\"filter\"', '\"error\"') THEN 1 END),
            COUNT(CASE WHEN query_type = 'AAAA' AND status = '\"hit\"' THEN 1 END),
            COUNT(CASE WHEN query_type NOT IN ('A', 'AAAA') AND status NOT IN ('\"block\"', '\"filter\"', '\"error\"') THEN 1 END),
            COUNT(CASE WHEN query_type NOT IN ('A', 'AAAA') AND status = '\"hit\"' THEN 1 END),
            COUNT(CASE WHEN status = '\"block\"' THEN 1 END),
            COUNT(CASE WHEN status = '\"filter\"' THEN 1 END),
            COUNT(CASE WHEN status = '\"nxdomain\"' THEN 1 END),
            COUNT(CASE WHEN status = '\"error\"' THEN 1 END),
            AVG(CASE WHEN status NOT IN ('\"block\"', '\"filter\"', '\"error\"', '\"local\"', '\"hit\"') THEN duration_ms END),
            percentile_cont(0.5) WITHIN GROUP (ORDER BY CASE WHEN status NOT IN ('\"block\"', '\"filter\"', '\"error\"', '\"local\"', '\"hit\"') THEN duration_ms END),
            percentile_cont(0.95) WITHIN GROUP (ORDER BY CASE WHEN status NOT IN ('\"block\"', '\"filter\"', '\"error\"', '\"local\"', '\"hit\"') THEN duration_ms END),
            percentile_cont(0.99) WITHIN GROUP (ORDER BY CASE WHEN status NOT IN ('\"block\"', '\"filter\"', '\"error\"', '\"local\"', '\"hit\"') THEN duration_ms END),
            MAX(CASE WHEN status NOT IN ('\"block\"', '\"filter\"', '\"error\"', '\"local\"', '\"hit\"') THEN duration_ms END)
        FROM dns_metrics ");
    sql.append(where_stmt.as_str());
    SqlStatement { sql, params: builder.params }
}

} // verus!
