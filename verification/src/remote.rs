//! The query sent to the remote column store for a filtered event search: every filter the
//! query sets becomes a condition on the `events` table, with quotes in values doubled.
use vstd::prelude::*;
use crate::calendar::{spec_utc_second_text, utc_second_text};
use crate::event::ov;
use crate::hybrid::{parse_any_date, spec_parse_any_date};
use crate::parquet_search::{quote_sql, sql_quoted};
use crate::store::EventQuery;
use crate::text::{concat, decimal_chars, owned, u64_to_string};

verus! {

/// ` AND <column> = '<value>'` for a filter that is set, nothing otherwise.
pub open spec fn equal_condition(column: Seq<char>, value: Option<Seq<char>>) -> Seq<char> {
    match value {
        Some(v) => " AND "@ + column + " = '"@ + sql_quoted(v) + "'"@,
        None => Seq::empty(),
    }
}

/// ` AND ingest_time <op> '<second>'` for a bound that is set and reads as a date, with the
/// point written to the second in UTC; nothing otherwise.
pub open spec fn bound_condition(op: Seq<char>, value: Option<Seq<char>>) -> Seq<char> {
    match value {
        Some(text) => match spec_parse_any_date(text) {
            Some((s, n)) => match spec_utc_second_text(s, n) {
                Some(second) => " AND ingest_time "@ + op + " '"@ + second + "'"@,
                None => Seq::empty(),
            },
            None => Seq::empty(),
        },
        None => Seq::empty(),
    }
}

/// The keyword condition: the keyword inside the raw line or inside the parse error.
pub open spec fn keyword_condition(value: Option<Seq<char>>) -> Seq<char> {
    match value {
        Some(k) => " AND (raw LIKE '%"@ + sql_quoted(k) + "%' OR parse_error LIKE '%"@
            + sql_quoted(k) + "%')"@,
        None => Seq::empty(),
    }
}

/// The remote query for `q`, newest first and at most `limit` rows. Failed lines are left out
/// unless the query includes them.
pub open spec fn spec_remote_query_sql(q: EventQuery, limit: nat) -> Seq<char> {
    "SELECT * FROM events WHERE 1=1"@
        + equal_condition("toDate(ingest_time)"@, ov(q.day))
        + bound_condition(">="@, ov(q.date_from))
        + bound_condition("<="@, ov(q.date_to))
        + equal_condition("src_ip"@, ov(q.src_ip))
        + equal_condition("dst_ip"@, ov(q.dst_ip))
        + equal_condition("protocol"@, ov(q.protocol))
        + equal_condition("action"@, ov(q.action))
        + equal_condition("device_id"@, ov(q.device_id))
        + keyword_condition(ov(q.keyword))
        + (if q.include_failed {
            Seq::empty()
        } else {
            " AND parse_status = 'parsed'"@
        })
        + " ORDER BY ingest_time DESC LIMIT "@ + decimal_chars(limit)
}

fn equal_text(column: &str, value: &Option<String>) -> (r: String)
    ensures
        r@ == equal_condition(column@, ov(*value)),
{
    match value {
        Some(v) => {
            let a = concat(" AND ", column);
            let b = concat(a.as_str(), " = '");
            let quoted = quote_sql(v.as_str());
            let c = concat(b.as_str(), quoted.as_str());
            concat(c.as_str(), "'")
        },
        None => String::new(),
    }
}

fn bound_text(op: &str, value: &Option<String>) -> (r: String)
    ensures
        r@ == bound_condition(op@, ov(*value)),
{
    match value {
        Some(text) => match parse_any_date(text.as_str()) {
            Some(t) => match utc_second_text(t) {
                Some(second) => {
                    let a = concat(" AND ingest_time ", op);
                    let b = concat(a.as_str(), " '");
                    let c = concat(b.as_str(), second.as_str());
                    concat(c.as_str(), "'")
                },
                None => String::new(),
            },
            None => String::new(),
        },
        None => String::new(),
    }
}

fn keyword_text(value: &Option<String>) -> (r: String)
    ensures
        r@ == keyword_condition(ov(*value)),
{
    match value {
        Some(k) => {
            let quoted = quote_sql(k.as_str());
            let a = concat(" AND (raw LIKE '%", quoted.as_str());
            let b = concat(a.as_str(), "%' OR parse_error LIKE '%");
            let c = concat(b.as_str(), quoted.as_str());
            concat(c.as_str(), "%')")
        },
        None => String::new(),
    }
}

fn append(sql: String, piece: String) -> (r: String)
    ensures
        r@ == sql@ + piece@,
{
    concat(sql.as_str(), piece.as_str())
}

/// The query sent to the remote column store for `query`, newest first and at most `limit`
/// rows.
pub fn remote_query_sql(query: &EventQuery, limit: usize) -> (r: String)
    ensures
        r@ == spec_remote_query_sql(*query, limit as nat),
{
    let mut sql = owned("SELECT * FROM events WHERE 1=1");
    sql = append(sql, equal_text("toDate(ingest_time)", &query.day));
    sql = append(sql, bound_text(">=", &query.date_from));
    sql = append(sql, bound_text("<=", &query.date_to));
    sql = append(sql, equal_text("src_ip", &query.src_ip));
    sql = append(sql, equal_text("dst_ip", &query.dst_ip));
    sql = append(sql, equal_text("protocol", &query.protocol));
    sql = append(sql, equal_text("action", &query.action));
    sql = append(sql, equal_text("device_id", &query.device_id));
    sql = append(sql, keyword_text(&query.keyword));
    if !query.include_failed {
        sql = append(sql, owned(" AND parse_status = 'parsed'"));
    }
    sql = append(sql, owned(" ORDER BY ingest_time DESC LIMIT "));
    let digits = u64_to_string(limit as u64);
    append(sql, digits)
}

} // verus!
