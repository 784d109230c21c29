//! Cold search over Parquet archives: the SQL that reads one archive for a cold query. An
//! archive written before a column existed is read with a stand-in for it, or skipped when
//! the query filters on that column. The caller runs the SQL in an in-memory database.
use vstd::prelude::*;
use crate::api::ColdSearchQuery;
use crate::event::ov;
use crate::store::{
    active_filter, day_filter, normalize_day, normalize_protocol, spec_normalize_query_protocol,
    spec_where_clause, sv, where_clause, Filters,
};
use crate::text::{ascii_lower_seq, concat, decimal_chars, owned, str_eq, to_ascii_lowercase, u64_to_string};

verus! {

/// Whether an archive has a column; column names compare in ASCII lower case.
pub open spec fn has_column(columns: Seq<Seq<char>>, name: Seq<char>) -> bool {
    exists|i: int| 0 <= i < columns.len() && ascii_lower_seq(#[trigger] columns[i]) == name
}

fn column_present(columns: &Vec<String>, name: &str) -> (r: bool)
    ensures
        r == has_column(sv(columns@), name@),
{
    let mut i: usize = 0;
    while i < columns.len()
        invariant
            i <= columns@.len(),
            forall|j: int| 0 <= j < i ==> ascii_lower_seq(#[trigger] sv(columns@)[j]) != name@,
        decreases columns.len() - i,
    {
        let lower = to_ascii_lowercase(columns[i].as_str());
        if str_eq(lower.as_str(), name) {
            proof {
                assert(ascii_lower_seq(sv(columns@)[i as int]) == name@);
            }
            return true;
        }
        i = i + 1;
    }
    false
}

pub open spec fn push_filter(f: Filters, clause: Seq<char>, value: Seq<char>) -> Filters {
    (f.0.push(clause), f.1.push(value))
}

/// The conditions and parameters for one archive, or `None` when the query filters on a
/// device id or a keyword the archive has no column for.
pub open spec fn spec_parquet_filters(q: ColdSearchQuery, columns: Seq<Seq<char>>) -> Option<Filters> {
    let f0: Filters = (Seq::empty(), Seq::empty());
    let f1 = match active_filter(ov(q.device)) {
        Some(v) => push_filter(f0, "COALESCE(source_addr, '') LIKE ?"@, "%"@ + v + "%"@),
        None => f0,
    };
    let device_id_ok = active_filter(ov(q.device_id)) is None || has_column(columns, "device_id"@);
    let keyword_ok = active_filter(ov(q.keyword)) is None || has_column(columns, "raw"@);
    if !device_id_ok || !keyword_ok {
        None
    } else {
        let f2 = match active_filter(ov(q.device_id)) {
            Some(v) => push_filter(f1, "device_id = ?"@, v),
            None => f1,
        };
        let f3 = match day_filter(q.day) {
            Some(d) => (
                f2.0.push("(COALESCE(ingest_time, '') LIKE ? OR COALESCE(event_time, '') LIKE ?)"@),
                f2.1.push(d + "%"@).push(d + "%"@),
            ),
            None => f2,
        };
        let f4 = match day_filter(q.date_from) {
            Some(d) => push_filter(f3, "substr(COALESCE(event_time, ingest_time), 1, 10) >= ?"@, d),
            None => f3,
        };
        let f5 = match day_filter(q.date_to) {
            Some(d) => push_filter(f4, "substr(COALESCE(event_time, ingest_time), 1, 10) <= ?"@, d),
            None => f4,
        };
        let f6 = match active_filter(ov(q.src_ip)) {
            Some(v) => push_filter(f5, "src_ip = ?"@, v),
            None => f5,
        };
        let f7 = match active_filter(ov(q.dst_ip)) {
            Some(v) => push_filter(f6, "dst_ip = ?"@, v),
            None => f6,
        };
        let f8 = match active_filter(ov(q.protocol)) {
            Some(v) => push_filter(f7, "upper(protocol) = ?"@, spec_normalize_query_protocol(v)),
            None => f7,
        };
        let f9 = match active_filter(ov(q.action)) {
            Some(v) => push_filter(f8, "lower(action) = ?"@, ascii_lower_seq(v)),
            None => f8,
        };
        let f10 = match active_filter(ov(q.keyword)) {
            Some(v) => push_filter(f9, "raw LIKE ?"@, "%"@ + v + "%"@),
            None => f9,
        };
        Some(
            if !q.include_failed {
                (f10.0.push("parse_status <> 'failed'"@), f10.1)
            } else {
                f10
            },
        )
    }
}

/// A text inside single quotes in SQL: every `'` doubled.
pub open spec fn sql_quoted(s: Seq<char>) -> Seq<char>
    decreases s.len(),
{
    if s.len() == 0 {
        Seq::empty()
    } else if s.last() == '\'' {
        sql_quoted(s.drop_last()) + "''"@
    } else {
        sql_quoted(s.drop_last()).push(s.last())
    }
}

pub(crate) fn quote_sql(s: &str) -> (r: String)
    ensures
        r@ == sql_quoted(s@),
{
    let chars = crate::text::chars_of(s);
    let mut out: Vec<char> = Vec::new();
    let mut i: usize = 0;
    proof {
        reveal_strlit("''");
        assert(chars@.take(0) =~= Seq::<char>::empty());
    }
    while i < chars.len()
        invariant
            i <= chars@.len(),
            chars@ == s@,
            out@ == sql_quoted(chars@.take(i as int)),
            "''"@ =~= seq!['\'', '\''],
        decreases chars.len() - i,
    {
        let c = chars[i];
        proof {
            assert(chars@.take(i + 1).drop_last() =~= chars@.take(i as int));
        }
        if c == '\'' {
            out.push('\'');
            out.push('\'');
        } else {
            out.push(c);
        }
        i = i + 1;
        proof {
            assert(out@ =~= sql_quoted(chars@.take(i as int)));
        }
    }
    proof {
        assert(chars@.take(chars@.len() as int) =~= chars@);
    }
    crate::text::string_from_chars(out.as_slice())
}

/// The SELECT that reads one archive: every event column, with stand-ins for the columns an
/// older archive lacks, filtered, newest first, at most `limit` rows.
pub open spec fn spec_parquet_sql(path: Seq<char>, columns: Seq<Seq<char>>, where_text: Seq<char>, limit: nat) -> Seq<char> {
    let p = sql_quoted(path);
    let event_id_expr = if has_column(columns, "event_id"@) {
        "COALESCE(event_id, 'parquet-' || row_number() OVER ())"@
    } else {
        "'parquet-' || row_number() OVER ()"@
    };
    let source_expr = if has_column(columns, "source_addr"@) {
        "COALESCE(source_addr, 'parquet://"@ + p + "')"@
    } else {
        "'parquet://"@ + p + "'"@
    };
    let device_id_expr = if has_column(columns, "device_id"@) {
        "device_id"@
    } else {
        "NULL AS device_id"@
    };
    let raw_expr = if has_column(columns, "raw"@) {
        "COALESCE(raw, '')"@
    } else {
        "''"@
    };
    let parse_error_expr = if has_column(columns, "parse_error"@) {
        "COALESCE(parse_error, '')"@
    } else {
        "''"@
    };
    "SELECT event_id, ingest_time, source_addr, device_id, event_time, vendor, product, src_ip, src_port, dst_ip, dst_port, protocol, action, severity, COALESCE(raw, '') AS raw, parse_status, parse_error FROM (SELECT "@
        + event_id_expr + " AS event_id, ingest_time, "@ + source_expr + " AS source_addr, "@
        + device_id_expr
        + ", event_time, vendor, product, src_ip, src_port, dst_ip, dst_port, protocol, action, severity, "@
        + raw_expr + " AS raw, parse_status, "@ + parse_error_expr
        + " AS parse_error FROM read_parquet('"@ + p + "')) "@ + where_text
        + " ORDER BY ingest_time DESC LIMIT "@ + decimal_chars(limit)
}

/// One archive's search: the SQL and its parameters.
#[derive(Debug, Clone)]
pub struct ParquetSearch {
    pub sql: String,
    pub values: Vec<String>,
}

fn filter_text(o: &Option<String>) -> (r: Option<String>)
    ensures
        ov(r) == active_filter(ov(*o)),
{
    match o {
        Some(s) => if s.as_str().is_empty() {
            None
        } else {
            Some(s.clone())
        },
        None => None,
    }
}

fn day_text(o: &Option<String>) -> (r: Option<String>)
    ensures
        ov(r) == day_filter(*o),
{
    match o {
        Some(d) => normalize_day(d.as_str()),
        None => None,
    }
}

fn push_pair(c: &mut Vec<String>, v: &mut Vec<String>, clause: &str, value: String)
    ensures
        (sv(final(c)@), sv(final(v)@)) == push_filter((sv(old(c)@), sv(old(v)@)), clause@, value@),
{
    let ghost c0 = sv(c@);
    let ghost v0 = sv(v@);
    c.push(owned(clause));
    v.push(value);
    proof {
        assert(sv(c@) =~= c0.push(clause@));
        assert(sv(v@) =~= v0.push(value@));
    }
}

fn surround(v: &str) -> (r: String)
    ensures
        r@ == "%"@ + v@ + "%"@,
{
    let a = concat("%", v);
    concat(a.as_str(), "%")
}

/// The filters of a cold query for an archive with the given columns.
pub fn parquet_filters(query: &ColdSearchQuery, columns: &Vec<String>) -> (r: Option<(Vec<String>, Vec<String>)>)
    ensures
        match r {
            Some((c, v)) => spec_parquet_filters(*query, sv(columns@)) == Some((sv(c@), sv(v@))),
            None => spec_parquet_filters(*query, sv(columns@)) is None,
        },
{
    let device = filter_text(&query.device);
    let device_id = filter_text(&query.device_id);
    let keyword = filter_text(&query.keyword);
    if device_id.is_some() && !column_present(columns, "device_id") {
        return None;
    }
    if keyword.is_some() && !column_present(columns, "raw") {
        return None;
    }
    let mut c: Vec<String> = Vec::new();
    let mut v: Vec<String> = Vec::new();
    proof {
        assert(sv(c@) =~= Seq::<Seq<char>>::empty());
        assert(sv(v@) =~= Seq::<Seq<char>>::empty());
    }
    if let Some(x) = device {
        push_pair(&mut c, &mut v, "COALESCE(source_addr, '') LIKE ?", surround(x.as_str()));
    }
    if let Some(x) = device_id {
        push_pair(&mut c, &mut v, "device_id = ?", x);
    }
    if let Some(d) = day_text(&query.day) {
        let ghost c0 = sv(c@);
        let ghost v0 = sv(v@);
        c.push(owned("(COALESCE(ingest_time, '') LIKE ? OR COALESCE(event_time, '') LIKE ?)"));
        v.push(concat(d.as_str(), "%"));
        v.push(concat(d.as_str(), "%"));
        proof {
            assert(sv(c@) =~= c0.push("(COALESCE(ingest_time, '') LIKE ? OR COALESCE(event_time, '') LIKE ?)"@));
            assert(sv(v@) =~= v0.push(d@ + "%"@).push(d@ + "%"@));
        }
    }
    if let Some(d) = day_text(&query.date_from) {
        push_pair(&mut c, &mut v, "substr(COALESCE(event_time, ingest_time), 1, 10) >= ?", d);
    }
    if let Some(d) = day_text(&query.date_to) {
        push_pair(&mut c, &mut v, "substr(COALESCE(event_time, ingest_time), 1, 10) <= ?", d);
    }
    if let Some(x) = filter_text(&query.src_ip) {
        push_pair(&mut c, &mut v, "src_ip = ?", x);
    }
    if let Some(x) = filter_text(&query.dst_ip) {
        push_pair(&mut c, &mut v, "dst_ip = ?", x);
    }
    if let Some(x) = filter_text(&query.protocol) {
        push_pair(&mut c, &mut v, "upper(protocol) = ?", normalize_protocol(x.as_str()));
    }
    if let Some(x) = filter_text(&query.action) {
        push_pair(&mut c, &mut v, "lower(action) = ?", to_ascii_lowercase(x.as_str()));
    }
    if let Some(x) = keyword {
        push_pair(&mut c, &mut v, "raw LIKE ?", surround(x.as_str()));
    }
    if !query.include_failed {
        let ghost c0 = sv(c@);
        c.push(owned("parse_status <> 'failed'"));
        proof {
            assert(sv(c@) =~= c0.push("parse_status <> 'failed'"@));
        }
    }
    Some((c, v))
}

/// The search of one archive for a cold query, reading at most `limit` rows; `None` when the
/// archive lacks a column the query filters on.
pub fn parquet_search(path: &str, columns: &Vec<String>, query: &ColdSearchQuery, limit: usize) -> (r: Option<ParquetSearch>)
    ensures
        match r {
            Some(s) => spec_parquet_filters(*query, sv(columns@)) matches Some(f) && sv(s.values@)
                == f.1 && s.sql@ == spec_parquet_sql(path@, sv(columns@), spec_where_clause(f.0), limit as nat),
            None => spec_parquet_filters(*query, sv(columns@)) is None,
        },
{
    let (clauses, values) = match parquet_filters(query, columns) {
        Some(f) => f,
        None => {
            return None;
        },
    };
    let where_text = where_clause(&clauses);
    let p = quote_sql(path);
    let event_id_expr = if column_present(columns, "event_id") {
        owned("COALESCE(event_id, 'parquet-' || row_number() OVER ())")
    } else {
        owned("'parquet-' || row_number() OVER ()")
    };
    let source_expr = if column_present(columns, "source_addr") {
        let a = concat("COALESCE(source_addr, 'parquet://", p.as_str());
        concat(a.as_str(), "')")
    } else {
        let a = concat("'parquet://", p.as_str());
        concat(a.as_str(), "'")
    };
    let device_id_expr = if column_present(columns, "device_id") {
        owned("device_id")
    } else {
        owned("NULL AS device_id")
    };
    let raw_expr = if column_present(columns, "raw") {
        owned("COALESCE(raw, '')")
    } else {
        owned("''")
    };
    let parse_error_expr = if column_present(columns, "parse_error") {
        owned("COALESCE(parse_error, '')")
    } else {
        owned("''")
    };
    let s1 = concat(
        "SELECT event_id, ingest_time, source_addr, device_id, event_time, vendor, product, src_ip, src_port, dst_ip, dst_port, protocol, action, severity, COALESCE(raw, '') AS raw, parse_status, parse_error FROM (SELECT ",
        event_id_expr.as_str(),
    );
    let s2 = concat(s1.as_str(), " AS event_id, ingest_time, ");
    let s3 = concat(s2.as_str(), source_expr.as_str());
    let s4 = concat(s3.as_str(), " AS source_addr, ");
    let s5 = concat(s4.as_str(), device_id_expr.as_str());
    let s6 = concat(
        s5.as_str(),
        ", event_time, vendor, product, src_ip, src_port, dst_ip, dst_port, protocol, action, severity, ",
    );
    let s7 = concat(s6.as_str(), raw_expr.as_str());
    let s8 = concat(s7.as_str(), " AS raw, parse_status, ");
    let s9 = concat(s8.as_str(), parse_error_expr.as_str());
    let s10 = concat(s9.as_str(), " AS parse_error FROM read_parquet('");
    let s11 = concat(s10.as_str(), p.as_str());
    let s12 = concat(s11.as_str(), "')) ");
    let s13 = concat(s12.as_str(), where_text.as_str());
    let s14 = concat(s13.as_str(), " ORDER BY ingest_time DESC LIMIT ");
    let n = u64_to_string(limit as u64);
    let sql = concat(s14.as_str(), n.as_str());
    Some(ParquetSearch { sql, values })
}

} // verus!
