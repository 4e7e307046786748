//! Table partitions: which parents may be partitioned, the DDL that
//! creates or detaches a partition, and the names and bounds of the
//! partitions created ahead of time.

use vstd::prelude::*;
use vstd::string::*;
use crate::decimal::{nat_digits, u64_decimal_chars, u64_to_string};
use crate::error::ApiError;
use crate::text::str_eq;

verus! {

broadcast use vstd::string::group_string_axioms;

/// Tables that may be partitioned.
pub open spec fn allowed_parent(t: Seq<char>) -> bool {
    t == "interactions_partitioned"@ || t == "audit_logs_partitioned"@
}

/// The DDL of a new partition: a range partition when both bounds are
/// given (already in RFC 3339), else a list partition when a value is;
/// the parent must be one of the partitioned tables.
pub fn partition_ddl(
    parent_table: &str,
    partition_name: &str,
    range_start: Option<&str>,
    range_end: Option<&str>,
    list_value: Option<&str>,
) -> (r: Result<String, ApiError>)
    ensures
        !allowed_parent(parent_table@) ==> (r matches Err(e) && e.status == 400 && e.code@ == "INVALID_PARENT"@
            && e.message@ == "parent_table must be one of: interactions_partitioned, audit_logs_partitioned"@),
        allowed_parent(parent_table@) ==> match (range_start, range_end, list_value) {
            (Some(s), Some(e), _) => r matches Ok(d) && d@ == "CREATE TABLE IF NOT EXISTS "@ + partition_name@
                + " PARTITION OF "@ + parent_table@ + " FOR VALUES FROM ('"@ + s@ + "') TO ('"@ + e@ + "')"@,
            (_, _, Some(v)) => r matches Ok(d) && d@ == "CREATE TABLE IF NOT EXISTS "@ + partition_name@
                + " PARTITION OF "@ + parent_table@ + " FOR VALUES IN ('"@ + v@ + "')"@,
            _ => r matches Err(e) && e.status == 400 && e.code@ == "INVALID_PARTITION_SPEC"@,
        },
{
    if !(str_eq(parent_table, "interactions_partitioned") || str_eq(parent_table, "audit_logs_partitioned")) {
        return Err(
            ApiError::bad_request(
                "INVALID_PARENT",
                "parent_table must be one of: interactions_partitioned, audit_logs_partitioned",
            ),
        );
    }
    let mut d = String::from_str("CREATE TABLE IF NOT EXISTS ");
    d.append(partition_name);
    d.append(" PARTITION OF ");
    d.append(parent_table);
    match (range_start, range_end, list_value) {
        (Some(s), Some(e), _) => {
            d.append(" FOR VALUES FROM ('");
            d.append(s);
            d.append("') TO ('");
            d.append(e);
            d.append("')");
            Ok(d)
        },
        (_, _, Some(v)) => {
            d.append(" FOR VALUES IN ('");
            d.append(v);
            d.append("')");
            Ok(d)
        },
        _ => Err(
            ApiError::bad_request(
                "INVALID_PARTITION_SPEC",
                "Provide either range_start+range_end or list_value",
            ),
        ),
    }
}

/// The DDL that detaches a partition from its parent.
pub fn detach_ddl(parent_table: &str, partition_name: &str) -> (d: String)
    ensures
        d@ == "ALTER TABLE "@ + parent_table@ + " DETACH PARTITION "@ + partition_name@,
{
    let mut d = String::from_str("ALTER TABLE ");
    d.append(parent_table);
    d.append(" DETACH PARTITION ");
    d.append(partition_name);
    d
}

/// The month after `(year, month)`.
pub open spec fn next_month_spec(year: int, month: int) -> (int, int) {
    if month == 12 {
        (year + 1, 1)
    } else {
        (year, month + 1)
    }
}

pub fn next_month(year: i32, month: u32) -> (r: (i32, u32))
    requires
        1 <= month <= 12,
        year < i32::MAX,
    ensures
        r.0 == next_month_spec(year as int, month as int).0,
        r.1 == next_month_spec(year as int, month as int).1,
        1 <= r.1 <= 12,
{
    if month == 12 {
        (year + 1, 1)
    } else {
        (year, month + 1)
    }
}

/// `n` in decimal, zero-padded to `width` digits (`{:0width}`).
pub open spec fn padded(n: u64, width: nat) -> Seq<char> {
    let d = u64_decimal_chars(n);
    if d.len() >= width {
        d
    } else {
        Seq::new((width - d.len()) as nat, |i: int| '0') + d
    }
}

fn pad_number(n: u64, width: usize) -> (s: String)
    ensures
        s@ == padded(n, width as nat),
{
    let d = u64_to_string(n);
    let len = d.unicode_len();
    let mut s = String::new();
    if len < width {
        let mut k: usize = 0;
        while k < width - len
            invariant
                k <= width - len,
                len == d@.len(),
                len < width,
                s@ == Seq::new(k as nat, |i: int| '0'),
            decreases width - len - k,
        {
            proof {
                reveal_strlit("0");
            }
            s.append("0");
            assert(s@ =~= Seq::new((k + 1) as nat, |i: int| '0'));
            k = k + 1;
        }
    }
    s.append(d.as_str());
    s
}

/// Name of the monthly interactions partition: `interactions_p_YYYY_MM`.
pub fn interaction_partition_name(year: u32, month: u32) -> (s: String)
    ensures
        s@ == "interactions_p_"@ + padded(year as u64, 4) + "_"@ + padded(month as u64, 2),
{
    let mut s = String::from_str("interactions_p_");
    let y = pad_number(year as u64, 4);
    s.append(y.as_str());
    s.append("_");
    let m = pad_number(month as u64, 2);
    s.append(m.as_str());
    s
}

/// Name of the yearly audit-log partition: `audit_logs_p_YYYY`.
pub fn audit_partition_name(year: u32) -> (s: String)
    ensures
        s@ == "audit_logs_p_"@ + padded(year as u64, 4),
{
    let mut s = String::from_str("audit_logs_p_");
    let y = pad_number(year as u64, 4);
    s.append(y.as_str());
    s
}

} // verus!
