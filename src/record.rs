use vstd::prelude::*;
use vstd::string::*;
use chrono::{Datelike, TimeZone, Timelike};
use crate::args::{ascii_lowercase, isize_value, lower, names, parse_isize};
use crate::display::{int_text, write_int};
use crate::operation::{LendData, LendType, Stamp};
use crate::text::same_text;

verus! {

#[verifier::external_type_specification]
#[verifier::external_body]
pub struct ExStringRecord(csv::StringRecord);

/// The fields of a CSV record, in order.
pub uninterp spec fn record_fields(r: csv::StringRecord) -> Seq<Seq<char>>;

/// Relies on `csv::StringRecord::get`: the field at index `i`, none past the
/// last field.
#[verifier::external_body]
fn field(rec: &csv::StringRecord, i: usize) -> (r: Option<String>)
    ensures
        r is Some <==> i < record_fields(*rec).len(),
        r matches Some(s) ==> s@ == record_fields(*rec)[i as int],
{
    match rec.get(i) {
        Some(s) => Some(s.to_string()),
        None => None,
    }
}

/// The moment that `chrono::DateTime::parse_from_rfc3339` reads from a text.
pub uninterp spec fn rfc3339_moment(s: Seq<char>) -> Option<Stamp>;

/// Relies on `chrono::DateTime::parse_from_rfc3339`: what it reads depends
/// on the text alone.
#[verifier::external_body]
fn parse_moment(s: &str) -> (r: Option<Stamp>)
    ensures
        r == rfc3339_moment(s@),
{
    match chrono::DateTime::parse_from_rfc3339(s) {
        Ok(t) => Some(Stamp {
            year: t.year(),
            month: t.month(),
            day: t.day(),
            hour: t.hour(),
            minute: t.minute(),
            second: t.second(),
            nanosecond: t.nanosecond(),
            offset_seconds: t.offset().local_minus_utc(),
        }),
        Err(_) => None,
    }
}

/// The text that `chrono::DateTime::to_rfc3339` writes for a moment, where
/// chrono can represent the moment.
pub uninterp spec fn rfc3339_of(t: Stamp) -> Option<Seq<char>>;

/// Relies on `chrono::DateTime::to_rfc3339`: the text depends on the moment
/// alone.
#[verifier::external_body]
fn moment_text(t: Stamp) -> (r: Option<String>)
    ensures
        r matches Some(s) ==> rfc3339_of(t) == Some(s@),
        r is None ==> rfc3339_of(t) is None,
{
    let offset = chrono::FixedOffset::east_opt(t.offset_seconds)?;
    let day = chrono::NaiveDate::from_ymd_opt(t.year, t.month, t.day)?;
    let naive = day.and_hms_nano_opt(t.hour, t.minute, t.second, t.nanosecond)?;
    Some(offset.from_local_datetime(&naive).single()?.to_rfc3339())
}

/// The fields that persist an operation, given the text of its time: time,
/// kind, item, destination, target number, new item, new destination, and
/// its own number.
pub open spec fn record_of(x: LendData, time: Seq<char>) -> Seq<Seq<char>> {
    let e = Seq::<char>::empty();
    match x.lend_type {
        LendType::Lend(p, d) => seq![time, "Lend"@, p@, d@, e, e, e, int_text(x.num as int)],
        LendType::Return(p, d) => seq![time, "Return"@, p@, d@, e, e, e, int_text(x.num as int)],
        LendType::Edit(t, p, d) => seq![
            time,
            "Edit"@,
            e,
            e,
            int_text(t as int),
            p@,
            d@,
            int_text(x.num as int),
        ],
        LendType::Remove(t) => seq![
            time,
            "Remove"@,
            e,
            e,
            int_text(t as int),
            e,
            e,
            int_text(x.num as int),
        ],
    }
}

fn int_string(v: isize) -> (r: String)
    ensures
        r@ == int_text(v as int),
{
    let mut s = String::new();
    write_int(&mut s, v);
    assert(s@ =~= int_text(v as int));
    s
}

/// The fields that persist an operation, in the order of the log's columns;
/// none where its time cannot be written.
pub fn lend_data_to_record(lend_data: &LendData) -> (r: Option<Vec<String>>)
    ensures
        match rfc3339_of(lend_data.time) {
            Some(t) => r matches Some(v) && names(v@) == record_of(*lend_data, t),
            None => r is None,
        },
{
    let time = match moment_text(lend_data.time) {
        Some(t) => t,
        None => {
            return None;
        },
    };
    let num = int_string(lend_data.num);
    let v: Vec<String> = match &lend_data.lend_type {
        LendType::Lend(p, d) => vec![
            time,
            String::from_str("Lend"),
            p.clone(),
            d.clone(),
            String::new(),
            String::new(),
            String::new(),
            num,
        ],
        LendType::Return(p, d) => vec![
            time,
            String::from_str("Return"),
            p.clone(),
            d.clone(),
            String::new(),
            String::new(),
            String::new(),
            num,
        ],
        LendType::Edit(t, p, d) => vec![
            time,
            String::from_str("Edit"),
            String::new(),
            String::new(),
            int_string(*t),
            p.clone(),
            d.clone(),
            num,
        ],
        LendType::Remove(t) => vec![
            time,
            String::from_str("Remove"),
            String::new(),
            String::new(),
            int_string(*t),
            String::new(),
            String::new(),
            num,
        ],
    };
    assert(names(v@) =~= record_of(*lend_data, rfc3339_of(lend_data.time)->0));
    Some(v)
}

/// The kind word of a record, read without regard to the case of ASCII
/// letters, names one of the four kinds.
pub open spec fn known_kind(k: Seq<char>) -> bool {
    lower(k) == "lend"@ || lower(k) == "return"@ || lower(k) == "edit"@ || lower(k) == "remove"@
}

/// The record's fields are enough for an operation: a time, a number, a
/// known kind, and for an Edit or Remove a target number.
pub open spec fn well_formed(f: Seq<Seq<char>>) -> bool {
    &&& f.len() >= 8
    &&& rfc3339_moment(f[0]) is Some
    &&& isize_value(f[7]) is Some
    &&& known_kind(f[1])
    &&& (lower(f[1]) == "edit"@ || lower(f[1]) == "remove"@) ==> isize_value(f[4]) is Some
}

/// Operation `x` is what the fields of a well-formed record describe.
pub open spec fn describes(f: Seq<Seq<char>>, x: LendData) -> bool {
    &&& Some(x.time) == rfc3339_moment(f[0])
    &&& Some(x.num) == isize_value(f[7])
    &&& if lower(f[1]) == "lend"@ {
        x.lend_type matches LendType::Lend(p, d) && p@ == f[2] && d@ == f[3]
    } else if lower(f[1]) == "return"@ {
        x.lend_type matches LendType::Return(p, d) && p@ == f[2] && d@ == f[3]
    } else if lower(f[1]) == "edit"@ {
        x.lend_type matches LendType::Edit(t, p, d) && Some(t) == isize_value(f[4]) && p@ == f[5]
            && d@ == f[6]
    } else {
        x.lend_type matches LendType::Remove(t) && Some(t) == isize_value(f[4])
    }
}

/// The operation that one record of the log describes; none where the
/// record is not well formed.
pub fn csv_to_lend_data(csv_record: &csv::StringRecord) -> (r: Option<LendData>)
    ensures
        r is Some <==> well_formed(record_fields(*csv_record)),
        r matches Some(x) ==> describes(record_fields(*csv_record), x),
{
    proof {
        reveal_strlit("lend");
        reveal_strlit("return");
        reveal_strlit("edit");
        reveal_strlit("remove");
        assert("lend"@[0] != "edit"@[0] && "lend"@[0] != "remove"@[0]);
        assert("return"@[0] != "edit"@[0] && "return"@[2] != "remove"@[2]);
    }
    let time_text = field(csv_record, 0);
    let num_text = field(csv_record, 7);
    let (time_text, num_text) = match (time_text, num_text) {
        (Some(a), Some(b)) => (a, b),
        _ => {
            return None;
        },
    };
    let time = match parse_moment(time_text.as_str()) {
        Some(t) => t,
        None => {
            return None;
        },
    };
    let num = match parse_isize(num_text.as_str()) {
        Some(n) => n,
        None => {
            return None;
        },
    };
    let kind = match field(csv_record, 1) {
        Some(k) => ascii_lowercase(k.as_str()),
        None => {
            return None;
        },
    };
    let k = kind.as_str();
    let lend = same_text(k, "lend");
    let ret = same_text(k, "return");
    let lend_type = if lend || ret {
        let p = field(csv_record, 2);
        let d = field(csv_record, 3);
        match (p, d) {
            (Some(p), Some(d)) => if lend {
                LendType::Lend(p, d)
            } else {
                LendType::Return(p, d)
            },
            _ => {
                return None;
            },
        }
    } else if same_text(k, "edit") {
        let t = match field(csv_record, 4) {
            Some(t) => parse_isize(t.as_str()),
            None => None,
        };
        match (t, field(csv_record, 5), field(csv_record, 6)) {
            (Some(t), Some(p), Some(d)) => LendType::Edit(t, p, d),
            _ => {
                return None;
            },
        }
    } else if same_text(k, "remove") {
        let t = match field(csv_record, 4) {
            Some(t) => parse_isize(t.as_str()),
            None => None,
        };
        match t {
            Some(t) => LendType::Remove(t),
            None => {
                return None;
            },
        }
    } else {
        return None;
    };
    Some(LendData { time, lend_type, num })
}

/// The operations that the records of the log describe, in order; none
/// where some record is not well formed.
pub fn csv_data_to_lend_data(csv_data: Vec<csv::StringRecord>) -> (r: Option<Vec<LendData>>)
    ensures
        r is Some <==> forall|i: int|
            0 <= i < csv_data@.len() ==> well_formed(#[trigger] record_fields(csv_data@[i])),
        r matches Some(v) ==> v@.len() == csv_data@.len() && forall|i: int|
            0 <= i < v@.len() ==> describes(record_fields(csv_data@[i]), #[trigger] v@[i]),
{
    let mut out: Vec<LendData> = Vec::new();
    let mut i: usize = 0;
    while i < csv_data.len()
        invariant
            i <= csv_data@.len(),
            out@.len() == i,
            forall|k: int| 0 <= k < i ==> well_formed(#[trigger] record_fields(csv_data@[k])),
            forall|k: int| 0 <= k < i ==> describes(record_fields(csv_data@[k]), #[trigger] out@[k]),
        decreases csv_data@.len() - i,
    {
        match csv_to_lend_data(&csv_data[i]) {
            Some(x) => out.push(x),
            None => {
                return None;
            },
        }
        i += 1;
    }
    Some(out)
}

} // verus!
