use vstd::prelude::*;
use vstd::string::*;
use crate::display::{
    int_text, left_aligned, repeat, right_aligned, stamp_text, write_int, write_left_aligned,
    write_repeat, write_right_aligned, write_stamp,
};
use crate::operation::{LendData, LendType, Stamp};
use crate::reconcile::{ascending, canonical};
use crate::replay::{lemma_open_are_lends, make_now_lend_data_lst, open_after};
use crate::text::{capped_width, get_char_len};

verus! {

#[verifier::external_type_specification]
#[verifier::external_body]
pub struct ExValue(serde_json::Value);

/// The entries of a JSON object whose values are JSON strings: each key with
/// its string.
pub uninterp spec fn string_entries(v: serde_json::Value) -> Map<Seq<char>, Seq<char>>;

/// Relies on `serde_json::Value::get`: on an object, the value under the
/// key; on any other value, none.
#[verifier::external_body]
fn label_of(v: &serde_json::Value, key: &str) -> (r: Option<String>)
    ensures
        r matches Some(s) ==> string_entries(*v).contains_key(key@) && string_entries(*v)[key@]
            == s@,
        r is None ==> !string_entries(*v).contains_key(key@),
{
    match v.get(key) {
        Some(serde_json::Value::String(s)) => Some(s.to_string()),
        _ => None,
    }
}

/// Relies on `regex::Regex::is_match`; nothing is assumed of its answer.
#[verifier::external_body]
fn pattern_matches(re: &regex::Regex, s: &str) -> (r: bool) {
    re.is_match(s)
}

/// Names for display: item number to item name (`sizai`), destination
/// number to group name (`sandan`) and to place (`room`), each a JSON object
/// whose values are strings.
#[derive(Debug)]
pub struct ConfigData {
    pub sizai: serde_json::Value,
    pub sandan: serde_json::Value,
    pub room: serde_json::Value,
}

pub fn make_config_data(
    sizai: serde_json::Value,
    sandan: serde_json::Value,
    room: serde_json::Value,
) -> (r: ConfigData)
    ensures
        r.sizai == sizai,
        r.sandan == sandan,
        r.room == room,
{
    ConfigData { sizai, sandan, room }
}

/// The name of `key` in `table` in full-width brackets, or nothing where
/// the table has no name for it.
pub open spec fn bracketed(key: Seq<char>, table: serde_json::Value) -> Seq<char> {
    if string_entries(table).contains_key(key) {
        "（"@ + string_entries(table)[key] + "）"@
    } else {
        Seq::empty()
    }
}

fn write_bracketed(out: &mut String, key: &str, table: &serde_json::Value)
    ensures
        final(out)@ == old(out)@ + bracketed(key@, *table),
{
    match label_of(table, key) {
        Some(s) => {
            out.append("（");
            out.append(s.as_str());
            out.append("）");
            assert(final(out)@ =~= old(out)@ + bracketed(key@, *table));
        },
        None => {
            assert(final(out)@ =~= old(out)@ + bracketed(key@, *table));
        },
    }
}

/// What an operation does, in words, with the names of its item and
/// destination.
pub open spec fn named_kind_text(t: LendType, c: ConfigData) -> Seq<char> {
    match t {
        LendType::Lend(p, d) => "\""@ + p@ + bracketed(p@, c.sizai) + "\"を\""@ + d@ + bracketed(
            d@,
            c.sandan,
        ) + "\"へ貸出"@,
        LendType::Return(p, d) => "\""@ + p@ + bracketed(p@, c.sizai) + "\"を\""@ + d@ + bracketed(
            d@,
            c.sandan,
        ) + "\"が返却"@,
        LendType::Edit(n, p, d) => int_text(n as int) + "番目の操作の品名を\""@ + p@ + bracketed(
            p@,
            c.sizai,
        ) + "\"に、相手を\""@ + d@ + bracketed(d@, c.sandan) + "\"に修正する"@,
        LendType::Remove(n) => int_text(n as int) + "番目の操作を無かったことにする"@,
    }
}

/// An operation as one line, with names: its number right-aligned in five
/// columns, its time, and what it does.
pub open spec fn message_text(x: LendData, c: ConfigData) -> Seq<char> {
    right_aligned("("@ + int_text(x.num as int) + ")"@, 5) + ": "@ + stamp_text(x.time) + " 「"@
        + named_kind_text(x.lend_type, c) + "」"@
}

fn write_named_pair(out: &mut String, p: &String, d: &String, c: &ConfigData, mid: &str)
    ensures
        final(out)@ == old(out)@ + p@ + bracketed(p@, c.sizai) + mid@ + d@ + bracketed(
            d@,
            c.sandan,
        ),
{
    out.append(p.as_str());
    write_bracketed(out, p.as_str(), &c.sizai);
    out.append(mid);
    out.append(d.as_str());
    write_bracketed(out, d.as_str(), &c.sandan);
    assert(final(out)@ =~= old(out)@ + p@ + bracketed(p@, c.sizai) + mid@ + d@ + bracketed(
        d@,
        c.sandan,
    ));
}

/// The operation as one line of text, with the names that the config gives
/// to its item and destination.
pub fn lend_data_to_message_with_config_data(lend_data: &LendData, config_data: &ConfigData) -> (r:
    String)
    ensures
        r@ == message_text(*lend_data, *config_data),
{
    let mut num = String::new();
    num.append("(");
    write_int(&mut num, lend_data.num);
    num.append(")");
    let mut out = String::new();
    write_right_aligned(&mut out, num.as_str(), 5);
    out.append(": ");
    write_stamp(&mut out, lend_data.time);
    out.append(" 「");
    let ghost mid = out@;
    match &lend_data.lend_type {
        LendType::Lend(p, d) => {
            out.append("\"");
            write_named_pair(&mut out, p, d, config_data, "\"を\"");
            out.append("\"へ貸出");
        },
        LendType::Return(p, d) => {
            out.append("\"");
            write_named_pair(&mut out, p, d, config_data, "\"を\"");
            out.append("\"が返却");
        },
        LendType::Edit(n, p, d) => {
            write_int(&mut out, *n);
            out.append("番目の操作の品名を\"");
            write_named_pair(&mut out, p, d, config_data, "\"に、相手を\"");
            out.append("\"に修正する");
        },
        LendType::Remove(n) => {
            write_int(&mut out, *n);
            out.append("番目の操作を無かったことにする");
        },
    }
    assert(out@ =~= mid + named_kind_text(lend_data.lend_type, *config_data));
    out.append("」");
    assert(out@ =~= message_text(*lend_data, *config_data));
    out
}

/// An open loan as the show command lists it.
#[derive(Debug, PartialEq, Eq)]
pub struct ShowLendData {
    pub time: Stamp,
    pub product_num: String,
    pub destination_num: String,
    pub num: isize,
}

impl Clone for ShowLendData {
    fn clone(&self) -> (r: Self)
        ensures
            r == *self,
    {
        ShowLendData {
            time: self.time,
            product_num: self.product_num.clone(),
            destination_num: self.destination_num.clone(),
            num: self.num,
        }
    }
}

/// The row of a loan: a Lend's time, number, item and destination.
pub open spec fn row_of(x: LendData, s: ShowLendData) -> bool {
    s.time == x.time && s.num == x.num && match x.lend_type {
        LendType::Lend(p, d) => s.product_num == p && s.destination_num == d,
        _ => false,
    }
}

pub open spec fn rows_of(loans: Seq<LendData>, rows: Seq<ShowLendData>) -> bool {
    rows.len() == loans.len() && forall|i: int| 0 <= i < rows.len() ==> row_of(loans[i], rows[i])
}

/// The number and time columns of a row.
pub open spec fn lead_cell(s: ShowLendData) -> Seq<char> {
    right_aligned("("@ + int_text(s.num as int) + "):"@, 8) + "   "@ + left_aligned(
        stamp_text(s.time),
        16,
    )
}

/// The item column of a row: its number and name.
pub open spec fn product_cell(s: ShowLendData, c: ConfigData) -> Seq<char> {
    s.product_num@ + bracketed(s.product_num@, c.sizai)
}

/// The destination column of a row: its number, its group and its place;
/// a place without a group shows the group as '？'.
pub open spec fn destination_cell(s: ShowLendData, c: ConfigData) -> Seq<char> {
    let d = s.destination_num@;
    let groups = string_entries(c.sandan);
    let rooms = string_entries(c.room);
    if groups.contains_key(d) && rooms.contains_key(d) {
        d + "（"@ + groups[d] + "）（"@ + rooms[d] + "）"@
    } else if groups.contains_key(d) {
        d + "（"@ + groups[d] + "）"@
    } else if rooms.contains_key(d) {
        d + "（？）（"@ + rooms[d] + "）"@
    } else {
        d
    }
}

/// The cells of one row of the show listing: number and time, then the item
/// and the destination, each with its width in columns.
pub fn show_lend_data_to_string(show_lend_data: &ShowLendData, config_data: &ConfigData) -> (r: (
    String,
    (String, usize),
    (String, usize),
))
    ensures
        r.0@ == lead_cell(*show_lend_data),
        r.1.0@ == product_cell(*show_lend_data, *config_data),
        r.1.1 == capped_width(r.1.0@),
        r.2.0@ == destination_cell(*show_lend_data, *config_data),
        r.2.1 == capped_width(r.2.0@),
{
    let s = show_lend_data;
    let mut num = String::new();
    num.append("(");
    write_int(&mut num, s.num);
    num.append("):");
    let mut time = String::new();
    write_stamp(&mut time, s.time);
    assert(time@ =~= stamp_text(s.time));
    let mut lead = String::new();
    write_right_aligned(&mut lead, num.as_str(), 8);
    lead.append("   ");
    write_left_aligned(&mut lead, time.as_str(), 16);
    assert(lead@ =~= lead_cell(*s));
    let mut product = String::new();
    product.append(s.product_num.as_str());
    write_bracketed(&mut product, s.product_num.as_str(), &config_data.sizai);
    assert(product@ =~= product_cell(*s, *config_data));
    let d = s.destination_num.as_str();
    let mut dest = String::new();
    dest.append(d);
    match (label_of(&config_data.sandan, d), label_of(&config_data.room, d)) {
        (Some(g), Some(p)) => {
            dest.append("（");
            dest.append(g.as_str());
            dest.append("）（");
            dest.append(p.as_str());
            dest.append("）");
        },
        (Some(g), None) => {
            dest.append("（");
            dest.append(g.as_str());
            dest.append("）");
        },
        (None, Some(p)) => {
            dest.append("（？）（");
            dest.append(p.as_str());
            dest.append("）");
        },
        (None, None) => {},
    }
    assert(dest@ =~= destination_cell(*s, *config_data));
    let pw = get_char_len(product.as_str());
    let dw = get_char_len(dest.as_str());
    (lead, (product, pw), (dest, dw))
}

/// Width of the item column (`product`) or the destination column of a row.
pub open spec fn cell_width(s: ShowLendData, c: ConfigData, product: bool) -> int {
    if product {
        capped_width(product_cell(s, c))
    } else {
        capped_width(destination_cell(s, c))
    }
}

/// Width of the widest cell of a column, or 6 where there is no row.
pub open spec fn widest(rows: Seq<ShowLendData>, c: ConfigData, product: bool) -> int
    decreases rows.len(),
{
    if rows.len() == 0 {
        6
    } else if rows.len() == 1 {
        cell_width(rows[0], c, product)
    } else {
        let m = widest(rows.drop_last(), c, product);
        let w = cell_width(rows.last(), c, product);
        if w > m {
            w
        } else {
            m
        }
    }
}

/// One line of the listing, its item and destination columns padded to
/// widths `pw` and `dw`.
pub open spec fn line_text(s: ShowLendData, c: ConfigData, pw: int, dw: int) -> Seq<char> {
    lead_cell(s) + "   "@ + product_cell(s, c) + repeat(" "@, pw - cell_width(s, c, true)) + "   "@
        + destination_cell(s, c) + repeat(" "@, dw - cell_width(s, c, false)) + "\n"@
}

pub open spec fn lines_text(rows: Seq<ShowLendData>, c: ConfigData, pw: int, dw: int) -> Seq<char>
    decreases rows.len(),
{
    if rows.len() == 0 {
        Seq::empty()
    } else {
        lines_text(rows.drop_last(), c, pw, dw) + line_text(rows.last(), c, pw, dw)
    }
}

/// The listing of `rows`, each column as wide as its widest cell.
pub open spec fn table_text(rows: Seq<ShowLendData>, c: ConfigData) -> Seq<char> {
    lines_text(rows, c, widest(rows, c, true), widest(rows, c, false))
}

/// The rows whose flag in `keep` is set, in their order.
pub open spec fn select(rows: Seq<ShowLendData>, keep: Seq<bool>) -> Seq<ShowLendData>
    decreases rows.len(),
{
    if rows.len() == 0 || keep.len() != rows.len() {
        Seq::empty()
    } else {
        let r = select(rows.drop_last(), keep.drop_last());
        if keep.last() {
            r.push(rows.last())
        } else {
            r
        }
    }
}

/// The rows whose flag in `keep` is set, in their order.
pub fn select_loans(rows: &Vec<ShowLendData>, keep: &Vec<bool>) -> (r: Vec<ShowLendData>)
    requires
        keep@.len() == rows@.len(),
    ensures
        r@ == select(rows@, keep@),
{
    let mut out: Vec<ShowLendData> = Vec::new();
    let mut i: usize = 0;
    while i < rows.len()
        invariant
            i <= rows@.len(),
            keep@.len() == rows@.len(),
            out@ == select(rows@.take(i as int), keep@.take(i as int)),
        decreases rows@.len() - i,
    {
        assert(rows@.take(i + 1).drop_last() =~= rows@.take(i as int));
        assert(keep@.take(i + 1).drop_last() =~= keep@.take(i as int));
        if keep[i] {
            out.push(rows[i].clone());
        }
        i += 1;
    }
    assert(rows@.take(rows@.len() as int) =~= rows@);
    assert(keep@.take(keep@.len() as int) =~= keep@);
    out
}

/// The listing of `rows`, each column as wide as its widest cell, and the
/// width of the item column.
pub fn lend_table(rows: &Vec<ShowLendData>, config_data: &ConfigData) -> (r: (String, usize))
    ensures
        r.0@ == table_text(rows@, *config_data),
        r.1 == widest(rows@, *config_data, true),
{
    let ghost c = *config_data;
    let n = rows.len();
    let mut cells: Vec<(String, (String, usize), (String, usize))> = Vec::new();
    let mut i: usize = 0;
    while i < n
        invariant
            i <= n,
            n == rows@.len(),
            c == *config_data,
            cells@.len() == i,
            forall|k: int|
                0 <= k < i ==> {
                    &&& (#[trigger] cells@[k]).0@ == lead_cell(rows@[k])
                    &&& cells@[k].1.0@ == product_cell(rows@[k], c)
                    &&& cells@[k].1.1 == cell_width(rows@[k], c, true)
                    &&& cells@[k].2.0@ == destination_cell(rows@[k], c)
                    &&& cells@[k].2.1 == cell_width(rows@[k], c, false)
                },
        decreases n - i,
    {
        let cell = show_lend_data_to_string(&rows[i], config_data);
        let ghost before = cells@;
        cells.push(cell);
        assert(forall|k: int| 0 <= k < i ==> cells@[k] == before[k]);
        assert(cells@[i as int] == cell);
        i += 1;
    }
    let mut pw: usize = 6;
    let mut dw: usize = 6;
    if n > 0 {
        pw = cells[0].1.1;
        dw = cells[0].2.1;
        let mut j: usize = 1;
        assert(rows@.take(1)[0] == rows@[0]);
        while j < n
            invariant
                1 <= j <= n,
                n == rows@.len(),
                cells@.len() == n,
                forall|k: int|
                    0 <= k < n ==> {
                        &&& (#[trigger] cells@[k]).1.1 == cell_width(rows@[k], c, true)
                        &&& cells@[k].2.1 == cell_width(rows@[k], c, false)
                    },
                pw == widest(rows@.take(j as int), c, true),
                dw == widest(rows@.take(j as int), c, false),
                forall|k: int| 0 <= k < j ==> cell_width(rows@[k], c, true) <= pw,
                forall|k: int| 0 <= k < j ==> cell_width(rows@[k], c, false) <= dw,
            decreases n - j,
        {
            assert(rows@.take(j + 1).drop_last() =~= rows@.take(j as int));
            assert(rows@.take(j + 1).last() == rows@[j as int]);
            if cells[j].1.1 > pw {
                pw = cells[j].1.1;
            }
            if cells[j].2.1 > dw {
                dw = cells[j].2.1;
            }
            j += 1;
        }
    }
    assert(rows@.take(n as int) =~= rows@);
    let mut out = String::new();
    i = 0;
    while i < n
        invariant
            i <= n,
            n == rows@.len(),
            c == *config_data,
            cells@.len() == n,
            forall|k: int|
                0 <= k < n ==> {
                    &&& (#[trigger] cells@[k]).0@ == lead_cell(rows@[k])
                    &&& cells@[k].1.0@ == product_cell(rows@[k], c)
                    &&& cells@[k].1.1 == cell_width(rows@[k], c, true)
                    &&& cells@[k].2.0@ == destination_cell(rows@[k], c)
                    &&& cells@[k].2.1 == cell_width(rows@[k], c, false)
                },
            pw == widest(rows@, c, true),
            dw == widest(rows@, c, false),
            n > 0 ==> forall|k: int| 0 <= k < n ==> cell_width(rows@[k], c, true) <= pw,
            n > 0 ==> forall|k: int| 0 <= k < n ==> cell_width(rows@[k], c, false) <= dw,
            out@ == lines_text(rows@.take(i as int), c, pw as int, dw as int),
        decreases n - i,
    {
        assert(rows@.take(i + 1).drop_last() =~= rows@.take(i as int));
        assert(rows@.take(i + 1).last() == rows@[i as int]);
        assert(rows@.take(i + 1).drop_last() =~= rows@.take(i as int));
        assert(rows@.take(i + 1).last() == rows@[i as int]);
        write_line(&mut out, &cells[i], &rows[i], config_data, pw, dw);
        i += 1;
    }
    (out, pw)
}

fn write_line(
    out: &mut String,
    cell: &(String, (String, usize), (String, usize)),
    s: &ShowLendData,
    c: &ConfigData,
    pw: usize,
    dw: usize,
)
    requires
        cell.0@ == lead_cell(*s),
        cell.1.0@ == product_cell(*s, *c),
        cell.1.1 == cell_width(*s, *c, true),
        cell.2.0@ == destination_cell(*s, *c),
        cell.2.1 == cell_width(*s, *c, false),
        cell.1.1 <= pw,
        cell.2.1 <= dw,
    ensures
        final(out)@ == old(out)@ + line_text(*s, *c, pw as int, dw as int),
{
    let ghost start = out@;
    let ghost pr = repeat(" "@, pw - cell.1.1);
    let ghost dr = repeat(" "@, dw - cell.2.1);
    out.append(cell.0.as_str());
    out.append("   ");
    proof {
        lemma_join(start, cell.0@, "   "@);
    }
    let ghost acc = cell.0@ + "   "@;
    out.append(cell.1.0.as_str());
    proof {
        lemma_join(start, acc, cell.1.0@);
    }
    let ghost acc = acc + cell.1.0@;
    write_repeat(out, " ", pw - cell.1.1);
    proof {
        lemma_join(start, acc, pr);
    }
    let ghost acc = acc + pr;
    out.append("   ");
    proof {
        lemma_join(start, acc, "   "@);
    }
    let ghost acc = acc + "   "@;
    out.append(cell.2.0.as_str());
    proof {
        lemma_join(start, acc, cell.2.0@);
    }
    let ghost acc = acc + cell.2.0@;
    write_repeat(out, " ", dw - cell.2.1);
    proof {
        lemma_join(start, acc, dr);
    }
    let ghost acc = acc + dr;
    out.append("\n");
    proof {
        lemma_join(start, acc, "\n"@);
    }
}

proof fn lemma_join(a: Seq<char>, b: Seq<char>, c: Seq<char>)
    ensures
        a + b + c == a + (b + c),
{
    assert(a + b + c =~= a + (b + c));
}

fn to_rows(loans: &Vec<LendData>) -> (r: Vec<ShowLendData>)
    requires
        forall|i: int| 0 <= i < loans@.len() ==> loans@[i].lend_type is Lend,
    ensures
        rows_of(loans@, r@),
{
    let mut out: Vec<ShowLendData> = Vec::new();
    let mut i: usize = 0;
    while i < loans.len()
        invariant
            i <= loans@.len(),
            forall|k: int| 0 <= k < loans@.len() ==> loans@[k].lend_type is Lend,
            out@.len() == i,
            forall|k: int| 0 <= k < i ==> row_of(loans@[k], #[trigger] out@[k]),
        decreases loans@.len() - i,
    {
        let x = &loans[i];
        let (p, d) = match &x.lend_type {
            LendType::Lend(p, d) => (p.clone(), d.clone()),
            LendType::Return(p, d) => (p.clone(), d.clone()),
            LendType::Edit(_, p, d) => (p.clone(), d.clone()),
            LendType::Remove(_) => (String::new(), String::new()),
        };
        out.push(ShowLendData { time: x.time, product_num: p, destination_num: d, num: x.num });
        i += 1;
    }
    out
}

/// The listing of the loans open at the end of the log, and the width of its
/// item column. With two patterns, only the loans whose item matches the
/// first and whose destination matches the second are listed.
pub fn make_lend_data_str(
    lend_data_lst: Vec<LendData>,
    config_data: ConfigData,
    re_opt: Option<(regex::Regex, regex::Regex)>,
) -> (r: (String, usize))
    requires
        ascending(lend_data_lst@),
    ensures
        exists|rows: Seq<ShowLendData>, keep: Seq<bool>|
            {
                &&& rows_of(open_after(canonical(lend_data_lst@)), rows)
                &&& keep.len() == rows.len()
                &&& re_opt is None ==> forall|i: int| 0 <= i < keep.len() ==> keep[i]
                &&& r.0@ == table_text(select(rows, keep), config_data)
                &&& r.1 == widest(select(rows, keep), config_data, true)
            },
{
    let loans = make_now_lend_data_lst(lend_data_lst.as_slice());
    proof {
        lemma_open_are_lends(canonical(lend_data_lst@));
    }
    let rows = to_rows(&loans);
    let mut keep: Vec<bool> = Vec::new();
    let mut i: usize = 0;
    while i < rows.len()
        invariant
            i <= rows@.len(),
            keep@.len() == i,
            re_opt is None ==> forall|k: int| 0 <= k < i ==> keep@[k],
        decreases rows@.len() - i,
    {
        let shown = match &re_opt {
            None => true,
            Some((product_re, destination_re)) => pattern_matches(
                product_re,
                rows[i].product_num.as_str(),
            ) && pattern_matches(destination_re, rows[i].destination_num.as_str()),
        };
        keep.push(shown);
        i += 1;
    }
    let chosen = select_loans(&rows, &keep);
    lend_table(&chosen, &config_data)
}

} // verus!
