use vstd::prelude::*;
use vstd::string::*;
use crate::operation::{LendData, LendType, Stamp};

verus! {

/// The text of a decimal digit.
pub open spec fn digit_text(d: int) -> Seq<char> {
    if d == 0 {
        "0"@
    } else if d == 1 {
        "1"@
    } else if d == 2 {
        "2"@
    } else if d == 3 {
        "3"@
    } else if d == 4 {
        "4"@
    } else if d == 5 {
        "5"@
    } else if d == 6 {
        "6"@
    } else if d == 7 {
        "7"@
    } else if d == 8 {
        "8"@
    } else {
        "9"@
    }
}

/// The decimal text of a natural number, without leading zeros.
pub open spec fn nat_text(v: nat) -> Seq<char>
    decreases v,
{
    if v < 10 {
        digit_text(v as int)
    } else {
        nat_text(v / 10) + digit_text((v % 10) as int)
    }
}

/// The decimal text of an integer, with '-' before a negative one.
pub open spec fn int_text(v: int) -> Seq<char> {
    if v < 0 {
        "-"@ + nat_text((-v) as nat)
    } else {
        nat_text(v as nat)
    }
}

/// `k` copies of the text `unit`.
pub open spec fn repeat(unit: Seq<char>, k: int) -> Seq<char>
    decreases k,
{
    if k <= 0 {
        Seq::empty()
    } else {
        repeat(unit, k - 1) + unit
    }
}

/// `v` in decimal with zeros in front up to `w` characters.
pub open spec fn zero_padded(v: nat, w: int) -> Seq<char> {
    repeat("0"@, w - nat_text(v).len()) + nat_text(v)
}

/// `s` with spaces in front up to `w` characters.
pub open spec fn right_aligned(s: Seq<char>, w: int) -> Seq<char> {
    repeat(" "@, w - s.len()) + s
}

/// `s` with spaces after it up to `w` characters.
pub open spec fn left_aligned(s: Seq<char>, w: int) -> Seq<char> {
    s + repeat(" "@, w - s.len())
}

/// A year in four digits, with a sign where it is below 0 or above 9999.
pub open spec fn year_text(y: int) -> Seq<char> {
    if 0 <= y <= 9999 {
        zero_padded(y as nat, 4)
    } else if y < 0 {
        "-"@ + zero_padded((-y) as nat, 4)
    } else {
        "+"@ + zero_padded(y as nat, 4)
    }
}

/// A moment as year/month/day hour:minute.
pub open spec fn stamp_text(t: Stamp) -> Seq<char> {
    year_text(t.year as int) + "/"@ + zero_padded(t.month as nat, 2) + "/"@ + zero_padded(
        t.day as nat,
        2,
    ) + " "@ + zero_padded(t.hour as nat, 2) + ":"@ + zero_padded(t.minute as nat, 2)
}

fn digit_str(d: u64) -> (r: &'static str)
    requires
        d < 10,
    ensures
        r@ == digit_text(d as int),
{
    if d == 0 {
        "0"
    } else if d == 1 {
        "1"
    } else if d == 2 {
        "2"
    } else if d == 3 {
        "3"
    } else if d == 4 {
        "4"
    } else if d == 5 {
        "5"
    } else if d == 6 {
        "6"
    } else if d == 7 {
        "7"
    } else if d == 8 {
        "8"
    } else {
        "9"
    }
}

fn write_nat(out: &mut String, v: u64)
    ensures
        final(out)@ == old(out)@ + nat_text(v as nat),
    decreases v,
{
    if v >= 10 {
        write_nat(out, v / 10);
    }
    out.append(digit_str(v % 10));
    assert(final(out)@ =~= old(out)@ + nat_text(v as nat));
}

fn nat_string(v: u64) -> (r: String)
    ensures
        r@ == nat_text(v as nat),
{
    let mut t = String::new();
    write_nat(&mut t, v);
    assert(t@ =~= nat_text(v as nat));
    t
}

pub(crate) fn write_int(out: &mut String, v: isize)
    ensures
        final(out)@ == old(out)@ + int_text(v as int),
{
    if v < 0 {
        out.append("-");
        let u = (0 - (v as i128)) as u64;
        write_nat(out, u);
        assert(final(out)@ =~= old(out)@ + int_text(v as int));
    } else {
        write_nat(out, v as u64);
    }
}

pub(crate) fn write_repeat(out: &mut String, unit: &str, k: usize)
    ensures
        final(out)@ == old(out)@ + repeat(unit@, k as int),
{
    let mut i: usize = 0;
    while i < k
        invariant
            i <= k,
            out@ == old(out)@ + repeat(unit@, i as int),
        decreases k - i,
    {
        out.append(unit);
        assert(out@ =~= old(out)@ + repeat(unit@, i + 1));
        i += 1;
    }
}

fn write_zero_padded(out: &mut String, v: u64, w: usize)
    ensures
        final(out)@ == old(out)@ + zero_padded(v as nat, w as int),
{
    let t = nat_string(v);
    let n = t.as_str().unicode_len();
    if n < w {
        write_repeat(out, "0", w - n);
    } else {
        assert(repeat("0"@, w - n) =~= Seq::empty());
        assert(out@ =~= old(out)@ + repeat("0"@, w - n));
    }
    out.append(t.as_str());
    assert(final(out)@ =~= old(out)@ + zero_padded(v as nat, w as int));
}

pub(crate) fn write_right_aligned(out: &mut String, s: &str, w: usize)
    ensures
        final(out)@ == old(out)@ + right_aligned(s@, w as int),
{
    let n = s.unicode_len();
    if n < w {
        write_repeat(out, " ", w - n);
    } else {
        assert(out@ =~= old(out)@ + repeat(" "@, w - n));
    }
    out.append(s);
    assert(final(out)@ =~= old(out)@ + right_aligned(s@, w as int));
}

pub(crate) fn write_left_aligned(out: &mut String, s: &str, w: usize)
    ensures
        final(out)@ == old(out)@ + left_aligned(s@, w as int),
{
    out.append(s);
    let n = s.unicode_len();
    let ghost mid = out@;
    if n < w {
        write_repeat(out, " ", w - n);
    } else {
        assert(out@ =~= mid + repeat(" "@, w - n));
    }
    assert(final(out)@ =~= old(out)@ + left_aligned(s@, w as int));
}

fn write_year(out: &mut String, y: i32)
    ensures
        final(out)@ == old(out)@ + year_text(y as int),
{
    if 0 <= y && y <= 9999 {
        write_zero_padded(out, y as u64, 4);
    } else if y < 0 {
        out.append("-");
        write_zero_padded(out, (0 - (y as i64)) as u64, 4);
        assert(final(out)@ =~= old(out)@ + year_text(y as int));
    } else {
        out.append("+");
        write_zero_padded(out, y as u64, 4);
        assert(final(out)@ =~= old(out)@ + year_text(y as int));
    }
}

pub(crate) fn write_stamp(out: &mut String, t: Stamp)
    ensures
        final(out)@ == old(out)@ + stamp_text(t),
{
    write_year(out, t.year);
    out.append("/");
    write_zero_padded(out, t.month as u64, 2);
    out.append("/");
    write_zero_padded(out, t.day as u64, 2);
    out.append(" ");
    write_zero_padded(out, t.hour as u64, 2);
    out.append(":");
    write_zero_padded(out, t.minute as u64, 2);
    assert(final(out)@ =~= old(out)@ + stamp_text(t));
}

/// What an operation does, in words.
pub open spec fn kind_text(t: LendType) -> Seq<char> {
    match t {
        LendType::Lend(p, d) => p@ + "を"@ + d@ + "へ貸出"@,
        LendType::Return(p, d) => p@ + "を"@ + d@ + "が返却"@,
        LendType::Edit(n, p, d) => int_text(n as int) + "番目の操作の品名を\""@ + p@ + "\"に、相手を\""@
            + d@ + "\"に修正する"@,
        LendType::Remove(n) => int_text(n as int) + "番目の操作を無かったことにする"@,
    }
}

/// An operation as one line: number, time, and what it does.
pub open spec fn entry_text(x: LendData) -> Seq<char> {
    "("@ + int_text(x.num as int) + ")"@ + "  "@ + stamp_text(x.time) + "  \""@ + kind_text(
        x.lend_type,
    ) + "\""@
}

impl LendData {
    /// The operation as one line of text.
    pub fn to_string(&self) -> (r: String)
        ensures
            r@ == entry_text(*self),
    {
        let mut out = String::new();
        out.append("(");
        write_int(&mut out, self.num);
        out.append(")");
        out.append("  ");
        write_stamp(&mut out, self.time);
        out.append("  \"");
        let ghost mid = out@;
        match &self.lend_type {
            LendType::Lend(p, d) => {
                out.append(p.as_str());
                out.append("を");
                out.append(d.as_str());
                out.append("へ貸出");
            },
            LendType::Return(p, d) => {
                out.append(p.as_str());
                out.append("を");
                out.append(d.as_str());
                out.append("が返却");
            },
            LendType::Edit(n, p, d) => {
                write_int(&mut out, *n);
                out.append("番目の操作の品名を\"");
                out.append(p.as_str());
                out.append("\"に、相手を\"");
                out.append(d.as_str());
                out.append("\"に修正する");
            },
            LendType::Remove(n) => {
                write_int(&mut out, *n);
                out.append("番目の操作を無かったことにする");
            },
        }
        assert(out@ =~= mid + kind_text(self.lend_type));
        out.append("\"");
        assert(out@ =~= entry_text(*self));
        out
    }
}

} // verus!
