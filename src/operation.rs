use vstd::prelude::*;

verus! {

/// The moment an operation was recorded, as the clock fields of a date in a
/// fixed offset from UTC.
#[derive(Clone, Copy, Debug, PartialEq, Eq, Structural)]
pub struct Stamp {
    pub year: i32,
    pub month: u32,
    pub day: u32,
    pub hour: u32,
    pub minute: u32,
    pub second: u32,
    pub nanosecond: u32,
    /// Seconds east of UTC.
    pub offset_seconds: i32,
}

/// What one operation of the log does.
#[derive(Debug, PartialEq, Eq)]
pub enum LendType {
    /// An item (first) handed to a destination (second).
    Lend(String, String),
    /// An item (first) given back by a destination (second).
    Return(String, String),
    /// A correction of the operation with the given number: its new item and
    /// its new destination.
    Edit(isize, String, String),
    /// The operation with the given number is to be taken as never done.
    Remove(isize),
}

/// One operation of the log: when it was made, what it does, and its
/// sequence number.
#[derive(Debug, PartialEq, Eq)]
pub struct LendData {
    pub time: Stamp,
    pub lend_type: LendType,
    pub num: isize,
}

impl LendType {
    /// A Lend or a Return: an entry that the canonical log may hold.
    pub open spec fn is_base(self) -> bool {
        self is Lend || self is Return
    }

    /// Rank of the kind in the working order: Remove above Edit above the rest.
    pub open spec fn rank(self) -> int {
        match self {
            LendType::Remove(_) => 2,
            LendType::Edit(..) => 1,
            _ => 0,
        }
    }
}

impl Clone for LendType {
    fn clone(&self) -> (r: Self)
        ensures
            r == *self,
    {
        match self {
            LendType::Lend(p, d) => LendType::Lend(p.clone(), d.clone()),
            LendType::Return(p, d) => LendType::Return(p.clone(), d.clone()),
            LendType::Edit(n, p, d) => LendType::Edit(*n, p.clone(), d.clone()),
            LendType::Remove(n) => LendType::Remove(*n),
        }
    }
}

impl Clone for LendData {
    fn clone(&self) -> (r: Self)
        ensures
            r == *self,
    {
        LendData { time: self.time, lend_type: self.lend_type.clone(), num: self.num }
    }
}

/// The working order of operations: by kind first (Remove, then Edit, then
/// Lend and Return alike), and by sequence number within a kind.
pub open spec fn op_cmp(a: LendData, b: LendData) -> core::cmp::Ordering {
    if a.lend_type.rank() > b.lend_type.rank() {
        core::cmp::Ordering::Greater
    } else if a.lend_type.rank() < b.lend_type.rank() {
        core::cmp::Ordering::Less
    } else if a.num > b.num {
        core::cmp::Ordering::Greater
    } else if a.num < b.num {
        core::cmp::Ordering::Less
    } else {
        core::cmp::Ordering::Equal
    }
}

fn rank_of(t: &LendType) -> (r: u8)
    ensures
        r as int == t.rank(),
{
    match t {
        LendType::Remove(_) => 2,
        LendType::Edit(..) => 1,
        _ => 0,
    }
}

impl PartialOrd for LendData {
    fn partial_cmp(&self, other: &Self) -> (r: Option<core::cmp::Ordering>)
        ensures
            r == Some(op_cmp(*self, *other)),
    {
        let a = rank_of(&self.lend_type);
        let b = rank_of(&other.lend_type);
        if a > b {
            Some(core::cmp::Ordering::Greater)
        } else if a < b {
            Some(core::cmp::Ordering::Less)
        } else if self.num > other.num {
            Some(core::cmp::Ordering::Greater)
        } else if self.num < other.num {
            Some(core::cmp::Ordering::Less)
        } else {
            Some(core::cmp::Ordering::Equal)
        }
    }
}

impl vstd::std_specs::cmp::PartialOrdSpecImpl for LendData {
    open spec fn obeys_partial_cmp_spec() -> bool {
        true
    }

    open spec fn partial_cmp_spec(&self, other: &LendData) -> Option<core::cmp::Ordering> {
        Some(op_cmp(*self, *other))
    }
}

/// In the descending working order every Remove comes before every other
/// operation, and every Edit before every Lend or Return.
pub proof fn lemma_overlays_sort_first(a: LendData, b: LendData)
    ensures
        a.lend_type is Remove && !(b.lend_type is Remove) ==> op_cmp(a, b)
            == core::cmp::Ordering::Greater,
        a.lend_type is Edit && b.lend_type.is_base() ==> op_cmp(a, b)
            == core::cmp::Ordering::Greater,
{
}

} // verus!
