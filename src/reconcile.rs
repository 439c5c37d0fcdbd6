use vstd::prelude::*;
use std::collections::{HashMap, HashSet};
use crate::operation::{LendData, LendType};

verus! {

/// Sequence numbers strictly increase along the log.
pub open spec fn ascending(ops: Seq<LendData>) -> bool {
    forall|i: int, j: int| 0 <= i < j < ops.len() ==> ops[i].num < ops[j].num
}

/// The numbers struck out by the Removes of `ops[i..]`, taken from the last
/// one back: a Remove whose own number a later Remove struck out does nothing.
pub open spec fn removed_from(ops: Seq<LendData>, i: int) -> Set<int>
    decreases ops.len() - i,
{
    if i < 0 || i >= ops.len() {
        Set::empty()
    } else {
        let later = removed_from(ops, i + 1);
        match ops[i].lend_type {
            LendType::Remove(t) => if later.contains(ops[i].num as int) {
                later
            } else {
                later.insert(t as int)
            },
            _ => later,
        }
    }
}

/// The numbers that the log's Removes strike out.
pub open spec fn removed(ops: Seq<LendData>) -> Set<int> {
    removed_from(ops, 0)
}

/// `x` is an Edit of the entry numbered `t`.
pub open spec fn edits_target(x: LendData, t: int) -> bool {
    match x.lend_type {
        LendType::Edit(n, _, _) => n as int == t,
        _ => false,
    }
}

/// Index of the last Edit of entry `t` in `ops[i..]` whose own number is not
/// in `rm`.
pub open spec fn edit_from(ops: Seq<LendData>, t: int, rm: Set<int>, i: int) -> Option<int>
    decreases ops.len() - i,
{
    if i < 0 || i >= ops.len() {
        None
    } else {
        match edit_from(ops, t, rm, i + 1) {
            Some(k) => Some(k),
            None => if edits_target(ops[i], t) && !rm.contains(ops[i].num as int) {
                Some(i)
            } else {
                None
            },
        }
    }
}

/// Entry `x` with the item and destination of the Edit `e`; the number, time
/// and kind of `x` stay.
pub open spec fn overlay(x: LendData, e: LendData) -> LendData {
    match (x.lend_type, e.lend_type) {
        (LendType::Lend(_, _), LendType::Edit(_, p, d)) => LendData {
            time: x.time,
            lend_type: LendType::Lend(p, d),
            num: x.num,
        },
        (LendType::Return(_, _), LendType::Edit(_, p, d)) => LendData {
            time: x.time,
            lend_type: LendType::Return(p, d),
            num: x.num,
        },
        _ => x,
    }
}

/// Entry `x` of the log as the log's last standing Edit of it leaves it.
pub open spec fn settled(ops: Seq<LendData>, x: LendData) -> LendData {
    match edit_from(ops, x.num as int, removed(ops), 0) {
        Some(k) => overlay(x, ops[k]),
        None => x,
    }
}

/// The entry stays in the canonical log: a Lend or Return not struck out.
pub open spec fn stays(ops: Seq<LendData>, x: LendData) -> bool {
    x.lend_type.is_base() && !removed(ops).contains(x.num as int)
}

/// The canonical form of the entries `ops[..n]`, with the overlays of the
/// whole log applied.
pub open spec fn canonical_upto(ops: Seq<LendData>, n: int) -> Seq<LendData>
    decreases n,
{
    if n <= 0 || n > ops.len() {
        Seq::empty()
    } else {
        let rest = canonical_upto(ops, n - 1);
        if stays(ops, ops[n - 1]) {
            rest.push(settled(ops, ops[n - 1]))
        } else {
            rest
        }
    }
}

/// The canonical log: the Lends and Returns that no Remove struck out, in
/// their order, each with its last standing Edit applied.
pub open spec fn canonical(ops: Seq<LendData>) -> Seq<LendData> {
    canonical_upto(ops, ops.len() as int)
}

/// Whether the sequence numbers strictly increase along the log.
pub fn is_ascending(log: &[LendData]) -> (r: bool)
    ensures
        r == ascending(log@),
{
    let mut j: usize = 1;
    if log.len() == 0 {
        return true;
    }
    while j < log.len()
        invariant
            1 <= j <= log@.len(),
            forall|a: int, b: int| 0 <= a < b < j ==> log@[a].num < log@[b].num,
        decreases log@.len() - j,
    {
        if log[j - 1].num >= log[j].num {
            return false;
        }
        proof {
            assert forall|a: int, b: int| 0 <= a < b < j + 1 implies log@[a].num < log@[b].num by {
                if b == j && a < j - 1 {
                    assert(log@[a].num < log@[j - 1].num);
                }
            }
        }
        j += 1;
    }
    true
}

fn apply_edit(x: &LendData, e: &LendData) -> (r: LendData)
    ensures
        r == overlay(*x, *e),
{
    match (&x.lend_type, &e.lend_type) {
        (LendType::Lend(_, _), LendType::Edit(_, p, d)) => LendData {
            time: x.time,
            lend_type: LendType::Lend(p.clone(), d.clone()),
            num: x.num,
        },
        (LendType::Return(_, _), LendType::Edit(_, p, d)) => LendData {
            time: x.time,
            lend_type: LendType::Return(p.clone(), d.clone()),
            num: x.num,
        },
        _ => x.clone(),
    }
}

pub fn is_base(t: &LendType) -> (r: bool)
    ensures
        r == t.is_base(),
{
    match t {
        LendType::Lend(..) | LendType::Return(..) => true,
        _ => false,
    }
}

/// Applies every Edit and Remove of the log and returns the canonical log,
/// ascending by sequence number, with only Lend and Return entries. Where
/// several Edits correct one entry, the one with the largest number wins; an
/// Edit or Remove whose target is missing does nothing.
pub fn organize_lend_data(lend_data_lst: &[LendData]) -> (r: Vec<LendData>)
    requires
        ascending(lend_data_lst@),
    ensures
        r@ == canonical(lend_data_lst@),
{
    broadcast use vstd::std_specs::hash::group_hash_axioms;

    let ops = lend_data_lst;
    let n = ops.len();
    let ghost s = ops@;
    // Removes, from the last one back.
    let mut struck: HashSet<isize> = HashSet::new();
    let mut i: usize = n;
    while i > 0
        invariant
            i <= n,
            n == s.len(),
            s == ops@,
            forall|x: isize| removed_from(s, i as int).contains(x as int) <==> struck@.contains(x),
        decreases i,
    {
        i -= 1;
        if let LendType::Remove(t) = ops[i].lend_type {
            if !struck.contains(&ops[i].num) {
                struck.insert(t);
            }
        }
    }
    let ghost rm = removed(s);
    // Edits, from the last one back: the first met for a target is the one that stands.
    let mut edits: HashMap<isize, usize> = HashMap::new();
    i = n;
    while i > 0
        invariant
            i <= n,
            n == s.len(),
            s == ops@,
            rm == removed(s),
            forall|x: isize| rm.contains(x as int) <==> struck@.contains(x),
            forall|t: isize|
                #[trigger] edit_from(s, t as int, rm, i as int) == if edits@.contains_key(t) {
                    Some(edits@[t] as int)
                } else {
                    None
                },
            forall|t: isize| edits@.contains_key(t) ==> edits@[t] < n,
        decreases i,
    {
        i -= 1;
        if let LendType::Edit(t, _, _) = ops[i].lend_type {
            if !struck.contains(&ops[i].num) && !edits.contains_key(&t) {
                edits.insert(t, i);
            }
        }
        assert forall|u: isize|
            #[trigger] edit_from(s, u as int, rm, i as int) == if edits@.contains_key(u) {
                Some(edits@[u] as int)
            } else {
                None
            } by {
            // What the table held for `u` before this step.
            let _ = edit_from(s, u as int, rm, i + 1);
        }
    }
    // Lends and Returns, in order.
    let mut out: Vec<LendData> = Vec::new();
    i = 0;
    while i < n
        invariant
            i <= n,
            n == s.len(),
            s == ops@,
            rm == removed(s),
            forall|x: isize| rm.contains(x as int) <==> struck@.contains(x),
            forall|t: isize|
                #[trigger] edit_from(s, t as int, rm, 0) == if edits@.contains_key(t) {
                    Some(edits@[t] as int)
                } else {
                    None
                },
            forall|t: isize| edits@.contains_key(t) ==> edits@[t] < n,
            out@ == canonical_upto(s, i as int),
        decreases n - i,
    {
        let x = &ops[i];
        if is_base(&x.lend_type) && !struck.contains(&x.num) {
            let y = match edits.get(&x.num) {
                Some(k) => apply_edit(x, &ops[*k]),
                None => x.clone(),
            };
            out.push(y);
        }
        i += 1;
    }
    out
}


proof fn lemma_nothing_removed(ops: Seq<LendData>, i: int)
    requires
        forall|k: int| 0 <= k < ops.len() ==> ops[k].lend_type.is_base(),
    ensures
        removed_from(ops, i) == Set::<int>::empty(),
    decreases ops.len() - i,
{
    if 0 <= i < ops.len() {
        lemma_nothing_removed(ops, i + 1);
    }
}

proof fn lemma_nothing_edited(ops: Seq<LendData>, t: int, rm: Set<int>, i: int)
    requires
        forall|k: int| 0 <= k < ops.len() ==> ops[k].lend_type.is_base(),
    ensures
        edit_from(ops, t, rm, i) is None,
    decreases ops.len() - i,
{
    if 0 <= i < ops.len() {
        lemma_nothing_edited(ops, t, rm, i + 1);
    }
}

proof fn lemma_prefix_unchanged(ops: Seq<LendData>, n: int)
    requires
        0 <= n <= ops.len(),
        forall|k: int| 0 <= k < ops.len() ==> ops[k].lend_type.is_base(),
    ensures
        canonical_upto(ops, n) == ops.take(n),
    decreases n,
{
    if n > 0 {
        lemma_prefix_unchanged(ops, n - 1);
        lemma_nothing_removed(ops, 0);
        lemma_nothing_edited(ops, ops[n - 1].num as int, removed(ops), 0);
        assert(ops.take(n) =~= ops.take(n - 1).push(ops[n - 1]));
    }
}

/// A log that holds only Lends and Returns is already canonical: reconciling
/// it gives it back unchanged and in the same order.
pub proof fn lemma_canonical_fixed(ops: Seq<LendData>)
    requires
        forall|k: int| 0 <= k < ops.len() ==> ops[k].lend_type.is_base(),
    ensures
        canonical(ops) == ops,
{
    lemma_prefix_unchanged(ops, ops.len() as int);
    assert(ops.take(ops.len() as int) =~= ops);
}

} // verus!
