use vstd::prelude::*;
use crate::operation::{LendData, LendType, Stamp};
use crate::reconcile::{ascending, canonical};
use crate::replay::{check_lend_product_num, has_item, has_product, lends_item, make_now_lend_data_lst, open_after};

verus! {

/// The largest sequence number of the log, or 0 for an empty log.
pub open spec fn top_num(log: Seq<LendData>) -> int
    decreases log.len(),
{
    if log.len() == 0 {
        0
    } else if log.len() == 1 {
        log[0].num as int
    } else {
        let m = top_num(log.drop_last());
        if log.last().num > m {
            log.last().num as int
        } else {
            m
        }
    }
}

/// Every number of the log is at most `top_num`, and a non-empty log holds it.
pub proof fn lemma_top_num(log: Seq<LendData>)
    ensures
        forall|i: int| 0 <= i < log.len() ==> log[i].num <= top_num(log),
        log.len() > 0 ==> exists|i: int| 0 <= i < log.len() && log[i].num == top_num(log),
    decreases log.len(),
{
    if log.len() > 1 {
        lemma_top_num(log.drop_last());
        assert forall|i: int| 0 <= i < log.len() implies log[i].num <= top_num(log) by {
            if i < log.len() - 1 {
                assert(log[i] == log.drop_last()[i]);
            }
        }
        if log.last().num <= top_num(log.drop_last()) {
            let i = choose|i: int|
                0 <= i < log.drop_last().len() && log.drop_last()[i].num == top_num(log.drop_last());
            assert(log[i] == log.drop_last()[i]);
        }
    }
}

/// The number that the next operation appended to the log gets: one more
/// than the largest number in it, and 1 for an empty log.
pub fn next_lend_num(log: &Vec<LendData>) -> (r: isize)
    requires
        forall|i: int| 0 <= i < log@.len() ==> log@[i].num < isize::MAX,
    ensures
        r == top_num(log@) + 1,
{
    proof {
        lemma_top_num(log@);
    }
    if log.len() == 0 {
        return 1;
    }
    let mut top: isize = log[0].num;
    let mut j: usize = 1;
    while j < log.len()
        invariant
            1 <= j <= log@.len(),
            top == top_num(log@.take(j as int)),
        decreases log@.len() - j,
    {
        assert(log@.take(j + 1).drop_last() =~= log@.take(j as int));
        if log[j].num > top {
            top = log[j].num;
        }
        j += 1;
    }
    assert(log@.take(log@.len() as int) =~= log@);
    top + 1
}

/// The first operation of the log with the given number, if any.
pub fn get_lend_data(lend_data: &[LendData], n: isize) -> (r: Option<LendData>)
    ensures
        r is None <==> forall|j: int| 0 <= j < lend_data@.len() ==> lend_data@[j].num != n,
        r matches Some(x) ==> exists|j: int|
            0 <= j < lend_data@.len() && lend_data@[j] == x && x.num == n && forall|k: int|
                0 <= k < j ==> lend_data@[k].num != n,
{
    let mut j: usize = 0;
    while j < lend_data.len()
        invariant
            j <= lend_data@.len(),
            forall|k: int| 0 <= k < j ==> lend_data@[k].num != n,
        decreases lend_data@.len() - j,
    {
        if lend_data[j].num == n {
            return Some(lend_data[j].clone());
        }
        j += 1;
    }
    None
}

/// The first loan of item `p` in `loans` went to destination `d`.
pub open spec fn first_loan_goes_to(loans: Seq<LendData>, p: Seq<char>, d: Seq<char>) -> bool {
    exists|j: int|
        0 <= j < loans.len() && lends_item(loans[j], p) && (forall|k: int|
            0 <= k < j ==> !lends_item(loans[k], p)) && (match loans[j].lend_type {
            LendType::Lend(_, q) => q@ == d,
            _ => false,
        })
}

/// Whether the first loan of `product_num` in `data_lst` went to
/// `destination_num`; false where there is no such loan.
pub fn check_return_destination_num(
    data_lst: &[LendData],
    product_num: &String,
    destination_num: &String,
) -> (r: bool)
    ensures
        r == first_loan_goes_to(data_lst@, product_num@, destination_num@),
{
    let mut j: usize = 0;
    while j < data_lst.len()
        invariant
            j <= data_lst@.len(),
            forall|k: int| 0 <= k < j ==> !lends_item(data_lst@[k], product_num@),
        decreases data_lst@.len() - j,
    {
        if check_lend_product_num(&data_lst[j], product_num) {
            match &data_lst[j].lend_type {
                LendType::Lend(_, q) => {
                    return *q == *destination_num;
                },
                _ => {
                    return false;
                },
            }
        }
        j += 1;
    }
    false
}

/// Why a command was refused; nothing of it is appended.
#[derive(Debug, PartialEq, Eq)]
pub enum CommandError {
    /// A Lend of an item that is out.
    AlreadyLent(String),
    /// A Return of an item that is not out.
    NotLent(String),
    /// A Return from a destination other than the one the item went to.
    DestinationMismatch(String),
    /// An Edit or Remove of a number beyond the last one of the log.
    FutureTarget,
    /// An Edit or Remove of a number that no operation has.
    MissingTarget,
    /// An Edit of an Edit or a Remove.
    OverlayTarget,
}

/// The operations that a batch appends: the item `products[k]` with
/// destination `d`, numbered from `top + 1` on; Lends or Returns.
pub open spec fn batch(products: Seq<String>, d: String, time: Stamp, top: int, lend: bool) -> Seq<
    LendData,
> {
    Seq::new(
        products.len(),
        |k: int|
            LendData {
                time,
                lend_type: if lend {
                    LendType::Lend(products[k], d)
                } else {
                    LendType::Return(products[k], d)
                },
                num: (top + k + 1) as isize,
            },
    )
}

/// The loans open when the batch reaches its item `k`.
pub open spec fn open_before(
    log: Seq<LendData>,
    products: Seq<String>,
    d: String,
    time: Stamp,
    lend: bool,
    k: int,
) -> Seq<LendData> {
    open_after(canonical(log + batch(products, d, time, top_num(log), lend).take(k)))
}

/// What refuses item `k` of a Lend batch, if anything.
pub open spec fn lend_refusal(
    log: Seq<LendData>,
    products: Seq<String>,
    d: String,
    time: Stamp,
    k: int,
) -> Option<CommandError> {
    if has_item(open_before(log, products, d, time, true, k), products[k]@) {
        Some(CommandError::AlreadyLent(products[k]))
    } else {
        None
    }
}

/// What refuses item `k` of a Return batch, if anything.
pub open spec fn return_refusal(
    log: Seq<LendData>,
    products: Seq<String>,
    d: String,
    time: Stamp,
    k: int,
) -> Option<CommandError> {
    let loans = open_before(log, products, d, time, false, k);
    if !has_item(loans, products[k]@) {
        Some(CommandError::NotLent(products[k]))
    } else if !first_loan_goes_to(loans, products[k]@, d@) {
        Some(CommandError::DestinationMismatch(products[k]))
    } else {
        None
    }
}

/// What refuses item `k` of a batch of Lends (`lend`) or Returns, if anything.
pub open spec fn refusal(
    log: Seq<LendData>,
    products: Seq<String>,
    d: String,
    time: Stamp,
    lend: bool,
    k: int,
) -> Option<CommandError> {
    if lend {
        lend_refusal(log, products, d, time, k)
    } else {
        return_refusal(log, products, d, time, k)
    }
}

/// The outcome of a batch: the log with the batch appended where no item is
/// refused, else the refusal of the first refused item.
pub open spec fn batch_outcome(
    log: Seq<LendData>,
    products: Seq<String>,
    d: String,
    time: Stamp,
    lend: bool,
    r: Result<Vec<LendData>, CommandError>,
) -> bool {
    match r {
        Ok(v) => v@ == log + batch(products, d, time, top_num(log), lend) && forall|k: int|
            0 <= k < products.len() ==> (#[trigger] refusal(log, products, d, time, lend, k)) is None,
        Err(e) => exists|k: int|
            0 <= k < products.len() && #[trigger] refusal(log, products, d, time, lend, k) == Some(e)
                && forall|j: int|
                0 <= j < k ==> (#[trigger] refusal(log, products, d, time, lend, j)) is None,
    }
}

fn copy_log(log: &Vec<LendData>) -> (r: Vec<LendData>)
    ensures
        r@ == log@,
{
    let mut out: Vec<LendData> = Vec::new();
    let mut j: usize = 0;
    while j < log.len()
        invariant
            j <= log@.len(),
            out@ == log@.take(j as int),
        decreases log@.len() - j,
    {
        out.push(log[j].clone());
        assert(out@ =~= log@.take(j + 1));
        j += 1;
    }
    assert(log@.take(log@.len() as int) =~= log@);
    out
}

/// Checks a batch of Lends (`lend`) or Returns of `products` with
/// `destination_num`, each against the log with the items before it
/// appended, and returns the log with the whole batch appended, or the
/// refusal of the first item that fails.
pub fn plan_batch(
    log: &Vec<LendData>,
    products: &Vec<String>,
    destination_num: &String,
    time: Stamp,
    lend: bool,
) -> (r: Result<Vec<LendData>, CommandError>)
    requires
        ascending(log@),
        top_num(log@) < isize::MAX,
        top_num(log@) + products@.len() <= isize::MAX,
    ensures
        batch_outcome(log@, products@, *destination_num, time, lend, r),
{
    proof {
        lemma_top_num(log@);
    }
    let ghost top = top_num(log@);
    let ghost b = batch(products@, *destination_num, time, top, lend);
    let mut last = next_lend_num(log) - 1;
    let mut cur = copy_log(log);
    let mut k: usize = 0;
    while k < products.len()
        invariant
            k <= products@.len(),
            last == top + k,
            top == top_num(log@),
            top + products@.len() <= isize::MAX,
            b == batch(products@, *destination_num, time, top, lend),
            forall|i: int| 0 <= i < log@.len() ==> log@[i].num <= top,
            ascending(log@),
            cur@ == log@ + b.take(k as int),
            forall|j: int|
                0 <= j < k ==> (#[trigger] refusal(log@, products@, *destination_num, time, lend, j))
                    is None,
        decreases products@.len() - k,
    {
        proof {
            assert forall|i: int, j: int| 0 <= i < j < cur@.len() implies cur@[i].num < cur@[j].num by {
                if j >= log@.len() {
                    assert(cur@[j] == b[j - log@.len()]);
                    if i >= log@.len() {
                        assert(cur@[i] == b[i - log@.len()]);
                    }
                }
            }
        }
        let loans = make_now_lend_data_lst(cur.as_slice());
        let p = &products[k];
        let ghost at_k = refusal(log@, products@, *destination_num, time, lend, k as int);
        assert(loans@ == open_before(log@, products@, *destination_num, time, lend, k as int));
        if lend {
            if has_product(&loans, p) {
                assert(at_k == Some(CommandError::AlreadyLent(*p)));
                return Err(CommandError::AlreadyLent(p.clone()));
            }
        } else {
            if !has_product(&loans, p) {
                assert(at_k == Some(CommandError::NotLent(*p)));
                return Err(CommandError::NotLent(p.clone()));
            }
            if !check_return_destination_num(loans.as_slice(), p, destination_num) {
                assert(at_k == Some(CommandError::DestinationMismatch(*p)));
                return Err(CommandError::DestinationMismatch(p.clone()));
            }
        }
        assert(at_k is None);
        let op = LendData {
            time,
            lend_type: if lend {
                LendType::Lend(p.clone(), destination_num.clone())
            } else {
                LendType::Return(p.clone(), destination_num.clone())
            },
            num: last + 1,
        };
        assert(op == b[k as int]);
        cur.push(op);
        last = last + 1;
        assert(cur@ =~= log@ + b.take(k + 1));
        k += 1;
    }
    assert(b.take(products@.len() as int) =~= b);
    Ok(cur)
}

/// The Edit or Remove with number `num` that targets `target`.
pub open spec fn overlay_op(target: isize, change: Option<(String, String)>, time: Stamp, num: int) -> LendData {
    LendData {
        time,
        lend_type: match change {
            Some((p, d)) => LendType::Edit(target, p, d),
            None => LendType::Remove(target),
        },
        num: num as isize,
    }
}

/// What refuses an Edit (`change` holds the new item and destination) or a
/// Remove (`change` is None) of `target`, if anything.
pub open spec fn overlay_refusal(log: Seq<LendData>, target: isize, is_edit: bool) -> Option<CommandError> {
    if target > top_num(log) {
        Some(CommandError::FutureTarget)
    } else if forall|j: int| 0 <= j < log.len() ==> log[j].num != target {
        Some(CommandError::MissingTarget)
    } else if is_edit && !(exists|j: int|
        0 <= j < log.len() && log[j].num == target && (forall|k: int|
            0 <= k < j ==> log[k].num != target) && log[j].lend_type.is_base()) {
        Some(CommandError::OverlayTarget)
    } else {
        None
    }
}

/// Checks an Edit (`change` holds the new item and destination) or a Remove
/// (`change` is None) of the operation numbered `target`, and returns that
/// operation together with the new one to append, numbered after the log.
pub fn prepare_overlay(
    log: &Vec<LendData>,
    target: isize,
    change: Option<(String, String)>,
    time: Stamp,
) -> (r: Result<(LendData, LendData), CommandError>)
    requires
        forall|i: int| 0 <= i < log@.len() ==> log@[i].num < isize::MAX,
    ensures
        match r {
            Ok((x, op)) => overlay_refusal(log@, target, change is Some) is None
                && op == overlay_op(target, change, time, top_num(log@) + 1)
                && exists|j: int|
                0 <= j < log@.len() && log@[j] == x && x.num == target && forall|k: int|
                    0 <= k < j ==> log@[k].num != target,
            Err(e) => overlay_refusal(log@, target, change is Some) == Some(e),
        },
{
    let num = next_lend_num(log);
    if target >= num {
        return Err(CommandError::FutureTarget);
    }
    let x = match get_lend_data(log.as_slice(), target) {
        Some(x) => x,
        None => {
            return Err(CommandError::MissingTarget);
        },
    };
    let is_edit = change.is_some();
    if is_edit && !crate::reconcile::is_base(&x.lend_type) {
        return Err(CommandError::OverlayTarget);
    }
    let lend_type = match change {
        Some((p, d)) => LendType::Edit(target, p, d),
        None => LendType::Remove(target),
    };
    Ok((x, LendData { time, lend_type, num }))
}

} // verus!
