use vstd::prelude::*;
use crate::operation::{LendData, LendType};
use crate::reconcile::{ascending, canonical, organize_lend_data};

verus! {

/// `x` is a Lend of item `p`.
pub open spec fn lends_item(x: LendData, p: Seq<char>) -> bool {
    match x.lend_type {
        LendType::Lend(q, _) => q@ == p,
        _ => false,
    }
}

/// Some loan of `loans` is of item `p`.
pub open spec fn has_item(loans: Seq<LendData>, p: Seq<char>) -> bool {
    exists|j: int| 0 <= j < loans.len() && lends_item(loans[j], p)
}

/// `loans` without the loans of item `p`, the rest in their order.
pub open spec fn without_item(loans: Seq<LendData>, p: Seq<char>) -> Seq<LendData>
    decreases loans.len(),
{
    if loans.len() == 0 {
        Seq::empty()
    } else {
        let rest = without_item(loans.drop_last(), p);
        if lends_item(loans.last(), p) {
            rest
        } else {
            rest.push(loans.last())
        }
    }
}

/// The loans still open after replaying `canon` in order: a Lend opens one,
/// a Return of an item closes every open loan of that item.
pub open spec fn open_after(canon: Seq<LendData>) -> Seq<LendData>
    decreases canon.len(),
{
    if canon.len() == 0 {
        Seq::empty()
    } else {
        let before = open_after(canon.drop_last());
        match canon.last().lend_type {
            LendType::Lend(_, _) => before.push(canon.last()),
            LendType::Return(p, _) => without_item(before, p@),
            _ => before,
        }
    }
}

/// A finding of the consistency check.
#[derive(Debug, PartialEq, Eq)]
pub enum Diagnostic {
    /// A Lend of an item that was already out.
    DoubleLend(String),
    /// A Return of an item that was not out.
    UnmatchedReturn(String),
}

/// The findings of replaying `canon` in order.
pub open spec fn diagnostics(canon: Seq<LendData>) -> Seq<Diagnostic>
    decreases canon.len(),
{
    if canon.len() == 0 {
        Seq::empty()
    } else {
        let before = open_after(canon.drop_last());
        let found = diagnostics(canon.drop_last());
        match canon.last().lend_type {
            LendType::Lend(p, _) => if has_item(before, p@) {
                found.push(Diagnostic::DoubleLend(p))
            } else {
                found
            },
            LendType::Return(p, _) => if has_item(before, p@) {
                found
            } else {
                found.push(Diagnostic::UnmatchedReturn(p))
            },
            _ => found,
        }
    }
}

proof fn lemma_without_keeps_lends(loans: Seq<LendData>, p: Seq<char>)
    requires
        forall|i: int| 0 <= i < loans.len() ==> loans[i].lend_type is Lend,
    ensures
        forall|i: int|
            0 <= i < without_item(loans, p).len() ==> without_item(loans, p)[i].lend_type is Lend,
    decreases loans.len(),
{
    if loans.len() > 0 {
        lemma_without_keeps_lends(loans.drop_last(), p);
    }
}

/// Every open loan is a Lend entry.
pub proof fn lemma_open_are_lends(canon: Seq<LendData>)
    ensures
        forall|i: int| 0 <= i < open_after(canon).len() ==> open_after(canon)[i].lend_type is Lend,
    decreases canon.len(),
{
    if canon.len() > 0 {
        lemma_open_are_lends(canon.drop_last());
        if let LendType::Return(p, _) = canon.last().lend_type {
            lemma_without_keeps_lends(open_after(canon.drop_last()), p@);
        }
    }
}

/// Whether `data` is a Lend of item `product_num`.
pub fn check_lend_product_num(data: &LendData, product_num: &String) -> (r: bool)
    ensures
        r == lends_item(*data, product_num@),
{
    match &data.lend_type {
        LendType::Lend(p, _) => *p == *product_num,
        _ => false,
    }
}

/// Whether some loan of `loans` is of item `product_num`.
pub fn has_product(loans: &Vec<LendData>, product_num: &String) -> (r: bool)
    ensures
        r == has_item(loans@, product_num@),
{
    let mut j: usize = 0;
    while j < loans.len()
        invariant
            j <= loans@.len(),
            forall|k: int| 0 <= k < j ==> !lends_item(loans@[k], product_num@),
        decreases loans@.len() - j,
    {
        if check_lend_product_num(&loans[j], product_num) {
            return true;
        }
        j += 1;
    }
    false
}

fn drop_product(loans: &Vec<LendData>, product_num: &String) -> (r: Vec<LendData>)
    ensures
        r@ == without_item(loans@, product_num@),
{
    let mut out: Vec<LendData> = Vec::new();
    let mut j: usize = 0;
    while j < loans.len()
        invariant
            j <= loans@.len(),
            out@ == without_item(loans@.take(j as int), product_num@),
        decreases loans@.len() - j,
    {
        assert(loans@.take(j + 1).drop_last() =~= loans@.take(j as int));
        if !check_lend_product_num(&loans[j], product_num) {
            out.push(loans[j].clone());
        }
        j += 1;
    }
    assert(loans@.take(loans@.len() as int) =~= loans@);
    out
}

/// Replays a canonical log and returns the loans still open, in the order
/// they were opened.
pub fn open_loans(canon: &Vec<LendData>) -> (r: Vec<LendData>)
    ensures
        r@ == open_after(canon@),
{
    let mut loans: Vec<LendData> = Vec::new();
    let mut i: usize = 0;
    while i < canon.len()
        invariant
            i <= canon@.len(),
            loans@ == open_after(canon@.take(i as int)),
        decreases canon@.len() - i,
    {
        assert(canon@.take(i + 1).drop_last() =~= canon@.take(i as int));
        match &canon[i].lend_type {
            LendType::Lend(_, _) => loans.push(canon[i].clone()),
            LendType::Return(p, _) => {
                loans = drop_product(&loans, p);
            },
            _ => {},
        }
        i += 1;
    }
    assert(canon@.take(canon@.len() as int) =~= canon@);
    loans
}

/// Reconciles the log and returns the loans that are open at its end.
pub fn make_now_lend_data_lst(lend_data_lst: &[LendData]) -> (r: Vec<LendData>)
    requires
        ascending(lend_data_lst@),
    ensures
        r@ == open_after(canonical(lend_data_lst@)),
{
    let canon = organize_lend_data(lend_data_lst);
    open_loans(&canon)
}

/// Replays a canonical log and reports each Lend of an item already out and
/// each Return of an item not out; the replay goes on past each finding.
pub fn check_lend_data(canon: &Vec<LendData>) -> (r: Vec<Diagnostic>)
    ensures
        r@ == diagnostics(canon@),
{
    let mut loans: Vec<LendData> = Vec::new();
    let mut found: Vec<Diagnostic> = Vec::new();
    let mut i: usize = 0;
    while i < canon.len()
        invariant
            i <= canon@.len(),
            loans@ == open_after(canon@.take(i as int)),
            found@ == diagnostics(canon@.take(i as int)),
        decreases canon@.len() - i,
    {
        assert(canon@.take(i + 1).drop_last() =~= canon@.take(i as int));
        match &canon[i].lend_type {
            LendType::Lend(p, _) => {
                if has_product(&loans, p) {
                    found.push(Diagnostic::DoubleLend(p.clone()));
                }
                loans.push(canon[i].clone());
            },
            LendType::Return(p, _) => {
                if !has_product(&loans, p) {
                    found.push(Diagnostic::UnmatchedReturn(p.clone()));
                }
                loans = drop_product(&loans, p);
            },
            _ => {},
        }
        i += 1;
    }
    assert(canon@.take(canon@.len() as int) =~= canon@);
    found
}

} // verus!
