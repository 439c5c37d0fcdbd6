use dlm::commands::{
    check_return_destination_num, get_lend_data, next_lend_num, plan_batch, prepare_overlay, CommandError,
};
use dlm::operation::{LendData, LendType, Stamp};

fn at(minute: u32) -> Stamp {
    Stamp {
        year: 2021,
        month: 1,
        day: 23,
        hour: 9,
        minute,
        second: 0,
        nanosecond: 0,
        offset_seconds: 9 * 3600,
    }
}

fn lend(num: isize, p: &str, d: &str) -> LendData {
    LendData { time: at(0), lend_type: LendType::Lend(p.to_string(), d.to_string()), num }
}

fn ret(num: isize, p: &str, d: &str) -> LendData {
    LendData { time: at(0), lend_type: LendType::Return(p.to_string(), d.to_string()), num }
}

fn items(v: &[&str]) -> Vec<String> {
    v.iter().map(|s| s.to_string()).collect()
}

#[test]
fn next_number_follows_the_largest() {
    assert_eq!(next_lend_num(&vec![]), 1);
    assert_eq!(next_lend_num(&vec![lend(3, "A", "x"), lend(7, "B", "x"), lend(5, "C", "x")]), 8);
}

#[test]
fn get_lend_data_finds_by_number() {
    let log = vec![lend(1, "A", "x"), ret(2, "A", "x")];
    assert_eq!(get_lend_data(&log, 2), Some(ret(2, "A", "x")));
    assert_eq!(get_lend_data(&log, 3), None);
}

#[test]
fn return_destination_is_that_of_the_first_loan() {
    let loans = vec![lend(1, "A", "x"), lend(2, "A", "y")];
    let a = "A".to_string();
    assert!(check_return_destination_num(&loans, &a, &"x".to_string()));
    assert!(!check_return_destination_num(&loans, &a, &"y".to_string()));
    assert!(!check_return_destination_num(&loans, &"B".to_string(), &"x".to_string()));
}

#[test]
fn lend_batch_appends_all_items() {
    let log = vec![lend(1, "A", "x")];
    let r = plan_batch(&log, &items(&["B", "C"]), &"y".to_string(), at(9), true);
    let want = vec![
        lend(1, "A", "x"),
        LendData { time: at(9), lend_type: LendType::Lend("B".to_string(), "y".to_string()), num: 2 },
        LendData { time: at(9), lend_type: LendType::Lend("C".to_string(), "y".to_string()), num: 3 },
    ];
    assert_eq!(r, Ok(want));
}

#[test]
fn lend_batch_refuses_an_item_out() {
    let log = vec![lend(1, "A", "x")];
    let r = plan_batch(&log, &items(&["B", "A"]), &"y".to_string(), at(9), true);
    assert_eq!(r, Err(CommandError::AlreadyLent("A".to_string())));
}

#[test]
fn lend_batch_refuses_an_item_twice() {
    let r = plan_batch(&vec![], &items(&["B", "B"]), &"y".to_string(), at(9), true);
    assert_eq!(r, Err(CommandError::AlreadyLent("B".to_string())));
}

#[test]
fn return_batch_appends_returns() {
    let log = vec![lend(1, "A", "x"), lend(2, "B", "x")];
    let r = plan_batch(&log, &items(&["A", "B"]), &"x".to_string(), at(9), false);
    let want = vec![
        lend(1, "A", "x"),
        lend(2, "B", "x"),
        LendData { time: at(9), lend_type: LendType::Return("A".to_string(), "x".to_string()), num: 3 },
        LendData { time: at(9), lend_type: LendType::Return("B".to_string(), "x".to_string()), num: 4 },
    ];
    assert_eq!(r, Ok(want));
}

#[test]
fn return_batch_refuses_an_item_not_out() {
    let log = vec![lend(1, "A", "x")];
    let r = plan_batch(&log, &items(&["A", "C"]), &"x".to_string(), at(9), false);
    assert_eq!(r, Err(CommandError::NotLent("C".to_string())));
}

#[test]
fn return_batch_refuses_another_destination() {
    let log = vec![lend(1, "A", "x")];
    let r = plan_batch(&log, &items(&["A"]), &"y".to_string(), at(9), false);
    assert_eq!(r, Err(CommandError::DestinationMismatch("A".to_string())));
}

#[test]
fn edit_is_prepared_after_the_last_number() {
    let log = vec![lend(1, "A", "x"), lend(2, "B", "x")];
    let r = prepare_overlay(&log, 1, Some(("C".to_string(), "y".to_string())), at(9));
    let op = LendData { time: at(9), lend_type: LendType::Edit(1, "C".to_string(), "y".to_string()), num: 3 };
    assert_eq!(r, Ok((lend(1, "A", "x"), op)));
}

#[test]
fn remove_is_prepared_for_any_entry() {
    let log = vec![lend(1, "A", "x"), LendData { time: at(0), lend_type: LendType::Remove(1), num: 2 }];
    let r = prepare_overlay(&log, 2, None, at(9));
    let op = LendData { time: at(9), lend_type: LendType::Remove(2), num: 3 };
    assert_eq!(r, Ok((log[1].clone(), op)));
}

#[test]
fn overlay_refusals() {
    let log = vec![lend(1, "A", "x"), LendData { time: at(0), lend_type: LendType::Remove(1), num: 3 }];
    let change = Some(("C".to_string(), "y".to_string()));
    assert_eq!(prepare_overlay(&log, 4, change.clone(), at(9)), Err(CommandError::FutureTarget));
    assert_eq!(prepare_overlay(&log, 2, None, at(9)), Err(CommandError::MissingTarget));
    assert_eq!(prepare_overlay(&log, 3, change, at(9)), Err(CommandError::OverlayTarget));
}
