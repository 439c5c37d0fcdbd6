use dlm::operation::{LendData, LendType, Stamp};
use dlm::reconcile::organize_lend_data;

fn at() -> Stamp {
    Stamp {
        year: 2021,
        month: 1,
        day: 23,
        hour: 9,
        minute: 5,
        second: 0,
        nanosecond: 0,
        offset_seconds: 9 * 3600,
    }
}

fn op(num: isize, lend_type: LendType) -> LendData {
    LendData { time: at(), lend_type, num }
}

fn lend(num: isize, p: &str, d: &str) -> LendData {
    op(num, LendType::Lend(p.to_string(), d.to_string()))
}

fn ret(num: isize, p: &str, d: &str) -> LendData {
    op(num, LendType::Return(p.to_string(), d.to_string()))
}

fn edit(num: isize, target: isize, p: &str, d: &str) -> LendData {
    op(num, LendType::Edit(target, p.to_string(), d.to_string()))
}

#[test]
fn check_sort_lend_data() {
    let time = at();
    let mut lst = vec![
        LendData { time, lend_type: LendType::Lend(String::new(), String::new()), num: 1 },
        LendData { time, lend_type: LendType::Edit(1, String::new(), String::new()), num: 2 },
        LendData { time, lend_type: LendType::Remove(1), num: 3 },
        LendData { time, lend_type: LendType::Lend(String::new(), String::new()), num: 4 },
    ];
    lst.sort_by(|a, b| b.partial_cmp(a).unwrap());
    let lst2 = vec![
        LendData { time, lend_type: LendType::Remove(1), num: 3 },
        LendData { time, lend_type: LendType::Edit(1, String::new(), String::new()), num: 2 },
        LendData { time, lend_type: LendType::Lend(String::new(), String::new()), num: 4 },
        LendData { time, lend_type: LendType::Lend(String::new(), String::new()), num: 1 },
    ];
    assert_eq!(lst, lst2);
}

#[test]
fn overlays_sort_before_base_entries() {
    let remove = op(1, LendType::Remove(0));
    let e = edit(2, 0, "A", "x");
    let l = lend(9, "A", "x");
    let r = ret(8, "A", "x");
    assert_eq!(remove.partial_cmp(&e), Some(std::cmp::Ordering::Greater));
    assert_eq!(remove.partial_cmp(&l), Some(std::cmp::Ordering::Greater));
    assert_eq!(e.partial_cmp(&l), Some(std::cmp::Ordering::Greater));
    assert_eq!(e.partial_cmp(&r), Some(std::cmp::Ordering::Greater));
    assert_eq!(l.partial_cmp(&e), Some(std::cmp::Ordering::Less));
    assert_eq!(l.partial_cmp(&r), Some(std::cmp::Ordering::Greater));
}

#[test]
fn canonical_log_is_returned_unchanged() {
    let log = vec![lend(1, "A", "x"), lend(2, "B", "y"), ret(3, "A", "x")];
    assert_eq!(organize_lend_data(&log), log);
    assert_eq!(organize_lend_data(&[]), Vec::<LendData>::new());
}

#[test]
fn last_edit_wins() {
    let log = vec![lend(1, "X", "d"), edit(2, 1, "Y", "d"), edit(3, 1, "Z", "d")];
    assert_eq!(organize_lend_data(&log), vec![lend(1, "Z", "d")]);
}

#[test]
fn edit_keeps_number_time_and_kind() {
    let log = vec![lend(1, "A", "x"), ret(2, "A", "x"), edit(3, 2, "B", "y")];
    assert_eq!(organize_lend_data(&log), vec![lend(1, "A", "x"), ret(2, "B", "y")]);
}

#[test]
fn remove_erases_its_target() {
    let log = vec![lend(1, "X", "d"), op(2, LendType::Remove(1))];
    assert_eq!(organize_lend_data(&log), Vec::<LendData>::new());
}

#[test]
fn edit_of_an_edit_does_nothing() {
    let log = vec![edit(0, -1, "P", "q"), edit(1, 0, "R", "s")];
    assert_eq!(organize_lend_data(&log), Vec::<LendData>::new());
    let log = vec![lend(1, "A", "x"), edit(2, 1, "B", "x"), edit(3, 2, "C", "x")];
    assert_eq!(organize_lend_data(&log), vec![lend(1, "B", "x")]);
}

#[test]
fn missing_target_is_ignored() {
    let log = vec![lend(1, "A", "x"), edit(2, 7, "B", "y"), op(3, LendType::Remove(9))];
    assert_eq!(organize_lend_data(&log), vec![lend(1, "A", "x")]);
}

#[test]
fn removed_edit_is_not_applied() {
    let log = vec![lend(1, "A", "x"), edit(2, 1, "B", "y"), op(3, LendType::Remove(2))];
    assert_eq!(organize_lend_data(&log), vec![lend(1, "A", "x")]);
}

#[test]
fn removed_remove_restores_its_target() {
    let log = vec![lend(1, "A", "x"), op(2, LendType::Remove(1)), op(3, LendType::Remove(2))];
    assert_eq!(organize_lend_data(&log), vec![lend(1, "A", "x")]);
}
