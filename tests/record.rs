use csv::StringRecord;
use dlm::operation::{LendData, LendType, Stamp};
use dlm::record::{csv_data_to_lend_data, csv_to_lend_data, lend_data_to_record};

fn at() -> Stamp {
    Stamp {
        year: 2020,
        month: 11,
        day: 23,
        hour: 17,
        minute: 40,
        second: 12,
        nanosecond: 0,
        offset_seconds: 9 * 3600,
    }
}

fn rec(v: &[&str]) -> StringRecord {
    StringRecord::from(v.to_vec())
}

#[test]
fn reads_each_kind_of_record() {
    let t = "2020-11-23T17:40:12+09:00";
    assert_eq!(
        csv_to_lend_data(&rec(&[t, "Lend", "0001", "0", "", "", "", "1"])),
        Some(LendData { time: at(), lend_type: LendType::Lend("0001".to_string(), "0".to_string()), num: 1 })
    );
    assert_eq!(
        csv_to_lend_data(&rec(&[t, "RETURN", "0001", "0", "", "", "", "2"])),
        Some(LendData { time: at(), lend_type: LendType::Return("0001".to_string(), "0".to_string()), num: 2 })
    );
    assert_eq!(
        csv_to_lend_data(&rec(&[t, "edit", "", "", "1", "0002", "3", "3"])),
        Some(LendData { time: at(), lend_type: LendType::Edit(1, "0002".to_string(), "3".to_string()), num: 3 })
    );
    assert_eq!(
        csv_to_lend_data(&rec(&[t, "Remove", "", "", "2", "", "", "4"])),
        Some(LendData { time: at(), lend_type: LendType::Remove(2), num: 4 })
    );
}

#[test]
fn refuses_malformed_records() {
    let t = "2020-11-23T17:40:12+09:00";
    assert_eq!(csv_to_lend_data(&rec(&[t, "Lend", "0001", "0", "", "", ""])), None);
    assert_eq!(csv_to_lend_data(&rec(&["yesterday", "Lend", "0001", "0", "", "", "", "1"])), None);
    assert_eq!(csv_to_lend_data(&rec(&[t, "Lend", "0001", "0", "", "", "", "one"])), None);
    assert_eq!(csv_to_lend_data(&rec(&[t, "Borrow", "0001", "0", "", "", "", "1"])), None);
    assert_eq!(csv_to_lend_data(&rec(&[t, "Remove", "", "", "", "", "", "1"])), None);
    let good = rec(&[t, "Lend", "0001", "0", "", "", "", "1"]);
    let bad = rec(&[t, "Lend", "0001", "0", "", "", "", "x"]);
    assert_eq!(csv_data_to_lend_data(vec![good.clone(), bad]), None);
    assert_eq!(csv_data_to_lend_data(vec![good]).map(|v| v.len()), Some(1));
}

#[test]
fn writes_each_kind_of_record() {
    let t = "2020-11-23T17:40:12+09:00".to_string();
    let e = String::new();
    let lend = LendData { time: at(), lend_type: LendType::Lend("0001".to_string(), "0".to_string()), num: 1 };
    assert_eq!(
        lend_data_to_record(&lend),
        Some(vec![t.clone(), "Lend".to_string(), "0001".to_string(), "0".to_string(), e.clone(), e.clone(), e.clone(), "1".to_string()])
    );
    let edit = LendData { time: at(), lend_type: LendType::Edit(-1, "A".to_string(), "B".to_string()), num: 12 };
    assert_eq!(
        lend_data_to_record(&edit),
        Some(vec![t.clone(), "Edit".to_string(), e.clone(), e.clone(), "-1".to_string(), "A".to_string(), "B".to_string(), "12".to_string()])
    );
    let remove = LendData { time: at(), lend_type: LendType::Remove(3), num: 4 };
    assert_eq!(
        lend_data_to_record(&remove),
        Some(vec![t, "Remove".to_string(), e.clone(), e.clone(), "3".to_string(), e.clone(), e, "4".to_string()])
    );
    let mut bad = remove.clone();
    bad.time.month = 13;
    assert_eq!(lend_data_to_record(&bad), None);
}

#[test]
fn record_round_trip() {
    let x = LendData { time: at(), lend_type: LendType::Return("0003".to_string(), "7".to_string()), num: 5 };
    let fields = lend_data_to_record(&x).unwrap();
    let back = csv_to_lend_data(&StringRecord::from(fields)).unwrap();
    assert_eq!(back, x);
}
