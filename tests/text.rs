use dlm::args::{parse_arg, DlmArg};
use dlm::operation::{LendData, LendType, Stamp};
use dlm::report::{
    lend_data_to_message_with_config_data, lend_table, make_config_data, make_lend_data_str, select_loans,
    show_lend_data_to_string, ConfigData, ShowLendData,
};
use dlm::text::get_char_len;
use regex::Regex;

fn at() -> Stamp {
    Stamp {
        year: 2020,
        month: 11,
        day: 23,
        hour: 17,
        minute: 40,
        second: 12,
        nanosecond: 0,
        offset_seconds: 9 * 3600,
    }
}

fn op(num: isize, lend_type: LendType) -> LendData {
    LendData { time: at(), lend_type, num }
}

fn config() -> ConfigData {
    make_config_data(
        serde_json::from_str(r#"{"0001": "内リール1", "0002": 5}"#).unwrap(),
        serde_json::from_str(r#"{"0": "電気係", "1": "装飾係"}"#).unwrap(),
        serde_json::from_str(r#"{"0": "第二会議室", "2": "体育館"}"#).unwrap(),
    )
}

fn empty_config() -> ConfigData {
    make_config_data(serde_json::Value::Null, serde_json::Value::Null, serde_json::Value::Null)
}

fn message(arg: DlmArg) -> String {
    match arg {
        DlmArg::MissingArgument(m) => m,
        other => panic!("not a message: {:?}", other),
    }
}

#[test]
fn check_regex() {
    let re1 = Regex::new("\\d{4}").unwrap();
    assert_eq!(true, re1.is_match("0123"));
    assert_eq!(false, re1.is_match("1"));
    let re2 = Regex::new(".").unwrap();
    assert_eq!(true, re2.is_match("0123"));
    assert_eq!(true, re2.is_match("1"));
    let re = Regex::new("0\\d{3}").unwrap();
    assert_eq!(true, re.is_match("0123"));
    assert_eq!(false, re.is_match("1123"));
    assert_eq!(false, re.is_match("1"));
    let re = Regex::new("\\d{2}").unwrap();
    assert_eq!(true, re.is_match("0123"));
    assert_eq!(true, re.is_match("1123"));
    assert_eq!(false, re.is_match("1"));
    let re = Regex::new("0").unwrap();
    assert_eq!(true, re.is_match("0"));
    assert_eq!(true, re.is_match("60"));
    assert_eq!(false, re.is_match("1"));
}

#[test]
fn char_len_counts_wide_characters_twice() {
    assert_eq!(get_char_len(""), 0);
    assert_eq!(get_char_len("0001"), 4);
    assert_eq!(get_char_len("0001（内リール1）"), 17);
}

#[test]
fn parse_simple_commands() {
    assert!(matches!(parse_arg(vec![]), DlmArg::Null));
    assert!(matches!(parse_arg(vec!["#", "anything"]), DlmArg::Null));
    assert!(matches!(parse_arg(vec!["EXIT"]), DlmArg::Exit));
    assert!(matches!(parse_arg(vec!["Help"]), DlmArg::Help));
    assert!(matches!(parse_arg(vec!["all"]), DlmArg::AllPrint));
    assert!(matches!(parse_arg(vec!["check"]), DlmArg::Check));
    assert_eq!(message(parse_arg(vec!["exit", "now"])), "引数は不要です");
    match parse_arg(vec!["Frobnicate"]) {
        DlmArg::NotFoundCommandName(n) => assert_eq!(n, "frobnicate"),
        other => panic!("{:?}", other),
    }
}

#[test]
fn parse_history() {
    assert!(matches!(parse_arg(vec!["history"]), DlmArg::History(10)));
    assert!(matches!(parse_arg(vec!["history", "25"]), DlmArg::History(25)));
    assert!(matches!(parse_arg(vec!["history", "+3"]), DlmArg::History(3)));
    assert_eq!(message(parse_arg(vec!["history", "-3"])), "数字を入力してください");
    assert_eq!(message(parse_arg(vec!["history", "x"])), "数字を入力してください");
    assert_eq!(message(parse_arg(vec!["history", "1", "2"])), "引数は1つまでです");
}

#[test]
fn parse_show() {
    assert!(matches!(parse_arg(vec!["show"]), DlmArg::Show(None)));
    match parse_arg(vec!["show", "^0", "."]) {
        DlmArg::Show(Some((p, d))) => {
            assert!(p.is_match("0001"));
            assert!(!p.is_match("1001"));
            assert!(d.is_match("2"));
        }
        other => panic!("{:?}", other),
    }
    assert_eq!(message(parse_arg(vec!["show", "a"])), "フィルターを書ける場合は引数は2つ必要です");
    assert_eq!(message(parse_arg(vec!["show", "(", "a"])), "正規表現として不正な引数です");
    assert_eq!(message(parse_arg(vec!["show", "a", "b", "c"])), "引数は2つまでです");
}

#[test]
fn parse_lend_and_return() {
    match parse_arg(vec!["l", "0001", "0002", "3"]) {
        DlmArg::Lend(items, d) => {
            assert_eq!(items, vec!["0001".to_string(), "0002".to_string()]);
            assert_eq!(d, "3");
        }
        other => panic!("{:?}", other),
    }
    match parse_arg(vec!["Return", "0001", "3"]) {
        DlmArg::Return(items, d) => {
            assert_eq!(items, vec!["0001".to_string()]);
            assert_eq!(d, "3");
        }
        other => panic!("{:?}", other),
    }
    assert_eq!(message(parse_arg(vec!["lend"])), "貸出品を与えてください");
    assert_eq!(message(parse_arg(vec!["lend", "0001"])), "貸出先を与えてください");
    assert_eq!(message(parse_arg(vec!["r"])), "返却品を与えてください");
    assert_eq!(message(parse_arg(vec!["r", "0001"])), "返却先を与えてください");
}

#[test]
fn parse_edit_and_remove() {
    match parse_arg(vec!["edit", "-2", "0005", "1"]) {
        DlmArg::Edit(n, p, d) => {
            assert_eq!(n, -2);
            assert_eq!(p, "0005");
            assert_eq!(d, "1");
        }
        other => panic!("{:?}", other),
    }
    assert_eq!(message(parse_arg(vec!["edit"])), "編集対象の通し番号を与えてください");
    assert_eq!(message(parse_arg(vec!["edit", "x", "a", "b"])), "数字を与えてください");
    assert_eq!(message(parse_arg(vec!["edit", "1"])), "編集後の品名を与えてください");
    assert_eq!(message(parse_arg(vec!["edit", "1", "a"])), "編集後の貸出先を与えてください");
    assert_eq!(message(parse_arg(vec!["edit", "1", "a", "b", "c"])), "引数は3までです");
    assert!(matches!(parse_arg(vec!["remove", "4"]), DlmArg::Remove(4)));
    assert_eq!(message(parse_arg(vec!["remove"])), "削除対象の操作の番号を与えてください");
    assert_eq!(message(parse_arg(vec!["remove", "4x"])), "数字を与えてください");
    assert_eq!(message(parse_arg(vec!["remove", "4", "5"])), "引数は1つまでです");
}

#[test]
fn operation_to_string() {
    let l = op(1, LendType::Lend("0001".to_string(), "0".to_string()));
    assert_eq!(l.to_string(), "(1)  2020/11/23 17:40  \"0001を0へ貸出\"");
    let r = op(12, LendType::Return("0001".to_string(), "0".to_string()));
    assert_eq!(r.to_string(), "(12)  2020/11/23 17:40  \"0001を0が返却\"");
    let e = op(3, LendType::Edit(1, "0002".to_string(), "1".to_string()));
    assert_eq!(e.to_string(), "(3)  2020/11/23 17:40  \"1番目の操作の品名を\"0002\"に、相手を\"1\"に修正する\"");
    let mut d = op(-4, LendType::Remove(2));
    d.time.year = 12345;
    d.time.month = 2;
    assert_eq!(d.to_string(), "(-4)  +12345/02/23 17:40  \"2番目の操作を無かったことにする\"");
}

#[test]
fn message_uses_config_names() {
    let c = config();
    let l = op(1, LendType::Lend("0001".to_string(), "0".to_string()));
    assert_eq!(
        lend_data_to_message_with_config_data(&l, &c),
        "  (1): 2020/11/23 17:40 「\"0001（内リール1）\"を\"0（電気係）\"へ貸出」"
    );
    let r = op(123456, LendType::Return("0002".to_string(), "9".to_string()));
    assert_eq!(
        lend_data_to_message_with_config_data(&r, &c),
        "(123456): 2020/11/23 17:40 「\"0002\"を\"9\"が返却」"
    );
    let e = op(7, LendType::Edit(1, "0003".to_string(), "1".to_string()));
    assert_eq!(
        lend_data_to_message_with_config_data(&e, &c),
        "  (7): 2020/11/23 17:40 「1番目の操作の品名を\"0003\"に、相手を\"1（装飾係）\"に修正する」"
    );
    let d = op(8, LendType::Remove(1));
    assert_eq!(
        lend_data_to_message_with_config_data(&d, &empty_config()),
        "  (8): 2020/11/23 17:40 「1番目の操作を無かったことにする」"
    );
}

fn row(num: isize, p: &str, d: &str) -> ShowLendData {
    ShowLendData { time: at(), product_num: p.to_string(), destination_num: d.to_string(), num }
}

#[test]
fn show_cells() {
    let c = config();
    let (lead, (p, pw), (d, dw)) = show_lend_data_to_string(&row(1, "0001", "0"), &c);
    assert_eq!(lead, "    (1):   2020/11/23 17:40");
    assert_eq!(p, "0001（内リール1）");
    assert_eq!(pw, 17);
    assert_eq!(d, "0（電気係）（第二会議室）");
    assert_eq!(dw, 25);
    let (_, (p, pw), (d, dw)) = show_lend_data_to_string(&row(2, "9", "1"), &c);
    assert_eq!((p.as_str(), pw), ("9", 1));
    assert_eq!((d.as_str(), dw), ("1（装飾係）", 11));
    let (_, _, (d, _)) = show_lend_data_to_string(&row(2, "9", "2"), &c);
    assert_eq!(d, "2（？）（体育館）");
    let (_, _, (d, _)) = show_lend_data_to_string(&row(2, "9", "5"), &c);
    assert_eq!(d, "5");
}

#[test]
fn table_pads_columns() {
    let c = empty_config();
    let rows = vec![row(1, "0001", "0"), row(2, "12", "345")];
    let (s, w) = lend_table(&rows, &c);
    assert_eq!(w, 4);
    assert_eq!(
        s,
        "    (1):   2020/11/23 17:40   0001   0  \n    (2):   2020/11/23 17:40   12     345\n"
    );
    assert_eq!(lend_table(&vec![], &c), (String::new(), 6));
    let kept = select_loans(&rows, &vec![false, true]);
    assert_eq!(kept, vec![row(2, "12", "345")]);
}

#[test]
fn show_lists_open_loans() {
    let log = vec![
        op(1, LendType::Lend("0001".to_string(), "0".to_string())),
        op(2, LendType::Lend("0002".to_string(), "1".to_string())),
        op(3, LendType::Lend("1003".to_string(), "1".to_string())),
        op(4, LendType::Return("0001".to_string(), "0".to_string())),
    ];
    let (s, w) = make_lend_data_str(log.clone(), empty_config(), None);
    assert_eq!(w, 4);
    assert_eq!(
        s,
        "    (2):   2020/11/23 17:40   0002   1\n    (3):   2020/11/23 17:40   1003   1\n"
    );
    let filter = Some((regex::Regex::new("^0").unwrap(), regex::Regex::new("1").unwrap()));
    let (s, _) = make_lend_data_str(log, empty_config(), filter);
    assert_eq!(s, "    (2):   2020/11/23 17:40   0002   1\n");
}
