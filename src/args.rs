use vstd::prelude::*;
use vstd::string::*;
use crate::text::same_text;

verus! {

#[verifier::external_type_specification]
#[verifier::external_body]
pub struct ExRegex(regex::Regex);

/// Whether `regex::Regex::new` accepts the pattern.
pub uninterp spec fn pattern_compiles(p: Seq<char>) -> bool;

/// Relies on `regex::Regex::new`: whether it returns `Ok` depends on the
/// pattern alone.
#[verifier::external_body]
fn compile_pattern(p: &str) -> (r: Option<regex::Regex>)
    ensures
        r is Some <==> pattern_compiles(p@),
{
    regex::Regex::new(p).ok()
}

/// The small letter of an ASCII capital; every other character as it is.
pub open spec fn lower_char(c: char) -> char {
    match c {
        'A' => 'a',
        'B' => 'b',
        'C' => 'c',
        'D' => 'd',
        'E' => 'e',
        'F' => 'f',
        'G' => 'g',
        'H' => 'h',
        'I' => 'i',
        'J' => 'j',
        'K' => 'k',
        'L' => 'l',
        'M' => 'm',
        'N' => 'n',
        'O' => 'o',
        'P' => 'p',
        'Q' => 'q',
        'R' => 'r',
        'S' => 's',
        'T' => 't',
        'U' => 'u',
        'V' => 'v',
        'W' => 'w',
        'X' => 'x',
        'Y' => 'y',
        'Z' => 'z',
        _ => c,
    }
}

pub open spec fn lower(s: Seq<char>) -> Seq<char> {
    s.map_values(|c: char| lower_char(c))
}

/// Relies on `str::to_ascii_lowercase`: ASCII capitals become small letters,
/// every other character stays.
#[verifier::external_body]
pub(crate) fn ascii_lowercase(s: &str) -> (r: String)
    ensures
        r@ == lower(s@),
{
    s.to_ascii_lowercase()
}

pub open spec fn is_digit(c: char) -> bool {
    '0' <= c && c <= '9'
}

/// The value of a text of decimal digits.
pub open spec fn digits_value(s: Seq<char>) -> int
    decreases s.len(),
{
    if s.len() == 0 {
        0
    } else {
        digits_value(s.drop_last()) * 10 + (s.last() as u32 - '0' as u32)
    }
}

pub open spec fn all_digits(s: Seq<char>) -> bool {
    s.len() > 0 && forall|i: int| 0 <= i < s.len() ==> is_digit(#[trigger] s[i])
}

/// The integer that a text writes as an optional sign ('-' only where
/// `signed`) and one or more decimal digits, and nothing else.
pub open spec fn decimal(s: Seq<char>, signed: bool) -> Option<int> {
    if s.len() > 0 && s[0] == '+' && all_digits(s.drop_first()) {
        Some(digits_value(s.drop_first()))
    } else if signed && s.len() > 0 && s[0] == '-' && all_digits(s.drop_first()) {
        Some(-digits_value(s.drop_first()))
    } else if all_digits(s) {
        Some(digits_value(s))
    } else {
        None
    }
}

pub open spec fn usize_value(s: Seq<char>) -> Option<usize> {
    match decimal(s, false) {
        Some(v) => if v <= usize::MAX {
            Some(v as usize)
        } else {
            None
        },
        None => None,
    }
}

pub open spec fn isize_value(s: Seq<char>) -> Option<isize> {
    match decimal(s, true) {
        Some(v) => if isize::MIN <= v <= isize::MAX {
            Some(v as isize)
        } else {
            None
        },
        None => None,
    }
}

/// Relies on `str::parse::<usize>`: an optional '+' and decimal digits, with
/// no other character, whose value fits.
#[verifier::external_body]
fn parse_usize(s: &str) -> (r: Option<usize>)
    ensures
        r == usize_value(s@),
{
    s.parse::<usize>().ok()
}

/// Relies on `str::parse::<isize>`: an optional '+' or '-' and decimal
/// digits, with no other character, whose value fits.
#[verifier::external_body]
pub(crate) fn parse_isize(s: &str) -> (r: Option<isize>)
    ensures
        r == isize_value(s@),
{
    s.parse::<isize>().ok()
}

/// A command line of the interactive shell, taken apart.
#[derive(Debug, Clone)]
pub enum DlmArg {
    /// Nothing to do: an empty line or a comment.
    Null,
    Help,
    Exit,
    /// A command word that is not known, in small letters.
    NotFoundCommandName(String),
    /// Arguments that do not fit the command, with what is wrong with them.
    MissingArgument(String),
    /// Show the given number of latest command lines.
    History(usize),
    /// Show the open loans, those whose item and destination match the two
    /// patterns where they are given.
    Show(Option<(regex::Regex, regex::Regex)>),
    AllPrint,
    Check,
    /// Lend the items to the destination.
    Lend(Vec<String>, String),
    /// Take the items back from the destination.
    Return(Vec<String>, String),
    /// Change the item and destination of the operation with the number.
    Edit(isize, String, String),
    /// Take the operation with the number as never done.
    Remove(isize),
}

pub open spec fn views(args: Seq<&str>) -> Seq<Seq<char>> {
    args.map_values(|a: &str| a@)
}

pub open spec fn names(v: Seq<String>) -> Seq<Seq<char>> {
    v.map_values(|s: String| s@)
}

/// `r` reports arguments that do not fit, with message `m`.
pub open spec fn says(r: DlmArg, m: Seq<char>) -> bool {
    r matches DlmArg::MissingArgument(s) && s@ == m
}

/// A command that takes no argument.
pub open spec fn bare(args: Seq<Seq<char>>, r: DlmArg, cmd: DlmArg) -> bool {
    if args.len() >= 2 {
        says(r, "引数は不要です"@)
    } else {
        r == cmd
    }
}

/// A batch command: items, then one destination.
pub open spec fn batch_args(args: Seq<Seq<char>>, r: DlmArg, lend: bool) -> bool {
    let n = args.len();
    if n == 1 {
        says(r, if lend { "貸出品を与えてください"@ } else { "返却品を与えてください"@ })
    } else if n < 3 {
        says(r, if lend { "貸出先を与えてください"@ } else { "返却先を与えてください"@ })
    } else if lend {
        r matches DlmArg::Lend(items, d) && names(items@) == args.subrange(1, n - 1) && d@ == args[n - 1]
    } else {
        r matches DlmArg::Return(items, d) && names(items@) == args.subrange(1, n - 1) && d@ == args[n - 1]
    }
}

/// What a command line, split at white space, means. The command word is
/// read without regard to the case of ASCII letters.
pub open spec fn parsed(args: Seq<Seq<char>>, r: DlmArg) -> bool {
    let n = args.len();
    if n == 0 {
        r is Null
    } else {
        let c = lower(args[0]);
        if c == "exit"@ {
            bare(args, r, DlmArg::Exit)
        } else if c == "help"@ {
            bare(args, r, DlmArg::Help)
        } else if c == "all"@ {
            bare(args, r, DlmArg::AllPrint)
        } else if c == "check"@ {
            bare(args, r, DlmArg::Check)
        } else if c == "history"@ {
            if n >= 3 {
                says(r, "引数は1つまでです"@)
            } else if n == 1 {
                r == DlmArg::History(10)
            } else {
                match usize_value(args[1]) {
                    Some(v) => r == DlmArg::History(v),
                    None => says(r, "数字を入力してください"@),
                }
            }
        } else if c == "show"@ {
            if n >= 4 {
                says(r, "引数は2つまでです"@)
            } else if n == 1 {
                r == DlmArg::Show(None)
            } else if n == 2 {
                says(r, "フィルターを書ける場合は引数は2つ必要です"@)
            } else if pattern_compiles(args[1]) && pattern_compiles(args[2]) {
                r matches DlmArg::Show(Some(_))
            } else {
                says(r, "正規表現として不正な引数です"@)
            }
        } else if c == "lend"@ || c == "l"@ {
            batch_args(args, r, true)
        } else if c == "return"@ || c == "r"@ {
            batch_args(args, r, false)
        } else if c == "edit"@ {
            if n >= 5 {
                says(r, "引数は3までです"@)
            } else if n == 1 {
                says(r, "編集対象の通し番号を与えてください"@)
            } else {
                match isize_value(args[1]) {
                    None => says(r, "数字を与えてください"@),
                    Some(i) => if n == 2 {
                        says(r, "編集後の品名を与えてください"@)
                    } else if n == 3 {
                        says(r, "編集後の貸出先を与えてください"@)
                    } else {
                        r matches DlmArg::Edit(j, p, d) && j == i && p@ == args[2] && d@ == args[3]
                    },
                }
            }
        } else if c == "remove"@ {
            if n >= 3 {
                says(r, "引数は1つまでです"@)
            } else if n == 1 {
                says(r, "削除対象の操作の番号を与えてください"@)
            } else {
                match isize_value(args[1]) {
                    None => says(r, "数字を与えてください"@),
                    Some(i) => r == DlmArg::Remove(i),
                }
            }
        } else if c == "#"@ {
            r is Null
        } else {
            r matches DlmArg::NotFoundCommandName(s) && s@ == c
        }
    }
}

fn missing(m: &str) -> (r: DlmArg)
    ensures
        says(r, m@),
{
    DlmArg::MissingArgument(String::from_str(m))
}

fn copy_texts(arg: &Vec<&str>, from: usize, to: usize) -> (r: Vec<String>)
    requires
        from <= to <= arg@.len(),
    ensures
        names(r@) == views(arg@).subrange(from as int, to as int),
{
    let mut out: Vec<String> = Vec::new();
    let mut i: usize = from;
    while i < to
        invariant
            from <= i <= to,
            to <= arg@.len(),
            names(out@) == views(arg@).subrange(from as int, i as int),
        decreases to - i,
    {
        let t = String::from_str(arg[i]);
        let ghost before = out@;
        out.push(t);
        assert(names(out@) =~= names(before).push(views(arg@)[i as int]));
        assert(views(arg@).subrange(from as int, i + 1) =~= views(arg@).subrange(
            from as int,
            i as int,
        ).push(views(arg@)[i as int]));
        i += 1;
    }
    out
}

/// Takes a command line apart, split at white space, into what it asks for.
pub fn parse_arg(arg: Vec<&str>) -> (r: DlmArg)
    ensures
        parsed(views(arg@), r),
{
    let ghost a = views(arg@);
    let n = arg.len();
    if n == 0 {
        return DlmArg::Null;
    }
    let cmd = ascii_lowercase(arg[0]);
    let c = cmd.as_str();
    assert(a[0] == arg@[0]@);
    if same_text(c, "exit") {
        if n >= 2 { missing("引数は不要です") } else { DlmArg::Exit }
    } else if same_text(c, "help") {
        if n >= 2 { missing("引数は不要です") } else { DlmArg::Help }
    } else if same_text(c, "all") {
        if n >= 2 { missing("引数は不要です") } else { DlmArg::AllPrint }
    } else if same_text(c, "check") {
        if n >= 2 { missing("引数は不要です") } else { DlmArg::Check }
    } else if same_text(c, "history") {
        if n >= 3 {
            missing("引数は1つまでです")
        } else if n == 1 {
            DlmArg::History(10)
        } else {
            assert(a[1] == arg@[1]@);
            match parse_usize(arg[1]) {
                Some(v) => DlmArg::History(v),
                None => missing("数字を入力してください"),
            }
        }
    } else if same_text(c, "show") {
        if n >= 4 {
            missing("引数は2つまでです")
        } else if n == 1 {
            DlmArg::Show(None)
        } else if n == 2 {
            missing("フィルターを書ける場合は引数は2つ必要です")
        } else {
            assert(a[1] == arg@[1]@ && a[2] == arg@[2]@);
            match (compile_pattern(arg[1]), compile_pattern(arg[2])) {
                (Some(p), Some(d)) => DlmArg::Show(Some((p, d))),
                _ => missing("正規表現として不正な引数です"),
            }
        }
    } else if same_text(c, "lend") || same_text(c, "l") {
        if n == 1 {
            missing("貸出品を与えてください")
        } else if n < 3 {
            missing("貸出先を与えてください")
        } else {
            assert(a[n - 1] == arg@[n - 1]@);
            DlmArg::Lend(copy_texts(&arg, 1, n - 1), String::from_str(arg[n - 1]))
        }
    } else if same_text(c, "return") || same_text(c, "r") {
        if n == 1 {
            missing("返却品を与えてください")
        } else if n < 3 {
            missing("返却先を与えてください")
        } else {
            assert(a[n - 1] == arg@[n - 1]@);
            DlmArg::Return(copy_texts(&arg, 1, n - 1), String::from_str(arg[n - 1]))
        }
    } else if same_text(c, "edit") {
        if n >= 5 {
            missing("引数は3までです")
        } else if n == 1 {
            missing("編集対象の通し番号を与えてください")
        } else {
            assert(a[1] == arg@[1]@);
            match parse_isize(arg[1]) {
                None => missing("数字を与えてください"),
                Some(i) => if n == 2 {
                    missing("編集後の品名を与えてください")
                } else if n == 3 {
                    missing("編集後の貸出先を与えてください")
                } else {
                    assert(a[2] == arg@[2]@ && a[3] == arg@[3]@);
                    DlmArg::Edit(i, String::from_str(arg[2]), String::from_str(arg[3]))
                },
            }
        }
    } else if same_text(c, "remove") {
        if n >= 3 {
            missing("引数は1つまでです")
        } else if n == 1 {
            missing("削除対象の操作の番号を与えてください")
        } else {
            assert(a[1] == arg@[1]@);
            match parse_isize(arg[1]) {
                None => missing("数字を与えてください"),
                Some(i) => DlmArg::Remove(i),
            }
        }
    } else if same_text(c, "#") {
        DlmArg::Null
    } else {
        DlmArg::NotFoundCommandName(cmd)
    }
}

} // verus!
