//! Numbered menus and yes/no questions on the terminal: what is shown, and
//! how an answer is read.
use vstd::prelude::*;

use crate::diagnostics::{lowercase_of, pick, to_lowercase};
use crate::locale::{t, Lang};
use crate::text::{
    chars_of, decimal, decimal_of, eq_lit, owned, push_all, push_lit, str_views, string_of, trim,
    trimmed,
};

verus! {

pub open spec fn is_digit(c: char) -> bool {
    '0' <= c && c <= '9'
}

/// The number that a run of decimal digits writes.
pub open spec fn digits_value(s: Seq<char>) -> nat
    decreases s.len(),
{
    if s.len() == 0 {
        0
    } else {
        digits_value(s.drop_last()) * 10 + ((s.last() as int) - 48) as nat
    }
}

/// The digits after one optional leading `+`.
pub open spec fn unsigned_digits(s: Seq<char>) -> Seq<char> {
    if s.len() > 0 && s[0] == '+' {
        s.subrange(1, s.len() as int)
    } else {
        s
    }
}

/// `str::parse::<usize>`: an optional `+`, then at least one decimal digit
/// and nothing else, with a value that fits in `usize`.
pub open spec fn parse_usize(s: Seq<char>) -> Option<nat> {
    let d = unsigned_digits(s);
    if d.len() == 0 || !(forall|i: int| 0 <= i < d.len() ==> is_digit(#[trigger] d[i]))
        || digits_value(d) > usize::MAX {
        None
    } else {
        Some(digits_value(d))
    }
}

/// `str::parse::<usize>`.
pub fn parse_usize_of(v: &[char]) -> (r: Option<usize>)
    ensures
        match r {
            Some(n) => parse_usize(v@) == Some(n as nat),
            None => parse_usize(v@) is None,
        },
{
    let len = v.len();
    let start: usize = if len > 0 && v[0] == '+' {
        1
    } else {
        0
    };
    let ghost d = unsigned_digits(v@);
    assert(d =~= v@.subrange(start as int, len as int));
    if start >= len {
        return None;
    }
    let mut acc: usize = 0;
    let mut overflow = false;
    let mut i: usize = start;
    assert(v@.subrange(start as int, start as int) =~= Seq::<char>::empty());
    while i < len
        invariant
            len == v@.len(),
            d == unsigned_digits(v@),
            d == v@.subrange(start as int, len as int),
            start <= i <= len,
            forall|k: int| start <= k < i ==> is_digit(#[trigger] v@[k]),
            !overflow ==> acc == digits_value(v@.subrange(start as int, i as int)),
            overflow ==> digits_value(v@.subrange(start as int, i as int)) > usize::MAX,
        decreases len - i,
    {
        let c = v[i];
        if !('0' <= c && c <= '9') {
            assert(d[i - start] == c);
            assert(!is_digit(d[i - start]));
            return None;
        }
        let ghost pre = v@.subrange(start as int, i as int);
        let ghost next = v@.subrange(start as int, i + 1);
        assert(next.drop_last() =~= pre);
        assert(next.last() == c);
        let dg: usize = ((c as u32) - 48) as usize;
        if !overflow {
            match acc.checked_mul(10) {
                Some(m) => match m.checked_add(dg) {
                    Some(a) => {
                        acc = a;
                    },
                    None => {
                        overflow = true;
                    },
                },
                None => {
                    overflow = true;
                },
            }
        }
        i = i + 1;
    }
    assert(forall|k: int| 0 <= k < d.len() ==> d[k] == v@[k + start]);
    if overflow {
        None
    } else {
        Some(acc)
    }
}

/// Why an answer picks no option.
#[derive(Debug, Clone, Copy, PartialEq, Eq, Structural)]
pub enum SelectionError {
    /// The menu has no options.
    NoOptions,
    /// The answer is not a number.
    InvalidNumber,
    /// The number is 0 or past the last option.
    OutOfRange,
}

impl SelectionError {
    /// The message of the error; an invalid number's is followed by the answer
    /// as `{:?}` shows it.
    pub fn message(&self, lang: Lang) -> (s: &'static str)
        ensures
            s@ == match *self {
                SelectionError::NoOptions => pick(lang, "没有可选项"@, "No options available"@),
                SelectionError::InvalidNumber => pick(lang, "无效编号: "@, "Invalid number: "@),
                SelectionError::OutOfRange => pick(lang, "编号超出范围"@, "Number out of range"@),
            },
    {
        match self {
            SelectionError::NoOptions => t(lang, "没有可选项", "No options available"),
            SelectionError::InvalidNumber => t(lang, "无效编号: ", "Invalid number: "),
            SelectionError::OutOfRange => t(lang, "编号超出范围", "Number out of range"),
        }
    }
}

/// The option a typed number picks, counted from 1.
pub open spec fn numbered(count: nat, answer: Seq<char>) -> Result<nat, SelectionError> {
    match parse_usize(answer) {
        None => Err(SelectionError::InvalidNumber),
        Some(c) => if c == 0 || c > count {
            Err(SelectionError::OutOfRange)
        } else {
            Ok((c - 1) as nat)
        },
    }
}

/// The option picked from a menu of `count` options: none from an empty
/// menu, the only one without asking, else the number typed (trimmed).
pub open spec fn selection(count: nat, line: Seq<char>) -> Result<nat, SelectionError> {
    if count == 0 {
        Err(SelectionError::NoOptions)
    } else if count == 1 {
        Ok(0)
    } else {
        numbered(count, trimmed(line))
    }
}

fn numbered_of(count: usize, answer: &[char]) -> (r: Result<usize, SelectionError>)
    ensures
        match numbered(count as nat, answer@) {
            Ok(i) => r == Ok::<usize, SelectionError>(i as usize),
            Err(e) => r == Err::<usize, SelectionError>(e),
        },
{
    match parse_usize_of(answer) {
        None => Err(SelectionError::InvalidNumber),
        Some(c) => if c == 0 || c > count {
            Err(SelectionError::OutOfRange)
        } else {
            Ok(c - 1)
        },
    }
}

/// The index picked by the answer `line` from a menu of `count` options (the
/// line is not read for fewer than two).
pub fn selection_from_answer(count: usize, line: &str) -> (r: Result<usize, SelectionError>)
    ensures
        match selection(count as nat, line@) {
            Ok(i) => r == Ok::<usize, SelectionError>(i as usize),
            Err(e) => r == Err::<usize, SelectionError>(e),
        },
{
    if count == 0 {
        return Err(SelectionError::NoOptions);
    }
    if count == 1 {
        return Ok(0);
    }
    let a = trim(chars_of(line).as_slice());
    numbered_of(count, a.as_slice())
}

/// The highlighted option: `default_idx`, or the last option when it is past the end.
pub open spec fn clamped_default(count: nat, default_idx: nat) -> nat {
    if count == 0 {
        0
    } else if default_idx < count {
        default_idx
    } else {
        (count - 1) as nat
    }
}

pub fn clamp_default(count: usize, default_idx: usize) -> (d: usize)
    ensures
        d == clamped_default(count as nat, default_idx as nat),
{
    let last = if count == 0 {
        0
    } else {
        count - 1
    };
    if default_idx < last {
        default_idx
    } else {
        last
    }
}

/// As `selection`, but an empty answer picks the (clamped) default.
pub open spec fn selection_with_default(count: nat, line: Seq<char>, default_idx: nat) -> Result<
    nat,
    SelectionError,
> {
    if count == 0 {
        Err(SelectionError::NoOptions)
    } else if count == 1 {
        Ok(0)
    } else if trimmed(line).len() == 0 {
        Ok(clamped_default(count, default_idx))
    } else {
        numbered(count, trimmed(line))
    }
}

/// The index picked by `line` from a menu with a highlighted default.
pub fn selection_from_answer_with_default(count: usize, line: &str, default_idx: usize) -> (r: Result<
    usize,
    SelectionError,
>)
    ensures
        match selection_with_default(count as nat, line@, default_idx as nat) {
            Ok(i) => r == Ok::<usize, SelectionError>(i as usize),
            Err(e) => r == Err::<usize, SelectionError>(e),
        },
{
    if count == 0 {
        return Err(SelectionError::NoOptions);
    }
    if count == 1 {
        return Ok(0);
    }
    let a = trim(chars_of(line).as_slice());
    if a.len() == 0 {
        return Ok(clamp_default(count, default_idx));
    }
    numbered_of(count, a.as_slice())
}

/// A menu number right-aligned in two columns (`{:>2}`).
pub open spec fn pad2(n: nat) -> Seq<char> {
    if n < 10 {
        " "@ + decimal(n)
    } else {
        decimal(n)
    }
}

fn pad2_of(n: usize) -> (r: Vec<char>)
    ensures
        r@ == pad2(n as nat),
{
    let d = decimal_of(n as u64);
    if n < 10 {
        let mut r: Vec<char> = Vec::new();
        push_lit(&mut r, " ");
        push_all(&mut r, d.as_slice());
        r
    } else {
        d
    }
}

/// One menu line: `  <n>. <option>`, with `▸` (default) or a space before the
/// number when the menu has a default.
pub open spec fn menu_line(i: nat, option: Seq<char>, default_idx: Option<nat>) -> Seq<char> {
    match default_idx {
        Some(d) => "  "@ + (if i == d {
            "▸"@
        } else {
            " "@
        }) + " "@ + pad2(i + 1) + ". "@ + option,
        None => "  "@ + pad2(i + 1) + ". "@ + option,
    }
}

/// The lines that list the options (`default_idx` already clamped).
pub fn menu_lines(options: &Vec<String>, default_idx: Option<usize>) -> (lines: Vec<String>)
    requires
        options@.len() < usize::MAX,
    ensures
        lines@.len() == options@.len(),
        forall|i: int|
            0 <= i < options@.len() ==> #[trigger] lines@[i]@ == menu_line(
                i as nat,
                options@[i]@,
                match default_idx {
                    Some(d) => Some(d as nat),
                    None => None,
                },
            ),
{
    let ghost dv = match default_idx {
        Some(d) => Some(d as nat),
        None => None::<nat>,
    };
    let mut lines: Vec<String> = Vec::new();
    let mut i: usize = 0;
    while i < options.len()
        invariant
            options@.len() < usize::MAX,
            dv == match default_idx {
                Some(d) => Some(d as nat),
                None => None::<nat>,
            },
            i <= options@.len(),
            lines@.len() == i,
            forall|k: int| 0 <= k < i ==> #[trigger] lines@[k]@ == menu_line(k as nat, options@[k]@, dv),
        decreases options@.len() - i,
    {
        let mut r: Vec<char> = Vec::new();
        push_lit(&mut r, "  ");
        match default_idx {
            Some(d) => {
                if i == d {
                    push_lit(&mut r, "▸");
                } else {
                    push_lit(&mut r, " ");
                }
                push_lit(&mut r, " ");
            },
            None => {},
        }
        push_all(&mut r, pad2_of(i + 1).as_slice());
        push_lit(&mut r, ". ");
        push_lit(&mut r, options[i].as_str());
        lines.push(string_of(r.as_slice()));
        i = i + 1;
    }
    lines
}

/// The question after the options.
pub open spec fn menu_prompt(count: nat, default_idx: Option<nat>, lang: Lang) -> Seq<char> {
    match default_idx {
        None => pick(
            lang,
            "请输入编号 [1-"@ + decimal(count) + "]："@,
            "Enter number [1-"@ + decimal(count) + "]: "@,
        ),
        Some(d) => pick(
            lang,
            "请输入编号 [1-"@ + decimal(count) + "，回车="@ + decimal(d + 1) + "]："@,
            "Enter number [1-"@ + decimal(count) + "，Enter="@ + decimal(d + 1) + "]: "@,
        ),
    }
}

pub fn menu_prompt_text(count: usize, default_idx: Option<usize>, lang: Lang) -> (s: String)
    requires
        default_idx matches Some(d) ==> d < usize::MAX,
    ensures
        s@ == menu_prompt(
            count as nat,
            match default_idx {
                Some(d) => Some(d as nat),
                None => None,
            },
            lang,
        ),
{
    let mut r: Vec<char> = Vec::new();
    push_lit(&mut r, t(lang, "请输入编号 [1-", "Enter number [1-"));
    push_all(&mut r, decimal_of(count as u64).as_slice());
    match default_idx {
        None => {
            push_lit(&mut r, t(lang, "]：", "]: "));
        },
        Some(d) => {
            push_lit(&mut r, t(lang, "，回车=", "，Enter="));
            push_all(&mut r, decimal_of((d + 1) as u64).as_slice());
            push_lit(&mut r, t(lang, "]：", "]: "));
        },
    }
    string_of(r.as_slice())
}

/// The notice shown instead of a menu with one option.
pub open spec fn only_option(title: Seq<char>, option: Seq<char>, lang: Lang) -> Seq<char> {
    match lang {
        Lang::ZhCn => title + "："@ + option + "（仅此一项）"@,
        Lang::En => title + ": "@ + option + " (only option)"@,
    }
}

pub fn only_option_notice(title: &str, option: &str, lang: Lang) -> (s: String)
    ensures
        s@ == only_option(title@, option@, lang),
{
    let mut r = chars_of(title);
    push_lit(&mut r, t(lang, "：", ": "));
    push_lit(&mut r, option);
    push_lit(&mut r, t(lang, "（仅此一项）", " (only option)"));
    string_of(r.as_slice())
}

/// The yes/no question: the prompt and `[Y/n]` or `[y/N]`.
pub fn confirm_prompt(prompt: &str, default_yes: bool) -> (s: String)
    ensures
        s@ == prompt@ + " ["@ + (if default_yes {
            "Y/n"@
        } else {
            "y/N"@
        }) + "]："@,
{
    let mut r = chars_of(prompt);
    push_lit(&mut r, " [");
    push_lit(
        &mut r,
        if default_yes {
            "Y/n"
        } else {
            "y/N"
        },
    );
    push_lit(&mut r, "]：");
    string_of(r.as_slice())
}

/// A lowercased answer: empty or unknown keeps the default, `y`/`yes` says
/// yes, `n`/`no` says no.
pub open spec fn answer_yes(answer: Seq<char>, default_yes: bool) -> bool {
    if answer == "y"@ || answer == "yes"@ {
        true
    } else if answer == "n"@ || answer == "no"@ {
        false
    } else {
        default_yes
    }
}

pub fn confirm_lowercased(answer: &str, default_yes: bool) -> (b: bool)
    ensures
        b == answer_yes(answer@, default_yes),
{
    let a = chars_of(answer);
    if eq_lit(a.as_slice(), "y") || eq_lit(a.as_slice(), "yes") {
        true
    } else if eq_lit(a.as_slice(), "n") || eq_lit(a.as_slice(), "no") {
        false
    } else {
        default_yes
    }
}

/// The answer to a yes/no question, read from the typed line trimmed and lowercased.
pub fn confirm_answer(line: &str, default_yes: bool) -> (b: bool)
    ensures
        b == answer_yes(lowercase_of(trimmed(line@)), default_yes),
{
    let tr = string_of(trim(chars_of(line).as_slice()).as_slice());
    let lower = to_lowercase(tr.as_str());
    confirm_lowercased(lower.as_str(), default_yes)
}

/// A menu answer that picks an option picks one of the menu's options.
pub proof fn law_selection_in_range(count: nat, line: Seq<char>, default_idx: nat)
    ensures
        selection(count, line) matches Ok(i) ==> i < count,
        selection_with_default(count, line, default_idx) matches Ok(i) ==> i < count,
{
}

proof fn lemma_decimal_digits(n: nat)
    ensures
        decimal(n).len() > 0,
        forall|i: int| 0 <= i < decimal(n).len() ==> is_digit(#[trigger] decimal(n)[i]),
        digits_value(decimal(n)) == n,
    decreases n,
{
    assert((((48 + n % 10) as u8) as char) as int == 48 + n % 10);
    if n < 10 {
        let e = decimal(n);
        assert(e.drop_last() =~= Seq::<char>::empty());
        assert((((48 + n) as u8) as char) as int == 48 + n);
        assert(e.last() == ((48 + n) as u8) as char);
        assert(digits_value(e) == digits_value(e.drop_last()) * 10 + ((e.last() as int) - 48) as nat);
        assert(digits_value(e) == n);
    }
    if n >= 10 {
        lemma_decimal_digits(n / 10);
        let d = decimal(n / 10);
        let e = decimal(n);
        assert(e.drop_last() =~= d);
        assert(n == (n / 10) * 10 + n % 10) by (nonlinear_arith);
        assert(e.last() == ((48 + n % 10) as u8) as char);
        assert(digits_value(e) == digits_value(d) * 10 + n % 10);
        assert(digits_value(e) == n);
        assert forall|i: int| 0 <= i < e.len() implies is_digit(#[trigger] e[i]) by {
            if i < d.len() {
                assert(e[i] == d[i]);
            }
        }
    }
}

/// Typing the number that a menu shows before an option picks that option.
pub proof fn law_shown_number_picks_option(count: nat, i: nat)
    requires
        2 <= count <= usize::MAX,
        i < count,
    ensures
        selection(count, decimal(i + 1)) == Ok::<nat, SelectionError>(i),
{
    let d = decimal((i + 1) as nat);
    lemma_decimal_digits((i + 1) as nat);
    assert(!crate::text::is_ws(d[0]));
    assert(crate::text::trim_start(d) == d);
    assert(!crate::text::is_ws(d.last()));
    assert(crate::text::trim_end(d) == d);
    assert(unsigned_digits(d) == d);
}

} // verus!
