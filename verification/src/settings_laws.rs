//! What holds of the settings, of the file that holds them, and of the texts that they are written in.

use crate::config::{variable, Config};
use crate::env_file::{file_settings, line_setting};
use crate::market_finder::is_soonest;
use crate::text::{
    digits_value, first_place, is_digit, is_digits, lemma_first_place, number_within, trimmed, trimmed_back, trimmed_front,
    whole_number, Padding,
};
use vstd::prelude::*;

verus! {

/// The value of a variable is that of the first one with its name.
pub proof fn law_first_variable_counts(
    vars: Seq<(Seq<char>, Seq<char>)>,
    other: Seq<char>,
    value: Seq<char>,
    name: Seq<char>,
)
    ensures
        variable(Seq::empty(), name) is None,
        other == name ==> variable(seq![(other, value)] + vars, name) == Some(value),
        other != name ==> variable(seq![(other, value)] + vars, name) == variable(vars, name),
{
    let all = seq![(other, value)] + vars;
    assert(all[0] == (other, value));
    assert(all.skip(1) =~= vars);
}

/// Whether `field` is the number that the variable `name` writes, or `default` where there is no such
/// variable or it writes no number of that size.
pub open spec fn is_number_setting(
    field: int,
    vars: Seq<(Seq<char>, Seq<char>)>,
    name: Seq<char>,
    signed: bool,
    low: int,
    high: int,
    default: int,
) -> bool {
    &&& variable(vars, name) is None ==> field == default
    &&& variable(vars, name) matches Some(text) ==> field == (match whole_number(text, signed) {
        Some(n) => if low <= n <= high {
            n
        } else {
            default
        },
        None => default,
    })
}

/// Whether `field` is the text of the variable `name`, or `default` where there is no such variable.
pub open spec fn is_text_setting(
    field: Seq<char>,
    vars: Seq<(Seq<char>, Seq<char>)>,
    name: Seq<char>,
    default: Seq<char>,
) -> bool {
    &&& variable(vars, name) is None ==> field == default
    &&& variable(vars, name) matches Some(text) ==> field == text
}

/// Each setting is made by the variable of its own, and has its own default.
pub proof fn law_each_setting_has_its_variable(config: Config, vars: Seq<(Seq<char>, Seq<char>)>)
    requires
        config.read_from(vars),
    ensures
        is_text_setting(
            config.rest_base_url@,
            vars,
            "REST_BASE_URL"@,
            "https://api.elections.kalshi.com/trade-api/v2"@,
        ),
        is_text_setting(config.ws_url@, vars, "WS_URL"@, "wss://api.elections.kalshi.com/trade-api/ws/v2"@),
        is_text_setting(config.series_ticker@, vars, "SERIES_TICKER"@, "KXBTC15M"@),
        is_number_setting(
            config.min_pair_profit_cents as int,
            vars,
            "MIN_PAIR_PROFIT"@,
            true,
            i64::MIN as int,
            i64::MAX as int,
            1,
        ),
        is_number_setting(
            config.max_inventory as int,
            vars,
            "MAX_INVENTORY"@,
            true,
            i64::MIN as int,
            i64::MAX as int,
            5,
        ),
        is_number_setting(
            config.hard_inventory_cap as int,
            vars,
            "HARD_INVENTORY_CAP"@,
            true,
            i64::MIN as int,
            i64::MAX as int,
            10,
        ),
        is_number_setting(
            config.daily_loss_cap_cents as int,
            vars,
            "DAILY_LOSS_CAP"@,
            true,
            i64::MIN as int,
            i64::MAX as int,
            500,
        ),
        is_number_setting(
            config.rate_limit_writes_per_sec as int,
            vars,
            "RATE_LIMIT_WPS"@,
            false,
            0,
            u32::MAX as int,
            28,
        ),
        is_number_setting(
            config.inventory_skew_threshold as int,
            vars,
            "INVENTORY_SKEW_THRESHOLD"@,
            true,
            i64::MIN as int,
            i64::MAX as int,
            2,
        ),
        is_number_setting(
            config.quote_refresh_interval_ms as int,
            vars,
            "QUOTE_REFRESH_MS"@,
            false,
            0,
            u64::MAX as int,
            5,
        ),
        is_number_setting(config.rest_timeout_ms as int, vars, "REST_TIMEOUT_MS"@, false, 0, u64::MAX as int, 2000),
        is_number_setting(
            config.market_rotate_before_close_secs as int,
            vars,
            "ROTATE_BEFORE_CLOSE_SECS"@,
            true,
            i64::MIN as int,
            i64::MAX as int,
            90,
        ),
        config.market_check_interval_ms == 30000,
{
}

/// A number within bounds is one that is written and lies between them.
pub proof fn law_number_within_bounds(text: Seq<char>, signed: bool, low: int, high: int, n: int)
    ensures
        number_within(text, signed, low, high) == Some(n) <==> whole_number(text, signed) == Some(n) && low <= n <= high,
{
}

/// A written number, digit by digit: a digit after a number makes ten times the number with the digit
/// added, away from zero. A text that ends in anything but a digit writes no number.
pub proof fn law_digit_after_a_number(text: Seq<char>, signed: bool, c: char)
    ensures
        whole_number(text, signed) matches Some(n) ==> ('0' <= c <= '9' ==> whole_number(text.push(c), signed) == Some(
            if text[0] == '-' {
                10 * n - (c as u32 - '0' as u32)
            } else {
                10 * n + (c as u32 - '0' as u32)
            },
        )),
        !('0' <= c <= '9') ==> whole_number(text.push(c), signed) is None,
        text.len() > 0 && whole_number(text, signed) is None && !(text.len() == 1 && (text[0] == '+' || (signed && text[0]
            == '-'))) ==> whole_number(text.push(c), signed) is None,
{
    let longer = text.push(c);
    if text.len() > 0 {
        assert(longer[0] == text[0]);
        assert(longer.skip(1) =~= text.skip(1).push(c));
        assert(text.skip(1).push(c).drop_last() =~= text.skip(1));
    } else {
        assert(longer.skip(1) =~= Seq::empty());
    }
    assert(longer.drop_last() =~= text);
    let minus = signed && longer[0] == '-';
    let plus = longer[0] == '+';
    let before = if text.len() > 0 && (minus || plus) {
        text.skip(1)
    } else {
        text
    };
    if text.len() > 0 {
        let digits = if minus || plus {
            longer.skip(1)
        } else {
            longer
        };
        assert(digits =~= before.push(c));
        assert(digits.drop_last() =~= before);
        assert(digits.last() == c);
        assert(digits[digits.len() - 1] == c);
        if is_digits(digits) {
            assert forall|i: int| 0 <= i < before.len() implies is_digit(#[trigger] before[i]) by {
                assert(digits[i] == before[i]);
            }
        }
        if is_digits(before) && is_digit(c) {
            assert forall|i: int| 0 <= i < digits.len() implies is_digit(#[trigger] digits[i]) by {
                if i < before.len() {
                    assert(digits[i] == before[i]);
                }
            }
        }
    } else {
        assert(longer[0] == c);
        assert(!is_digits(text));
    }
}

/// Where a number begins: a digit writes itself, a sign is followed by a digit, a minus is taken only
/// where the number may be negative, and nothing writes no number.
pub proof fn law_start_of_a_number(signed: bool, sign: char, c: char)
    requires
        '0' <= c <= '9',
        sign == '+' || sign == '-',
    ensures
        whole_number(Seq::empty(), signed) is None,
        whole_number(seq![sign], signed) is None,
        whole_number(seq![c], signed) == Some(c as u32 - '0' as u32),
        whole_number(seq!['+', c], signed) == Some(c as u32 - '0' as u32),
        whole_number(seq!['-', c], true) == Some(-(c as u32 - '0' as u32)),
        whole_number(seq!['-', c], false) is None,
{
    reveal_with_fuel(digits_value, 2);
    let one = seq![c];
    assert(one.drop_last() =~= Seq::empty());
    assert(seq!['+', c].skip(1) =~= one);
    assert(seq!['-', c].skip(1) =~= one);
    assert(seq![sign].skip(1) =~= Seq::empty());
    assert(!is_digits(Seq::empty()));
    assert(is_digits(one));
    assert(!is_digit(seq!['-', c][0]));
    assert(!is_digits(seq!['-', c]));
    assert(seq!['-'].skip(1) =~= Seq::empty());
    assert(!is_digit(seq![sign][0]));
    assert(!is_digits(seq![sign]));
}

/// Trimming takes all of the padding off both ends and nothing else; a text that is all padding is
/// trimmed away.
pub proof fn law_trimming(front: Seq<char>, core: Seq<char>, back: Seq<char>, padding: Padding)
    requires
        forall|i: int| 0 <= i < front.len() ==> padding.has(#[trigger] front[i]),
        forall|i: int| 0 <= i < back.len() ==> padding.has(#[trigger] back[i]),
        core.len() > 0 ==> !padding.has(core[0]) && !padding.has(core.last()),
    ensures
        trimmed(front + core + back, padding) == core,
{
    lemma_trimmed_front(front, core + back, padding);
    assert(front + core + back =~= front + (core + back));
    if core.len() > 0 {
        assert((core + back)[0] == core[0]);
        lemma_trimmed_back(core, back, padding);
    } else {
        assert(core + back =~= back + Seq::empty());
        lemma_trimmed_front(back, Seq::empty(), padding);
        assert(trimmed_front(core + back, padding) =~= Seq::empty());
        assert(trimmed_back(Seq::empty(), padding) =~= Seq::empty());
        assert(core =~= Seq::empty());
    }
}

proof fn lemma_trimmed_front(front: Seq<char>, rest: Seq<char>, padding: Padding)
    requires
        forall|i: int| 0 <= i < front.len() ==> padding.has(#[trigger] front[i]),
    ensures
        trimmed_front(front + rest, padding) == trimmed_front(rest, padding),
    decreases front.len(),
{
    if front.len() == 0 {
        assert(front + rest =~= rest);
    } else {
        let fewer = front.skip(1);
        assert((front + rest)[0] == front[0]);
        assert((front + rest).skip(1) =~= fewer + rest);
        assert forall|i: int| 0 <= i < fewer.len() implies padding.has(#[trigger] fewer[i]) by {
            assert(fewer[i] == front[i + 1]);
        }
        lemma_trimmed_front(fewer, rest, padding);
    }
}

proof fn lemma_trimmed_back(core: Seq<char>, back: Seq<char>, padding: Padding)
    requires
        forall|i: int| 0 <= i < back.len() ==> padding.has(#[trigger] back[i]),
        core.len() > 0,
        !padding.has(core.last()),
    ensures
        trimmed_back(core + back, padding) == core,
    decreases back.len(),
{
    if back.len() == 0 {
        assert(core + back =~= core);
    } else {
        let fewer = back.drop_last();
        assert((core + back).last() == back[back.len() - 1]);
        assert((core + back).drop_last() =~= core + fewer);
        assert forall|i: int| 0 <= i < fewer.len() implies padding.has(#[trigger] fewer[i]) by {
            assert(fewer[i] == back[i]);
        }
        lemma_trimmed_back(core, fewer, padding);
    }
}

/// A line sets the name before its first `=` to what comes after it, both without white space at
/// their ends, the value also without the quotes around it.
pub proof fn law_line_sets_a_value(left: Seq<char>, right: Seq<char>)
    requires
        left.len() > 0,
        !Padding::WhiteSpace.has(left[0]),
        left[0] != '#',
        forall|i: int| 0 <= i < left.len() ==> #[trigger] left[i] != '=',
        right.len() > 0 ==> !Padding::WhiteSpace.has(right.last()),
    ensures
        line_setting(left + seq!['='] + right) == seq![
            (
                trimmed(left, Padding::WhiteSpace),
                trimmed(trimmed(right, Padding::WhiteSpace), Padding::DoubleQuote),
            ),
        ],
{
    let line = left + seq!['='] + right;
    let none = Seq::<char>::empty();
    assert(line[0] == left[0]);
    assert(line[left.len() as int] == '=');
    assert(line.last() == (if right.len() > 0 {
        right.last()
    } else {
        '='
    }));
    law_trimming(none, line, none, Padding::WhiteSpace);
    assert(none + line + none =~= line);
    assert forall|i: int| 0 <= i < left.len() implies line[i] != '=' by {
        assert(line[i] == left[i]);
    }
    lemma_first_place(line, '=', left.len() as int);
    assert(line.take(left.len() as int) =~= left);
    assert(line.skip(left.len() as int + 1) =~= right);
}

/// White space around a line does not matter. A blank line, a comment and a line without a `=` set
/// nothing.
pub proof fn law_other_lines_set_nothing(front: Seq<char>, core: Seq<char>, back: Seq<char>)
    requires
        forall|i: int| 0 <= i < front.len() ==> Padding::WhiteSpace.has(#[trigger] front[i]),
        forall|i: int| 0 <= i < back.len() ==> Padding::WhiteSpace.has(#[trigger] back[i]),
        core.len() > 0 ==> !Padding::WhiteSpace.has(core[0]) && !Padding::WhiteSpace.has(core.last()),
    ensures
        line_setting(front + core + back) == line_setting(core),
        core.len() == 0 ==> line_setting(core).len() == 0,
        core.len() > 0 && core[0] == '#' ==> line_setting(core).len() == 0,
        (forall|i: int| 0 <= i < core.len() ==> #[trigger] core[i] != '=') ==> line_setting(core).len() == 0,
{
    let none = Seq::<char>::empty();
    law_trimming(front, core, back, Padding::WhiteSpace);
    law_trimming(none, core, none, Padding::WhiteSpace);
    assert(none + core + none =~= core);
    if forall|i: int| 0 <= i < core.len() ==> #[trigger] core[i] != '=' {
        lemma_first_place(core, '=', core.len() as int);
    }
}

/// A file is read line by line.
pub proof fn law_file_is_read_by_lines(line: Seq<char>, rest: Seq<char>)
    requires
        forall|i: int| 0 <= i < line.len() ==> #[trigger] line[i] != '\n',
    ensures
        file_settings(line) == line_setting(line),
        file_settings(line + seq!['\n'] + rest) == line_setting(line) + file_settings(rest),
{
    let all = line + seq!['\n'] + rest;
    lemma_first_place(line, '\n', line.len() as int);
    assert forall|i: int| 0 <= i < line.len() implies all[i] != '\n' by {
        assert(all[i] == line[i]);
    }
    assert(all[line.len() as int] == '\n');
    lemma_first_place(all, '\n', line.len() as int);
    assert(first_place(all, '\n') == line.len());
    assert(all.take(line.len() as int) =~= line);
    assert(all.skip(line.len() as int + 1) =~= rest);
}

/// The market to trade closes no later than any other whose closing is known, before every one listed
/// ahead of it, and one whose closing is not known is traded only where none is known.
pub proof fn law_first_closing_is_traded(closings: Seq<Option<(i64, u32)>>, k: int, other: int)
    requires
        is_soonest(closings, k),
        0 <= other < closings.len(),
        other != k,
    ensures
        closings[other] is Some ==> closings[k] is Some,
        closings[other] matches Some((secs, nanos)) ==> (closings[k] matches Some((first_secs, first_nanos)) && (first_secs
            < secs || first_secs == secs && (if other < k {
            first_nanos < nanos
        } else {
            first_nanos <= nanos
        }))),
        other < k ==> closings[k] is Some,
{
}

} // verus!
