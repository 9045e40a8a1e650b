//! The file of settings: lines of the form `NAME=value`.

use crate::text::{chars_of, find_from, first_place, lemma_first_place_bounds, trim, trimmed, Padding};
use vstd::prelude::*;
use vstd::string::*;

verus! {

/// What one line sets: nothing where it is blank, a `#` comment or without a `=`; else the name
/// before the first `=`, trimmed, and the value after it, trimmed and without its quotes.
pub open spec fn line_setting(line: Seq<char>) -> Seq<(Seq<char>, Seq<char>)> {
    let text = trimmed(line, Padding::WhiteSpace);
    let at = first_place(text, '=');
    if text.len() == 0 || text[0] == '#' || at == text.len() {
        Seq::empty()
    } else {
        seq![
            (
                trimmed(text.take(at), Padding::WhiteSpace),
                trimmed(trimmed(text.skip(at + 1), Padding::WhiteSpace), Padding::DoubleQuote),
            ),
        ]
    }
}

/// What the lines of a file set, in order.
pub open spec fn file_settings(contents: Seq<char>) -> Seq<(Seq<char>, Seq<char>)>
    decreases contents.len(),
    via file_settings_decreases
{
    let end = first_place(contents, '\n');
    if end == contents.len() {
        line_setting(contents)
    } else {
        line_setting(contents.take(end)) + file_settings(contents.skip(end + 1))
    }
}

#[via_fn]
proof fn file_settings_decreases(contents: Seq<char>) {
    lemma_first_place_bounds(contents, '\n');
}

/// Names and values, as plain sequences of characters.
pub open spec fn settings_view(settings: Seq<(String, String)>) -> Seq<(Seq<char>, Seq<char>)> {
    settings.map_values(|pair: (String, String)| (pair.0@, pair.1@))
}

/// What one line sets, if it sets anything.
fn parse_line(line: &str) -> (r: Option<(String, String)>)
    ensures
        line_setting(line@) == (match r {
            Some(pair) => seq![(pair.0@, pair.1@)],
            None => Seq::empty(),
        }),
{
    let text: &str = trim(line, Padding::WhiteSpace);
    let chars: Vec<char> = chars_of(text);
    if chars.len() == 0 || chars[0] == '#' {
        return None;
    }
    assert(chars@.skip(0) =~= chars@);
    let at: usize = find_from(&chars, 0, '=');
    if at == chars.len() {
        return None;
    }
    let name: &str = text.substring_char(0, at);
    let value: &str = text.substring_char(at + 1, chars.len());
    proof {
        assert(name@ =~= text@.take(at as int));
        assert(value@ =~= text@.skip(at + 1));
    }
    Some(
        (
            trim(name, Padding::WhiteSpace).to_owned(),
            trim(trim(value, Padding::WhiteSpace), Padding::DoubleQuote).to_owned(),
        ),
    )
}

/// The names and values that a file of settings holds, in the order of its lines.
pub fn parse_env_file(contents: &str) -> (r: Vec<(String, String)>)
    ensures
        settings_view(r@) == file_settings(contents@),
{
    let chars: Vec<char> = chars_of(contents);
    let mut settings: Vec<(String, String)> = Vec::new();
    let mut from: usize = 0;
    proof {
        assert(chars@.skip(0) =~= chars@);
        assert(settings_view(settings@) + file_settings(contents@) =~= file_settings(contents@));
    }
    loop
        invariant
            chars@ == contents@,
            from <= chars.len(),
            file_settings(contents@) == settings_view(settings@) + file_settings(contents@.skip(from as int)),
        decreases chars.len() - from,
    {
        let len: usize = find_from(&chars, from, '\n');
        let line: &str = contents.substring_char(from, from + len);
        let ghost rest = contents@.skip(from as int);
        let ghost before = settings@;
        proof {
            assert(line@ =~= rest.take(len as int));
        }
        match parse_line(line) {
            Some(pair) => {
                settings.push(pair);
                assert(settings_view(settings@) =~= settings_view(before) + seq![(pair.0@, pair.1@)]);
            },
            None => {
                assert(settings_view(settings@) =~= settings_view(before) + Seq::empty());
            },
        }
        if len == chars.len() - from {
            assert(rest.take(len as int) =~= rest);
            return settings;
        }
        proof {
            assert(rest.skip(len + 1) =~= contents@.skip(from + len + 1));
        }
        from = from + len + 1;
        proof {
            let rest_settings = file_settings(contents@.skip(from as int));
            assert(settings_view(before) + (line_setting(line@) + rest_settings) =~= settings_view(settings@)
                + rest_settings);
        }
    }
}

} // verus!
