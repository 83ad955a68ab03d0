use vstd::prelude::*;

use crate::config::MESSENGER_DELAY;
use crate::text::{decimal_string, decimal_text, find_char, first_index_of};

verus! {

/// The first line of a window search's output: the id of the first matching window.
pub open spec fn first_line(s: Seq<char>) -> Seq<char> {
    s.take(first_index_of(s, '\n') as int)
}

/// Reads the window id from the output of a window search: its first line, or `None` when
/// that line is empty (no window matched).
pub fn parse_window_id(output: &str) -> (r: Option<String>)
    ensures
        r is None <==> first_line(output@).len() == 0,
        r is Some ==> r->0@ == first_line(output@),
{
    let end = find_char(output, '\n');
    if end == 0 {
        None
    } else {
        let line = output.substring_char(0, end);
        Some(String::from_str(line))
    }
}

/// The arguments that type `msg` into window `window_id`, one keystroke every
/// `MESSENGER_DELAY` milliseconds.
pub open spec fn type_args(window_id: Seq<char>, msg: Seq<char>) -> Seq<Seq<char>> {
    seq![
        seq!['t', 'y', 'p', 'e'],
        seq!['-', '-', 'w', 'i', 'n', 'd', 'o', 'w'],
        window_id,
        seq!['-', '-', 'd', 'e', 'l', 'a', 'y'],
        decimal_text(MESSENGER_DELAY as nat),
        msg,
    ]
}

/// The arguments that press Enter in window `window_id`.
pub open spec fn key_args(window_id: Seq<char>) -> Seq<Seq<char>> {
    seq![
        seq!['k', 'e', 'y'],
        seq!['-', '-', 'w', 'i', 'n', 'd', 'o', 'w'],
        window_id,
        seq!['R', 'e', 't', 'u', 'r', 'n'],
    ]
}

/// The views of a list of strings.
pub open spec fn views(v: Seq<String>) -> Seq<Seq<char>> {
    v.map_values(|s: String| s@)
}

/// The injection command's arguments that type a message into the target window.
pub fn type_command(window_id: &str, msg: &str) -> (r: Vec<String>)
    ensures
        views(r@) == type_args(window_id@, msg@),
{
    proof {
        reveal_strlit("type");
        reveal_strlit("--window");
        reveal_strlit("--delay");
    }
    let mut r: Vec<String> = Vec::new();
    r.push(String::from_str("type"));
    r.push(String::from_str("--window"));
    r.push(String::from_str(window_id));
    r.push(String::from_str("--delay"));
    r.push(decimal_string(MESSENGER_DELAY as u64));
    r.push(String::from_str(msg));
    proof {
        let t = type_args(window_id@, msg@);
        assert(r@[0]@ =~= t[0]);
        assert(r@[1]@ =~= t[1]);
        assert(r@[3]@ =~= t[3]);
        assert(views(r@) =~= t);
    }
    r
}

/// The injection command's arguments that submit the typed message with Enter.
pub fn key_command(window_id: &str) -> (r: Vec<String>)
    ensures
        views(r@) == key_args(window_id@),
{
    proof {
        reveal_strlit("key");
        reveal_strlit("--window");
        reveal_strlit("Return");
    }
    let mut r: Vec<String> = Vec::new();
    r.push(String::from_str("key"));
    r.push(String::from_str("--window"));
    r.push(String::from_str(window_id));
    r.push(String::from_str("Return"));
    proof {
        let t = key_args(window_id@);
        assert(r@[0]@ =~= t[0]);
        assert(r@[1]@ =~= t[1]);
        assert(r@[3]@ =~= t[3]);
        assert(views(r@) =~= t);
    }
    r
}

} // verus!
