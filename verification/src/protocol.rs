//! The line protocol: what a request line asks for, and the text of each reply.
//!
//! A request is one line of fields separated by single spaces. The first field
//! is the command. Fields that hold a list separate its items by tabs.

use vstd::prelude::*;
use crate::registry::append_chars;
use crate::text::{join_with, split_chars, split_on, string_views, to_chars, to_text, views};

verus! {

/// What a request line asks for.
#[derive(Debug, PartialEq, Eq)]
pub enum Command {
    /// `n`: is the request for `url`, made by the page at `source` for a resource
    /// of type `kind`, blocked?
    Network { url: String, source: String, kind: String },
    /// `c`: which selectors are hidden on the page at `url`, where elements with
    /// these ids and classes were seen?
    Cosmetic { url: String, ids: Vec<String>, classes: Vec<String> },
    /// `r`: refresh the lists that are due and load the rules again.
    Reload,
    /// `u`: refresh every list and load the rules again.
    Update,
    /// Any other command.
    Unknown,
    /// A query that lacks one of its three fields.
    Malformed,
}

/// A command, with its texts as sequences of characters.
pub enum CommandView {
    Network { url: Seq<char>, source: Seq<char>, kind: Seq<char> },
    Cosmetic { url: Seq<char>, ids: Seq<Seq<char>>, classes: Seq<Seq<char>> },
    Reload,
    Update,
    Unknown,
    Malformed,
}

impl View for Command {
    type V = CommandView;

    open spec fn view(&self) -> CommandView {
        match self {
            Command::Network { url, source, kind } => CommandView::Network {
                url: url@,
                source: source@,
                kind: kind@,
            },
            Command::Cosmetic { url, ids, classes } => CommandView::Cosmetic {
                url: url@,
                ids: string_views(ids@),
                classes: string_views(classes@),
            },
            Command::Reload => CommandView::Reload,
            Command::Update => CommandView::Update,
            Command::Unknown => CommandView::Unknown,
            Command::Malformed => CommandView::Malformed,
        }
    }
}

/// What a request line asks for. A query takes the three fields after the
/// command and ignores any further ones; the ids and classes of a cosmetic query
/// are the tab-separated items of its second and third field.
pub open spec fn parsed_command(line: Seq<char>) -> CommandView {
    let fields = split_on(line, ' ');
    let command = fields[0];
    if command == seq!['n'] {
        if fields.len() >= 4 {
            CommandView::Network { url: fields[1], source: fields[2], kind: fields[3] }
        } else {
            CommandView::Malformed
        }
    } else if command == seq!['c'] {
        if fields.len() >= 4 {
            CommandView::Cosmetic {
                url: fields[1],
                ids: split_on(fields[2], '\t'),
                classes: split_on(fields[3], '\t'),
            }
        } else {
            CommandView::Malformed
        }
    } else if command == seq!['r'] {
        CommandView::Reload
    } else if command == seq!['u'] {
        CommandView::Update
    } else {
        CommandView::Unknown
    }
}

/// The reply to a network query: `1` where the request is blocked, else `0`.
pub open spec fn network_reply(blocked: bool) -> Seq<char> {
    if blocked {
        seq!['1']
    } else {
        seq!['0']
    }
}

/// What stands between two selectors of a style rule.
pub open spec fn selector_separator() -> Seq<char> {
    seq![',', ' ']
}

/// The declaration that hides what the selectors of a style rule match.
pub open spec fn hide_declaration() -> Seq<char> {
    " { display: none !important; }"@
}

/// The reply to a cosmetic query: the selectors, separated by a comma and a
/// space, then the declaration that hides them, then a line feed. Where that list
/// is empty the reply is the line feed alone.
pub open spec fn style_rule(selectors: Seq<Seq<char>>) -> Seq<char> {
    let list = join_with(selectors, selector_separator());
    if list.len() == 0 {
        seq!['\n']
    } else {
        list + hide_declaration() + seq!['\n']
    }
}

/// The reply to a command that is none of `n`, `c`, `r` and `u`.
pub open spec fn unknown_reply() -> Seq<char> {
    "Unknown code supplied"@
}

/// The reply to a reload or an update: `0` where it was carried out, `1` where it
/// failed and the rules stay as they were.
pub open spec fn refresh_reply(done: bool) -> Seq<char> {
    if done {
        seq!['0']
    } else {
        seq!['1']
    }
}

/// Whether the characters are the single character `c`.
fn is_letter(chars: &Vec<char>, c: char) -> (yes: bool)
    ensures
        yes == (chars@ == seq![c]),
{
    if chars.len() == 1 && chars[0] == c {
        assert(chars@ == seq![c]);
        true
    } else {
        assert(chars@ != seq![c]) by {
            if chars@ == seq![c] {
                assert(chars@.len() == 1);
                assert(chars@[0] == c);
            }
        }
        false
    }
}

/// Turns vectors of characters into strings.
pub fn to_texts(items: &Vec<Vec<char>>) -> (texts: Vec<String>)
    ensures
        string_views(texts@) == views(items@),
{
    let mut texts: Vec<String> = Vec::new();
    let mut i: usize = 0;
    while i < items.len()
        invariant
            i <= items.len(),
            texts.len() == i,
            forall|k: int| 0 <= k < i ==> texts@[k]@ == items@[k]@,
        decreases items.len() - i,
    {
        texts.push(to_text(&items[i]));
        i += 1;
    }
    assert(string_views(texts@) == views(items@));
    texts
}

/// Reads a request line, given without its line ending.
pub fn parse_command(line: &str) -> (command: Command)
    ensures
        command@ == parsed_command(line@),
{
    let chars = to_chars(line);
    let fields = split_chars(&chars, ' ');
    proof {
        assert forall|k: int| 0 <= k < fields.len() implies fields@[k]@ == split_on(line@, ' ')[k] by {
            assert(fields@[k]@ == views(fields@)[k]);
        }
    }
    let head = &fields[0];
    if is_letter(head, 'n') {
        if fields.len() >= 4 {
            Command::Network {
                url: to_text(&fields[1]),
                source: to_text(&fields[2]),
                kind: to_text(&fields[3]),
            }
        } else {
            Command::Malformed
        }
    } else if is_letter(head, 'c') {
        if fields.len() >= 4 {
            let ids = to_texts(&split_chars(&fields[2], '\t'));
            let classes = to_texts(&split_chars(&fields[3], '\t'));
            Command::Cosmetic { url: to_text(&fields[1]), ids, classes }
        } else {
            Command::Malformed
        }
    } else if is_letter(head, 'r') {
        Command::Reload
    } else if is_letter(head, 'u') {
        Command::Update
    } else {
        Command::Unknown
    }
}

/// The reply to a network query.
pub fn format_network_reply(blocked: bool) -> (reply: String)
    ensures
        reply@ == network_reply(blocked),
{
    let mut chars: Vec<char> = Vec::new();
    if blocked {
        chars.push('1');
    } else {
        chars.push('0');
    }
    assert(chars@ == network_reply(blocked));
    to_text(&chars)
}

/// The reply to a cosmetic query for which these selectors are hidden.
pub fn format_style_reply(selectors: &Vec<String>) -> (reply: String)
    ensures
        reply@ == style_rule(string_views(selectors@)),
{
    let ghost all = string_views(selectors@);
    let mut list: Vec<char> = Vec::new();
    let mut i: usize = 0;
    while i < selectors.len()
        invariant
            i <= selectors.len(),
            all == string_views(selectors@),
            list@ == join_with(all.take(i as int), selector_separator()),
        decreases selectors.len() - i,
    {
        proof {
            let longer = all.take(i + 1);
            assert(longer.drop_last() == all.take(i as int));
            assert(longer.last() == selectors@[i as int]@);
        }
        if i > 0 {
            list.push(',');
            list.push(' ');
        }
        let selector = to_chars(selectors[i].as_str());
        append_chars(&mut list, &selector);
        proof {
            if i > 0 {
                assert(list@ == join_with(all.take(i as int), selector_separator())
                    + selector_separator() + selector@);
            } else {
                assert(list@ == selector@);
            }
        }
        i += 1;
    }
    assert(all.take(selectors.len() as int) == all);
    if list.len() > 0 {
        let declaration = to_chars(" { display: none !important; }");
        append_chars(&mut list, &declaration);
    }
    list.push('\n');
    to_text(&list)
}

/// The reply to an unknown command.
pub fn format_unknown_reply() -> (reply: String)
    ensures
        reply@ == unknown_reply(),
{
    to_text(&to_chars("Unknown code supplied"))
}

/// The reply to a reload or an update that was carried out (`done`) or failed.
pub fn format_refresh_reply(done: bool) -> (reply: String)
    ensures
        reply@ == refresh_reply(done),
{
    let mut chars: Vec<char> = Vec::new();
    if done {
        chars.push('0');
    } else {
        chars.push('1');
    }
    assert(chars@ == refresh_reply(done));
    to_text(&chars)
}

} // verus!
