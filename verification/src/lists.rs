//! A fetched filter list: where it is stored, which expiry it declares, and the
//! registry line that records it.

use vstd::prelude::*;
use crate::decimal::{decimal_digits, parse_u64, parsed_u64, write_u64};
use crate::text::{slice_chars, split_chars, split_on, to_chars, to_text, views};

verus! {

/// Seconds in a day.
pub const SECONDS_PER_DAY: u64 = 86400;

/// The text that introduces a list's update interval.
pub open spec fn expires_marker() -> Seq<char> {
    seq!['!', ' ', 'E', 'x', 'p', 'i', 'r', 'e', 's', ':', ' ']
}

/// A line without the carriage return that may end it.
pub open spec fn without_cr(s: Seq<char>) -> Seq<char> {
    if s.len() > 0 && s.last() == '\r' {
        s.drop_last()
    } else {
        s
    }
}

/// The lines of a text. A line ends at a line feed, or at a carriage return
/// directly followed by one; the last line needs no line ending, and a text that
/// ends in a line ending has no further, empty line after it.
pub open spec fn lines_of(text: Seq<char>) -> Seq<Seq<char>> {
    let pieces = split_on(text, '\n');
    let ended = Seq::new((pieces.len() - 1) as nat, |i: int| without_cr(pieces[i]));
    if pieces.last().len() == 0 {
        ended
    } else {
        ended.push(pieces.last())
    }
}

/// Whether `pat` stands in `s` at position `i`.
pub open spec fn occurs_at(s: Seq<char>, pat: Seq<char>, i: int) -> bool {
    0 <= i && i + pat.len() <= s.len() && s.subrange(i, i + pat.len()) == pat
}

/// The first position at or after `from` where `pat` stands in `s`.
pub open spec fn first_occurrence(s: Seq<char>, pat: Seq<char>, from: int) -> Option<int>
    decreases s.len() - from,
{
    if from < 0 || from + pat.len() > s.len() {
        None
    } else if occurs_at(s, pat, from) {
        Some(from)
    } else if from >= s.len() {
        None
    } else {
        first_occurrence(s, pat, from + 1)
    }
}

/// What a list says about its own expiry.
#[derive(Clone, Copy, Debug, PartialEq, Eq, Structural)]
pub enum Declared {
    /// No line holds the marker: the list never expires by itself.
    Never,
    /// The first line with the marker gives this many days.
    Days(u64),
    /// The first line with the marker is followed by no number.
    Malformed,
}

/// What one line declares: `None` where it does not hold the marker, else the
/// number read from the characters between the marker and the next space.
pub open spec fn line_declares(line: Seq<char>) -> Option<Option<u64>> {
    match first_occurrence(line, expires_marker(), 0) {
        None => None,
        Some(at) => Some(parsed_u64(split_on(line.skip(at + expires_marker().len()), ' ')[0])),
    }
}

/// What the lines from `from` on declare: the first line with the marker decides.
pub open spec fn declared_from(lines: Seq<Seq<char>>, from: int) -> Declared
    decreases lines.len() - from,
{
    if from < 0 || from >= lines.len() {
        Declared::Never
    } else {
        match line_declares(lines[from]) {
            None => declared_from(lines, from + 1),
            Some(None) => Declared::Malformed,
            Some(Some(days)) => Declared::Days(days),
        }
    }
}

/// What a list's content declares about its expiry.
pub open spec fn declared_expiry(content: Seq<char>) -> Declared {
    declared_from(lines_of(content), 0)
}

/// Why a fetched list gives no registry line.
#[derive(Clone, Copy, Debug, PartialEq, Eq, Structural)]
pub enum RefreshError {
    /// The expiry marker is followed by no number of days.
    MalformedExpiry,
    /// The expiry lies beyond what 64 bits of seconds can say.
    ExpiryOutOfRange,
}

/// The registry line for a list fetched at `now`: the address alone where the list
/// declares no expiry, else the address, a space, and the second at which it
/// expires.
pub open spec fn refreshed_line(url: Seq<char>, content: Seq<char>, now: u64) -> Result<
    Seq<char>,
    RefreshError,
> {
    match declared_expiry(content) {
        Declared::Never => Ok(url),
        Declared::Malformed => Err(RefreshError::MalformedExpiry),
        Declared::Days(days) => if now + days * SECONDS_PER_DAY <= u64::MAX {
            Ok(url + seq![' '] + decimal_digits((now + days * SECONDS_PER_DAY) as nat))
        } else {
            Err(RefreshError::ExpiryOutOfRange)
        },
    }
}

/// The name under which a list is stored: what follows the last slash of its
/// address.
pub open spec fn file_name_of(url: Seq<char>) -> Seq<char> {
    split_on(url, '/').last()
}

/// Splits a text into its lines.
pub fn split_lines(chars: &Vec<char>) -> (lines: Vec<Vec<char>>)
    ensures
        views(lines@) == lines_of(chars@),
{
    let mut pieces = split_chars(chars, '\n');
    let ghost all = views(pieces@);
    let last = pieces.pop().unwrap();
    assert(last@ == all.last());
    let mut lines: Vec<Vec<char>> = Vec::new();
    let mut i: usize = 0;
    while i < pieces.len()
        invariant
            i <= pieces.len(),
            pieces.len() == all.len() - 1,
            forall|k: int| 0 <= k < pieces.len() ==> pieces@[k]@ == all[k],
            lines.len() == i,
            forall|k: int| 0 <= k < i ==> lines@[k]@ == without_cr(all[k]),
        decreases pieces.len() - i,
    {
        let piece = &pieces[i];
        let n = piece.len();
        let line = if n > 0 && piece[n - 1] == '\r' {
            slice_chars(piece, 0, n - 1)
        } else {
            slice_chars(piece, 0, n)
        };
        proof {
            assert(piece@ == all[i as int]);
            assert(piece@.subrange(0, n as int) == piece@);
            if n > 0 {
                assert(piece@.subrange(0, n - 1) == piece@.drop_last());
            }
        }
        lines.push(line);
        i += 1;
    }
    if last.len() > 0 {
        lines.push(last);
    }
    assert(views(lines@) == lines_of(chars@));
    lines
}

/// Whether `pat` stands in `s` at position `i`.
pub fn stands_at(s: &Vec<char>, pat: &Vec<char>, i: usize) -> (found: bool)
    ensures
        found == occurs_at(s@, pat@, i as int),
{
    if pat.len() > s.len() || i > s.len() - pat.len() {
        return false;
    }
    let mut k: usize = 0;
    while k < pat.len()
        invariant
            k <= pat.len(),
            i + pat.len() <= s.len(),
            forall|j: int| 0 <= j < k ==> s@[i + j] == pat@[j],
        decreases pat.len() - k,
    {
        if s[i + k] != pat[k] {
            assert(s@.subrange(i as int, i + pat.len())[k as int] == s@[i + k]);
            return false;
        }
        k += 1;
    }
    assert(s@.subrange(i as int, i + pat.len()) == pat@);
    true
}

/// The first position where `pat` stands in `s`.
pub fn find(s: &Vec<char>, pat: &Vec<char>) -> (at: Option<usize>)
    ensures
        match at {
            Some(i) => first_occurrence(s@, pat@, 0) == Some(i as int) && occurs_at(
                s@,
                pat@,
                i as int,
            ),
            None => first_occurrence(s@, pat@, 0) is None,
        },
{
    if pat.len() > s.len() {
        return None;
    }
    let last = s.len() - pat.len();
    let mut i: usize = 0;
    loop
        invariant
            i <= last,
            last == s.len() - pat.len(),
            first_occurrence(s@, pat@, 0) == first_occurrence(s@, pat@, i as int),
        decreases last - i,
    {
        if stands_at(s, pat, i) {
            return Some(i);
        }
        if i == last {
            assert(first_occurrence(s@, pat@, i + 1) is None);
            return None;
        }
        i += 1;
    }
}

/// The expiry marker as characters.
pub fn marker_chars() -> (m: Vec<char>)
    ensures
        m@ == expires_marker(),
{
    proof {
        reveal_strlit("! Expires: ");
    }
    let m = to_chars("! Expires: ");
    assert(m@ == expires_marker());
    m
}

/// What one line declares about the list's expiry.
pub fn read_line_expiry(line: &Vec<char>) -> (declared: Option<Option<u64>>)
    ensures
        declared == line_declares(line@),
{
    let marker = marker_chars();
    match find(line, &marker) {
        None => None,
        Some(at) => {
            assert(at + marker.len() <= line.len());
            let rest = slice_chars(line, at + marker.len(), line.len());
            assert(rest@ == line@.skip(at + expires_marker().len()));
            let fields = split_chars(&rest, ' ');
            assert(fields@[0]@ == views(fields@)[0]);
            Some(parse_u64(&fields[0]))
        },
    }
}

/// What a list's content declares about its expiry.
pub fn read_expiry(content: &Vec<char>) -> (declared: Declared)
    ensures
        declared == declared_expiry(content@),
{
    let lines = split_lines(content);
    let mut i: usize = 0;
    while i < lines.len()
        invariant
            i <= lines.len(),
            views(lines@) == lines_of(content@),
            declared_expiry(content@) == declared_from(lines_of(content@), i as int),
        decreases lines.len() - i,
    {
        assert(lines@[i as int]@ == views(lines@)[i as int]);
        match read_line_expiry(&lines[i]) {
            None => {},
            Some(None) => {
                return Declared::Malformed;
            },
            Some(Some(days)) => {
                return Declared::Days(days);
            },
        }
        i += 1;
    }
    Declared::Never
}

/// The second at which a list fetched at `now` expires after `days` days, where
/// 64 bits can say it.
pub fn expiry_stamp(now: u64, days: u64) -> (stamp: Option<u64>)
    ensures
        match stamp {
            Some(s) => s == now + days * SECONDS_PER_DAY,
            None => now + days * SECONDS_PER_DAY > u64::MAX,
        },
{
    match days.checked_mul(SECONDS_PER_DAY) {
        Some(seconds) => now.checked_add(seconds),
        None => None,
    }
}

/// The registry line for the list at `url` whose content was fetched at `now`
/// (seconds since the epoch).
pub fn rewrite_entry(url: &str, content: &str, now: u64) -> (line: Result<String, RefreshError>)
    ensures
        match line {
            Ok(text) => refreshed_line(url@, content@, now) == Ok::<Seq<char>, RefreshError>(text@),
            Err(e) => refreshed_line(url@, content@, now) == Err::<Seq<char>, RefreshError>(e),
        },
{
    let content_chars = to_chars(content);
    match read_expiry(&content_chars) {
        Declared::Never => Ok(to_text(&to_chars(url))),
        Declared::Malformed => Err(RefreshError::MalformedExpiry),
        Declared::Days(days) => match expiry_stamp(now, days) {
            None => Err(RefreshError::ExpiryOutOfRange),
            Some(stamp) => {
                let mut line = to_chars(url);
                line.push(' ');
                let mut digits = write_u64(stamp);
                line.append(&mut digits);
                assert(line@ == url@ + seq![' '] + decimal_digits(stamp as nat));
                Ok(to_text(&line))
            },
        },
    }
}

/// The name of the file that stores the list at `url`.
pub fn list_file_name(url: &str) -> (name: String)
    ensures
        name@ == file_name_of(url@),
{
    let chars = to_chars(url);
    let mut segments = split_chars(&chars, '/');
    let ghost all = views(segments@);
    let last = segments.pop().unwrap();
    assert(last@ == all.last());
    to_text(&last)
}

} // verus!
