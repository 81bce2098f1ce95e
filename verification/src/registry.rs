//! The list registry: a text of subscription lines, and the pass that refreshes
//! the entries that are due.
//!
//! A pass is a small machine. It is started on the registry's text, hands out the
//! fetches that are due one at a time, takes in what was fetched, and ends with the
//! new text of the registry. Nothing is committed before every line is settled.

use vstd::prelude::*;
use crate::decimal::{
    decimal_digits, is_digit, lemma_digits_roundtrip, lemma_written_number_parses,
    parse_u64, parsed_u64,
};
use crate::lists::{
    file_name_of, lines_of, list_file_name, refreshed_line, rewrite_entry, split_lines, without_cr,
    RefreshError,
};
use crate::text::{
    lemma_first_index, lemma_split_concat, split_chars, split_on, to_chars, to_text, views,
};

verus! {

/// What a pass does with one line of the registry.
#[derive(Clone, Copy, Debug, PartialEq, Eq, Structural)]
pub enum Verdict {
    /// The line stays as it is.
    Keep,
    /// The entry is fetched again and its line rewritten.
    Refresh,
    /// The entry's expiry is no number.
    Malformed,
}

/// Why a pass stops before its end.
#[derive(Clone, Copy, Debug, PartialEq, Eq, Structural)]
pub enum RegistryError {
    /// The expiry of the entry on this line (counted from 0) is no number.
    MalformedExpiry { line: usize },
}

/// What the pass asks of its caller next.
#[derive(Debug, PartialEq, Eq)]
pub enum PassAction {
    /// Fetch the list at `url`, store it under `file_name` in the lists directory,
    /// and supply its content.
    Fetch { url: String, file_name: String },
    /// Every line is settled: write `text` as the registry. `changed` says whether
    /// any entry was refreshed.
    Commit { text: String, changed: bool },
}

/// Whether a line is a comment: it starts with `#`.
pub open spec fn is_comment(line: Seq<char>) -> bool {
    line.len() > 0 && line[0] == '#'
}

/// Whether a line is an entry: neither empty nor a comment.
pub open spec fn is_entry(line: Seq<char>) -> bool {
    line.len() > 0 && line[0] != '#'
}

/// The address of an entry: the line up to its first space.
pub open spec fn entry_url(line: Seq<char>) -> Seq<char> {
    split_on(line, ' ')[0]
}

/// The expiry field of an entry: what stands between its first and its second
/// space, where the line has a space at all.
pub open spec fn expiry_field(line: Seq<char>) -> Option<Seq<char>> {
    let fields = split_on(line, ' ');
    if fields.len() > 1 {
        Some(fields[1])
    } else {
        None
    }
}

/// What a pass at second `now` does with a line. Comments and empty lines stay.
/// An entry is refreshed when the pass is forced, when it has no expiry, or when
/// its expiry lies before `now`.
pub open spec fn line_verdict(line: Seq<char>, force: bool, now: u64) -> Verdict {
    if !is_entry(line) {
        Verdict::Keep
    } else if force {
        Verdict::Refresh
    } else {
        match expiry_field(line) {
            None => Verdict::Refresh,
            Some(field) => match parsed_u64(field) {
                None => Verdict::Malformed,
                Some(expiry) => if expiry < now {
                    Verdict::Refresh
                } else {
                    Verdict::Keep
                },
            },
        }
    }
}

/// The first line at or after `from` that does not simply stay, or the number of
/// lines where all the rest stay.
pub open spec fn next_stop(lines: Seq<Seq<char>>, force: bool, now: u64, from: int) -> int
    decreases lines.len() - from,
{
    if from < 0 || from >= lines.len() {
        lines.len() as int
    } else if line_verdict(lines[from], force, now) == Verdict::Keep {
        next_stop(lines, force, now, from + 1)
    } else {
        from
    }
}

/// The lines before `upto` that a pass refreshes, in order.
pub open spec fn refresh_indices(lines: Seq<Seq<char>>, force: bool, now: u64, upto: int) -> Seq<
    int,
>
    decreases upto,
{
    if upto <= 0 {
        Seq::empty()
    } else {
        let before = refresh_indices(lines, force, now, upto - 1);
        if upto <= lines.len() && line_verdict(lines[upto - 1], force, now) == Verdict::Refresh {
            before.push(upto - 1)
        } else {
            before
        }
    }
}

/// How often `x` occurs in `s`.
pub open spec fn occurrences(s: Seq<int>, x: int) -> nat
    decreases s.len(),
{
    if s.len() == 0 {
        0
    } else {
        occurrences(s.drop_last(), x) + if s.last() == x {
            1nat
        } else {
            0nat
        }
    }
}

/// The text of a registry: each line, followed by a line feed.
pub open spec fn render(lines: Seq<Seq<char>>) -> Seq<char>
    decreases lines.len(),
{
    if lines.len() == 0 {
        Seq::empty()
    } else {
        render(lines.drop_last()) + lines.last() + seq!['\n']
    }
}

/// Whether `out` can stand for `line` after a pass: the line itself where it
/// stays, else the line that some fetched content gives for its address.
pub open spec fn settles(line: Seq<char>, out: Seq<char>, force: bool, now: u64) -> bool {
    match line_verdict(line, force, now) {
        Verdict::Keep => out == line,
        Verdict::Refresh => exists|content: Seq<char>, at: u64|
            refreshed_line(entry_url(line), content, at) == Ok::<Seq<char>, RefreshError>(out),
        Verdict::Malformed => false,
    }
}

/// The comment that a newly created registry holds.
pub open spec fn registry_header() -> Seq<char> {
    "# Add your filter list urls here; lines starting with # will be ignored; timestamps right after urls determine the expiration time\n"@
}

/// The comment that a newly created file of custom filters holds.
pub open spec fn custom_filters_header() -> Seq<char> {
    "# Add your custom network and cosmetic filters here, lines starting with # will be ignored\n"@
}

/// The content of a registry that is created because none exists.
pub fn new_registry_text() -> (text: &'static str)
    ensures
        text@ == registry_header(),
{
    "# Add your filter list urls here; lines starting with # will be ignored; timestamps right after urls determine the expiration time\n"
}

/// What is done where no registry exists: it is created with its comment alone,
/// and nothing counts as refreshed.
pub fn create_registry() -> (action: PassAction)
    ensures
        action matches PassAction::Commit { text, changed } && text@ == registry_header()
            && !changed,
{
    PassAction::Commit { text: String::from_str(new_registry_text()), changed: false }
}

/// The content of a file of custom filters that is created because none exists.
pub fn new_custom_filters_text() -> (text: &'static str)
    ensures
        text@ == custom_filters_header(),
{
    "# Add your custom network and cosmetic filters here, lines starting with # will be ignored\n"
}

/// Decides what a pass at second `now` does with a line.
pub fn judge_line(line: &Vec<char>, force: bool, now: u64) -> (verdict: Verdict)
    ensures
        verdict == line_verdict(line@, force, now),
{
    if line.len() == 0 || line[0] == '#' {
        return Verdict::Keep;
    }
    if force {
        return Verdict::Refresh;
    }
    let fields = split_chars(line, ' ');
    if fields.len() < 2 {
        return Verdict::Refresh;
    }
    assert(fields@[1]@ == views(fields@)[1]);
    match parse_u64(&fields[1]) {
        None => Verdict::Malformed,
        Some(expiry) => if expiry < now {
            Verdict::Refresh
        } else {
            Verdict::Keep
        },
    }
}

/// Appends the characters of `src` to `out`.
pub fn append_chars(out: &mut Vec<char>, src: &Vec<char>)
    ensures
        final(out)@ == old(out)@ + src@,
{
    let mut i: usize = 0;
    while i < src.len()
        invariant
            i <= src.len(),
            out@ == old(out)@ + src@.take(i as int),
        decreases src.len() - i,
    {
        out.push(src[i]);
        i += 1;
        assert(src@.take(i as int) == src@.take(i - 1).push(src@[i - 1]));
    }
    assert(src@.take(src.len() as int) == src@);
}

/// Writes the lines out as the text of a registry.
pub fn render_lines(lines: &Vec<Vec<char>>) -> (text: Vec<char>)
    ensures
        text@ == render(views(lines@)),
{
    let mut text: Vec<char> = Vec::new();
    let mut i: usize = 0;
    while i < lines.len()
        invariant
            i <= lines.len(),
            text@ == render(views(lines@).take(i as int)),
        decreases lines.len() - i,
    {
        proof {
            let longer = views(lines@).take(i + 1);
            assert(longer.drop_last() == views(lines@).take(i as int));
            assert(longer.last() == lines@[i as int]@);
        }
        append_chars(&mut text, &lines[i]);
        text.push('\n');
        i += 1;
    }
    assert(views(lines@).take(lines.len() as int) == views(lines@));
    text
}

/// A refresh pass over a registry.
pub struct RefreshPass {
    lines: Vec<Vec<char>>,
    force: bool,
    now: u64,
    settled: Vec<Vec<char>>,
    awaiting: bool,
    changed: bool,
    fetched: Ghost<Seq<int>>,
}

impl RefreshPass {
    /// The lines of the registry that the pass was started on.
    pub closed spec fn lines(&self) -> Seq<Seq<char>> {
        views(self.lines@)
    }

    /// Whether every entry is refreshed, whatever its expiry.
    pub closed spec fn force(&self) -> bool {
        self.force
    }

    /// The second at which the pass was started, which expiries are held against.
    pub closed spec fn now(&self) -> u64 {
        self.now
    }

    /// The new lines of the registry, as far as the pass has come.
    pub closed spec fn settled(&self) -> Seq<Seq<char>> {
        views(self.settled@)
    }

    /// Whether a fetch was handed out whose content has not been supplied.
    pub closed spec fn awaiting(&self) -> bool {
        self.awaiting
    }

    /// The lines for which a fetch was handed out so far, in the order of the
    /// fetches.
    pub closed spec fn fetched(&self) -> Seq<int> {
        self.fetched@
    }

    /// Whether the flag that records a fetch agrees with the fetches handed out.
    pub closed spec fn flag_agrees(&self) -> bool {
        self.changed == (self.fetched@.len() > 0)
    }

    /// The number of lines that the pass is done with or has handed out.
    pub open spec fn reached(&self) -> int {
        self.settled().len() + if self.awaiting() {
            1int
        } else {
            0int
        }
    }

    /// What holds of a pass at every moment: it has settled a prefix of the
    /// lines, each in a way that its verdict allows; a fetch is out only for a
    /// line that is due; and exactly the due lines reached so far were fetched.
    pub open spec fn wf(&self) -> bool {
        &&& self.settled().len() <= self.lines().len()
        &&& forall|i: int|
            0 <= i < self.settled().len() ==> settles(
                #[trigger] self.lines()[i],
                self.settled()[i],
                self.force(),
                self.now(),
            )
        &&& self.awaiting() ==> self.settled().len() < self.lines().len() && line_verdict(
            self.lines()[self.settled().len() as int],
            self.force(),
            self.now(),
        ) == Verdict::Refresh
        &&& self.fetched() == refresh_indices(
            self.lines(),
            self.force(),
            self.now(),
            self.reached(),
        )
        &&& self.flag_agrees()
    }

    /// Starts a pass at second `now` over the registry with the given text.
    pub fn begin(text: &str, force: bool, now: u64) -> (pass: RefreshPass)
        ensures
            pass.wf(),
            pass.lines() == lines_of(text@),
            pass.force() == force,
            pass.now() == now,
            pass.settled() == Seq::<Seq<char>>::empty(),
            !pass.awaiting(),
            pass.fetched() == Seq::<int>::empty(),
    {
        let chars = to_chars(text);
        let lines = split_lines(&chars);
        let pass = RefreshPass {
            lines,
            force,
            now,
            settled: Vec::new(),
            awaiting: false,
            changed: false,
            fetched: Ghost(Seq::empty()),
        };
        assert(pass.settled() == Seq::<Seq<char>>::empty());
        pass
    }

    /// Settles the lines that stay and stops at the first line that does not: it
    /// hands out the fetch for an entry that is due, reports an entry whose expiry
    /// is no number, or, where no line is left, gives the registry's new text.
    pub fn next(&mut self) -> (action: Result<PassAction, RegistryError>)
        requires
            old(self).wf(),
            !old(self).awaiting(),
        ensures
            final(self).wf(),
            final(self).lines() == old(self).lines(),
            final(self).force() == old(self).force(),
            final(self).now() == old(self).now(),
            ({
                let lines = old(self).lines();
                let from = old(self).settled().len() as int;
                let stop = next_stop(lines, old(self).force(), old(self).now(), from);
                &&& from <= stop <= lines.len()
                &&& final(self).settled() == old(self).settled() + lines.subrange(from, stop)
                &&& match action {
                    Ok(PassAction::Commit { text, changed }) => {
                        &&& stop == lines.len()
                        &&& !final(self).awaiting()
                        &&& final(self).fetched() == old(self).fetched()
                        &&& text@ == render(final(self).settled())
                        &&& changed == (final(self).fetched().len() > 0)
                    },
                    Ok(PassAction::Fetch { url, file_name }) => {
                        &&& stop < lines.len()
                        &&& line_verdict(lines[stop], old(self).force(), old(self).now())
                            == Verdict::Refresh
                        &&& final(self).awaiting()
                        &&& final(self).fetched() == old(self).fetched().push(stop)
                        &&& url@ == entry_url(lines[stop])
                        &&& file_name@ == file_name_of(url@)
                    },
                    Err(RegistryError::MalformedExpiry { line }) => {
                        &&& stop < lines.len()
                        &&& line_verdict(lines[stop], old(self).force(), old(self).now())
                            == Verdict::Malformed
                        &&& !final(self).awaiting()
                        &&& final(self).fetched() == old(self).fetched()
                        &&& line == stop
                    },
                }
            }),
    {
        let ghost lines = self.lines();
        let ghost from = self.settled().len() as int;
        let ghost before = self.settled();
        let ghost fetched_before = self.fetched();
        proof {
            assert(before + lines.subrange(from, from) == before);
        }
        while self.settled.len() < self.lines.len()
            invariant
                self.wf(),
                !self.awaiting(),
                self.lines() == lines,
                lines == old(self).lines(),
                before == old(self).settled(),
                fetched_before == old(self).fetched(),
                from == old(self).settled().len(),
                self.force() == old(self).force(),
                self.now() == old(self).now(),
                self.fetched() == fetched_before,
                from <= self.settled().len() <= lines.len(),
                next_stop(lines, self.force(), self.now(), from) == next_stop(
                    lines,
                    self.force(),
                    self.now(),
                    self.settled().len() as int,
                ),
                self.settled() == before + lines.subrange(from, self.settled().len() as int),
            decreases self.lines.len() - self.settled.len(),
        {
            let k = self.settled.len();
            assert(self.lines@[k as int]@ == lines[k as int]);
            match judge_line(&self.lines[k], self.force, self.now) {
                Verdict::Keep => {
                    let mut copy: Vec<char> = Vec::new();
                    append_chars(&mut copy, &self.lines[k]);
                    assert(copy@ == lines[k as int]);
                    let ghost prior = self.settled();
                    self.settled.push(copy);
                    proof {
                        assert(self.settled() == prior.push(lines[k as int]));
                        assert(lines.subrange(from, k + 1) == lines.subrange(from, k as int).push(
                            lines[k as int],
                        ));
                        lemma_settled_grows(lines, prior, lines[k as int], self.force(), self.now());
                    }
                },
                Verdict::Refresh => {
                    let fields = split_chars(&self.lines[k], ' ');
                    assert(fields@[0]@ == views(fields@)[0]);
                    let url = to_text(&fields[0]);
                    let file_name = list_file_name(url.as_str());
                    self.awaiting = true;
                    self.changed = true;
                    self.fetched = Ghost(fetched_before.push(k as int));
                    return Ok(PassAction::Fetch { url, file_name });
                },
                Verdict::Malformed => {
                    return Err(RegistryError::MalformedExpiry { line: k });
                },
            }
        }
        let text = to_text(&render_lines(&self.settled));
        Ok(PassAction::Commit { text, changed: self.changed })
    }

    /// Whether a fetch was handed out whose content has not been supplied.
    pub fn is_waiting(&self) -> (waiting: bool)
        ensures
            waiting == self.awaiting(),
    {
        self.awaiting
    }

    /// Takes in the content that was fetched, at second `now`, for the entry whose
    /// fetch is out. The entry's line becomes the one that the content gives. Where
    /// the content gives none, the pass stays as it was and cannot go on.
    pub fn supply(&mut self, content: &str, now: u64) -> (outcome: Result<(), RefreshError>)
        requires
            old(self).wf(),
            old(self).awaiting(),
        ensures
            final(self).wf(),
            final(self).lines() == old(self).lines(),
            final(self).force() == old(self).force(),
            final(self).now() == old(self).now(),
            final(self).fetched() == old(self).fetched(),
            match refreshed_line(
                entry_url(old(self).lines()[old(self).settled().len() as int]),
                content@,
                now,
            ) {
                Ok(line) => {
                    &&& outcome is Ok
                    &&& final(self).settled() == old(self).settled().push(line)
                    &&& !final(self).awaiting()
                },
                Err(e) => {
                    &&& outcome == Err::<(), RefreshError>(e)
                    &&& final(self).settled() == old(self).settled()
                    &&& final(self).awaiting()
                },
            },
    {
        let k = self.settled.len();
        let ghost line = self.lines()[k as int];
        assert(self.lines@[k as int]@ == line);
        let fields = split_chars(&self.lines[k], ' ');
        assert(fields@[0]@ == views(fields@)[0]);
        let url = to_text(&fields[0]);
        match rewrite_entry(url.as_str(), content, now) {
            Err(e) => Err(e),
            Ok(text) => {
                let new_line = to_chars(text.as_str());
                let ghost prior = self.settled();
                self.settled.push(new_line);
                self.awaiting = false;
                proof {
                    assert(self.settled() == prior.push(text@));
                    assert(refreshed_line(entry_url(line), content@, now) == Ok::<
                        Seq<char>,
                        RefreshError,
                    >(text@));
                    lemma_settled_grows(self.lines(), prior, text@, self.force(), self.now());
                }
                Ok(())
            },
        }
    }
}

/// Settled lines stay settled when the next line is settled after them.
pub proof fn lemma_settled_grows(
    lines: Seq<Seq<char>>,
    prior: Seq<Seq<char>>,
    out: Seq<char>,
    force: bool,
    now: u64,
)
    requires
        prior.len() < lines.len(),
        forall|i: int| 0 <= i < prior.len() ==> settles(#[trigger] lines[i], prior[i], force, now),
        settles(lines[prior.len() as int], out, force, now),
    ensures
        forall|i: int|
            0 <= i < prior.len() + 1 ==> settles(#[trigger] lines[i], prior.push(out)[i], force, now),
{
    assert forall|i: int| 0 <= i < prior.len() + 1 implies settles(
        #[trigger] lines[i],
        prior.push(out)[i],
        force,
        now,
    ) by {
        if i < prior.len() {
            assert(prior.push(out)[i] == prior[i]);
        }
    }
}

/// Every refreshed line before `upto` occurs once among the refreshed lines, and
/// no other line occurs there.
pub proof fn lemma_refresh_indices_once(
    lines: Seq<Seq<char>>,
    force: bool,
    now: u64,
    upto: int,
    i: int,
)
    requires
        upto <= lines.len(),
    ensures
        occurrences(refresh_indices(lines, force, now, upto), i) == if 0 <= i < upto
            && line_verdict(lines[i], force, now) == Verdict::Refresh {
            1nat
        } else {
            0nat
        },
    decreases upto,
{
    if upto > 0 {
        lemma_refresh_indices_once(lines, force, now, upto - 1, i);
        let before = refresh_indices(lines, force, now, upto - 1);
        if line_verdict(lines[upto - 1], force, now) == Verdict::Refresh {
            assert(before.push(upto - 1).drop_last() == before);
        }
    }
}

/// An entry whose expiry does not lie before the second of an unforced pass is not
/// refreshed: no fetch is handed out for it, and its line stays as it is.
pub proof fn law_unexpired_entry_is_kept(pass: RefreshPass, i: int)
    requires
        pass.wf(),
        !pass.force(),
        0 <= i < pass.settled().len(),
        is_entry(pass.lines()[i]),
        expiry_field(pass.lines()[i]) matches Some(field) && parsed_u64(field) matches Some(expiry)
            && expiry >= pass.now(),
    ensures
        pass.settled()[i] == pass.lines()[i],
        occurrences(pass.fetched(), i) == 0,
{
    assert(settles(pass.lines()[i], pass.settled()[i], pass.force(), pass.now()));
    lemma_refresh_indices_once(pass.lines(), pass.force(), pass.now(), pass.reached(), i);
}

/// An entry that is due (the pass is forced, or the entry has no expiry, or its
/// expiry lies before the second of the pass) is fetched exactly once by the time
/// the pass has reached it.
pub proof fn law_due_entry_is_fetched_once(pass: RefreshPass, i: int)
    requires
        pass.wf(),
        0 <= i < pass.reached(),
        is_entry(pass.lines()[i]),
        pass.force() || expiry_field(pass.lines()[i]) is None || (expiry_field(
            pass.lines()[i],
        ) matches Some(field) && parsed_u64(field) matches Some(expiry) && expiry < pass.now()),
    ensures
        occurrences(pass.fetched(), i) == 1,
{
    lemma_refresh_indices_once(pass.lines(), pass.force(), pass.now(), pass.reached(), i);
}

/// Comments and empty lines are never fetched and always stay as they are.
pub proof fn law_comments_pass_through(pass: RefreshPass, i: int)
    requires
        pass.wf(),
        0 <= i < pass.settled().len(),
        !is_entry(pass.lines()[i]),
    ensures
        pass.settled()[i] == pass.lines()[i],
        occurrences(pass.fetched(), i) == 0,
{
    assert(settles(pass.lines()[i], pass.settled()[i], pass.force(), pass.now()));
    lemma_refresh_indices_once(pass.lines(), pass.force(), pass.now(), pass.reached(), i);
}

/// Whether a line is read back as it was written: it holds no line feed and does
/// not end in a carriage return.
pub open spec fn is_plain_line(line: Seq<char>) -> bool {
    &&& forall|k: int| 0 <= k < line.len() ==> line[k] != '\n'
    &&& line.len() > 0 ==> line.last() != '\r'
}

/// The text of a registry, split at its line feeds, gives the lines and one empty
/// piece after the last line feed.
pub proof fn lemma_render_splits_into_lines(lines: Seq<Seq<char>>)
    requires
        forall|i: int| 0 <= i < lines.len() ==> is_plain_line(#[trigger] lines[i]),
    ensures
        split_on(render(lines), '\n') == lines.push(Seq::empty()),
    decreases lines.len(),
{
    if lines.len() == 0 {
        assert(split_on(render(lines), '\n') == seq![Seq::<char>::empty()]);
        assert(lines.push(Seq::empty()) == seq![Seq::<char>::empty()]);
    } else {
        let before = lines.drop_last();
        let line = lines.last();
        assert forall|i: int| 0 <= i < before.len() implies is_plain_line(#[trigger] before[i]) by {
            assert(before[i] == lines[i]);
        }
        lemma_render_splits_into_lines(before);
        let ended = line + seq!['\n'];
        assert(is_plain_line(line));
        assert forall|k: int| 0 <= k < line.len() implies ended[k] != '\n' by {
            assert(ended[k] == line[k]);
        }
        lemma_first_index(ended, '\n', line.len() as int);
        assert(ended.take(line.len() as int) == line);
        assert(ended.skip(line.len() as int + 1) == Seq::<char>::empty());
        assert(split_on(Seq::<char>::empty(), '\n') == seq![Seq::<char>::empty()]);
        assert(split_on(ended, '\n') == seq![line, Seq::<char>::empty()]);
        lemma_split_concat(render(before), ended, '\n');
        assert(render(lines) == render(before) + ended);
        let pieces = before.push(Seq::empty());
        assert(pieces.drop_last() == before);
        assert(pieces.last() + split_on(ended, '\n')[0] == line);
        assert(split_on(ended, '\n').drop_first() == seq![Seq::<char>::empty()]);
        assert(before + seq![line] + seq![Seq::<char>::empty()] == lines.push(Seq::empty()));
    }
}

/// A registry is read back line for line as it was written, where its lines hold
/// no line feed and end in no carriage return.
pub proof fn law_rendered_lines_read_back(lines: Seq<Seq<char>>)
    requires
        forall|i: int| 0 <= i < lines.len() ==> is_plain_line(#[trigger] lines[i]),
    ensures
        lines_of(render(lines)) == lines,
{
    lemma_render_splits_into_lines(lines);
    let pieces = split_on(render(lines), '\n');
    assert(pieces.last().len() == 0);
    let ended = Seq::new((pieces.len() - 1) as nat, |i: int| without_cr(pieces[i]));
    assert forall|i: int| 0 <= i < lines.len() implies ended[i] == lines[i] by {
        assert(pieces[i] == lines[i]);
        assert(is_plain_line(lines[i]));
    }
    assert(ended == lines);
}

/// The line written for a refreshed entry reads back as written: its address is
/// the entry's address, its expiry is the second that was written, and an
/// unforced pass keeps it until that second has passed.
pub proof fn law_refreshed_entry_reads_back(url: Seq<char>, stamp: u64, now: u64)
    requires
        url.len() > 0,
        url[0] != '#',
        forall|k: int| 0 <= k < url.len() ==> url[k] != ' ',
    ensures
        ({
            let line = url + seq![' '] + decimal_digits(stamp as nat);
            &&& is_entry(line)
            &&& entry_url(line) == url
            &&& expiry_field(line) == Some(decimal_digits(stamp as nat))
            &&& parsed_u64(decimal_digits(stamp as nat)) == Some(stamp)
            &&& line_verdict(line, false, now) == if stamp < now {
                Verdict::Refresh
            } else {
                Verdict::Keep
            }
        }),
{
    let digits = decimal_digits(stamp as nat);
    let line = url + seq![' '] + digits;
    lemma_written_number_parses(stamp);
    lemma_digits_roundtrip(stamp as nat);
    assert(line[0] == url[0]);
    assert forall|k: int| 0 <= k < url.len() implies line[k] != ' ' by {
        assert(line[k] == url[k]);
    }
    assert(line[url.len() as int] == ' ');
    lemma_first_index(line, ' ', url.len() as int);
    assert(line.take(url.len() as int) == url);
    assert(line.skip(url.len() as int + 1) == digits);
    assert forall|k: int| 0 <= k < digits.len() implies digits[k] != ' ' by {
        assert(is_digit(digits[k]));
    }
    lemma_first_index(digits, ' ', digits.len() as int);
    assert(split_on(digits, ' ') == seq![digits]);
    assert(split_on(line, ' ') == seq![url] + seq![digits]);
    assert(split_on(line, ' ')[0] == url);
    assert(split_on(line, ' ')[1] == digits);
}

/// A forced pass refreshes every entry, whatever its expiry says.
pub proof fn law_forced_pass_refreshes_every_entry(line: Seq<char>, now: u64)
    requires
        is_entry(line),
    ensures
        line_verdict(line, true, now) == Verdict::Refresh,
{
}

} // verus!
