//! The interactive session: what a line of input asks for, and which preset
//! is in use.

use vstd::prelude::*;
use crate::hashers::Preset;
use crate::text::{fold_str, folded, same_chars};

verus! {

/// The number of trials of each preset where the operator names none.
pub const DEFAULT_REPEATS: u16 = 15;

/// Whether `c` is white space: the characters that Unicode gives the
/// property `White_Space`.
pub open spec fn is_space(c: char) -> bool {
    let n = c as u32;
    ||| 0x09 <= n <= 0x0D
    ||| n == 0x20
    ||| n == 0x85
    ||| n == 0xA0
    ||| n == 0x1680
    ||| 0x2000 <= n <= 0x200A
    ||| n == 0x2028
    ||| n == 0x2029
    ||| n == 0x202F
    ||| n == 0x205F
    ||| n == 0x3000
}

/// `s` without the white space at its start.
pub open spec fn trim_start(s: Seq<char>) -> Seq<char>
    decreases s.len(),
{
    if s.len() > 0 && is_space(s.first()) {
        trim_start(s.drop_first())
    } else {
        s
    }
}

/// `s` without the white space at its end.
pub open spec fn trim_end(s: Seq<char>) -> Seq<char>
    decreases s.len(),
{
    if s.len() > 0 && is_space(s.last()) {
        trim_end(s.drop_last())
    } else {
        s
    }
}

/// `s` without the white space at its start and at its end.
pub open spec fn trimmed(s: Seq<char>) -> Seq<char> {
    trim_end(trim_start(s))
}

/// What a line of input asks for.
#[derive(Debug, Clone)]
pub enum Command {
    /// Leave the session.
    Exit,
    /// Use the preset of this name from now on.
    Switch(String),
    /// Hash this text under the preset in use.
    Hash(String),
}

/// A command as a plain value.
pub ghost enum CommandView {
    Exit,
    Switch(Seq<char>),
    Hash(Seq<char>),
}

impl View for Command {
    type V = CommandView;

    open spec fn view(&self) -> CommandView {
        match self {
            Command::Exit => CommandView::Exit,
            Command::Switch(name) => CommandView::Switch(name@),
            Command::Hash(input) => CommandView::Hash(input@),
        }
    }
}

/// What `line` asks for. White space around the line does not count. The
/// word `exit`, in any ASCII case, leaves; a line that begins with `preset`
/// and a blank names a preset, white space around the name not counting;
/// every other line, the empty one too, is text to hash.
pub open spec fn command_of(line: Seq<char>) -> CommandView {
    let input = trimmed(line);
    if folded(input) == folded("exit"@) {
        CommandView::Exit
    } else if "preset "@.is_prefix_of(input) {
        CommandView::Switch(trimmed(input.skip("preset "@.len() as int)))
    } else {
        CommandView::Hash(input)
    }
}

/// The number of trials of each preset: the operator's, or the default.
pub fn repeats_or_default(repeats: Option<u16>) -> (r: u16)
    ensures
        r == match repeats {
            Some(n) => n,
            None => DEFAULT_REPEATS,
        },
{
    match repeats {
        Some(n) => n,
        None => DEFAULT_REPEATS,
    }
}

/// Whether `c` is white space.
pub fn is_whitespace(c: char) -> (r: bool)
    ensures
        r == is_space(c),
{
    let n: u32 = c as u32;
    (0x09 <= n && n <= 0x0D) || n == 0x20 || n == 0x85 || n == 0xA0 || n == 0x1680 || (0x2000 <= n
        && n <= 0x200A) || n == 0x2028 || n == 0x2029 || n == 0x202F || n == 0x205F || n
        == 0x3000
}

/// The characters of `s`.
fn chars_of(s: &str) -> (r: Vec<char>)
    ensures
        r@ == s@,
{
    let mut out: Vec<char> = Vec::new();
    for c in it: s.chars()
        invariant
            it.seq() == s@,
            out@ == s@.take(it.index()),
    {
        proof {
            assert(s@.take(it.index() + 1) == s@.take(it.index()).push(s@[it.index()]));
        }
        out.push(c);
    }
    proof {
        assert(s@.take(s@.len() as int) == s@);
    }
    out
}

/// Dropping white space from the start of a text comes to the same as
/// dropping it from where the leading white space ends.
proof fn lemma_trim_start_skips(s: Seq<char>, start: int)
    requires
        0 <= start <= s.len(),
        forall|j: int| 0 <= j < start ==> is_space(s[j]),
    ensures
        trim_start(s) == trim_start(s.skip(start)),
    decreases start,
{
    if start == 0 {
        assert(s.skip(0) == s);
    } else {
        lemma_trim_start_skips(s.drop_first(), start - 1);
        assert(s.drop_first().skip(start - 1) == s.skip(start));
    }
}

/// Dropping white space from the end of a text comes to the same as dropping
/// it from where the trailing white space begins.
proof fn lemma_trim_end_takes(s: Seq<char>, end: int)
    requires
        0 <= end <= s.len(),
        forall|j: int| end <= j < s.len() ==> is_space(s[j]),
    ensures
        trim_end(s) == trim_end(s.take(end)),
    decreases s.len() - end,
{
    if end == s.len() {
        assert(s.take(end) == s);
    } else {
        lemma_trim_end_takes(s.drop_last(), end);
        assert(s.drop_last().take(end) == s.take(end));
    }
}

/// `s` without the white space at its start and at its end.
pub fn trim(s: &str) -> (r: &str)
    ensures
        r@ == trimmed(s@),
{
    let chars = chars_of(s);
    let mut start: usize = 0;
    while start < chars.len() && is_whitespace(chars[start])
        invariant
            start <= chars.len(),
            forall|j: int| 0 <= j < start ==> is_space(chars@[j]),
        decreases chars.len() - start,
    {
        start += 1;
    }
    let mut end: usize = chars.len();
    while end > start && is_whitespace(chars[end - 1])
        invariant
            start <= end <= chars.len(),
            forall|j: int| end <= j < chars.len() ==> is_space(chars@[j]),
        decreases end,
    {
        end -= 1;
    }
    proof {
        let rest = s@.skip(start as int);
        lemma_trim_start_skips(s@, start as int);
        assert(trim_start(s@) == rest);
        lemma_trim_end_takes(rest, end - start);
        assert(rest.take(end - start) == s@.subrange(start as int, end as int));
        assert(trim_end(rest) == s@.subrange(start as int, end as int));
    }
    s.substring_char(start, end)
}

/// Whether `input` begins with `keyword`.
fn begins_with(input: &Vec<char>, keyword: &Vec<char>) -> (r: bool)
    ensures
        r == keyword@.is_prefix_of(input@),
{
    if keyword.len() > input.len() {
        return false;
    }
    let mut i: usize = 0;
    while i < keyword.len()
        invariant
            i <= keyword.len() <= input.len(),
            forall|j: int| 0 <= j < i ==> input@[j] == keyword@[j],
        decreases keyword.len() - i,
    {
        if input[i] != keyword[i] {
            return false;
        }
        i += 1;
    }
    assert(input@.subrange(0, keyword@.len() as int) =~= keyword@);
    true
}

/// Reads what a line of input asks for.
pub fn parse_command(line: &str) -> (r: Command)
    ensures
        r@ == command_of(line@),
{
    let input = trim(line);
    if same_chars(&fold_str(input), &fold_str("exit")) {
        return Command::Exit;
    }
    let chars = chars_of(input);
    let keyword = chars_of("preset ");
    if begins_with(&chars, &keyword) {
        let rest = input.substring_char(keyword.len(), chars.len());
        proof {
            assert(input@.subrange(keyword@.len() as int, input@.len() as int) == input@.skip(
                "preset "@.len() as int,
            ));
        }
        Command::Switch(trim(rest).to_owned())
    } else {
        Command::Hash(input.to_owned())
    }
}

/// What the session does for a line of input.
#[derive(Debug, Clone)]
pub enum Reply {
    /// The session is over.
    Exit,
    /// This preset is in use from now on.
    Changed(Preset),
    /// This name is no preset's; the preset in use stays.
    Unknown(String),
    /// Hash this text under this preset, the one in use.
    Hash { preset: Preset, input: String },
}

/// An interactive session: the preset in use.
#[derive(Debug, Clone, Copy, PartialEq, Eq, Structural)]
pub struct Session {
    pub preset: Preset,
}

impl Session {
    /// A session that uses `preset`.
    pub fn new(preset: Preset) -> (r: Session)
        ensures
            r.preset == preset,
    {
        Session { preset }
    }

    /// Opens a session with the preset that the operator chose by this
    /// line, white space around it not counting; where the line names no
    /// preset, it comes back without that white space.
    pub fn select(line: &str) -> (r: Result<Session, String>)
        ensures
            match Preset::lookup(trimmed(line@)) {
                Some(preset) => r == Ok::<Session, String>(Session { preset }),
                None => r is Err && r->Err_0@ == trimmed(line@),
            },
    {
        let name = trim(line);
        match Preset::from_str(name) {
            Some(preset) => Ok(Session { preset }),
            None => Err(name.to_owned()),
        }
    }

    /// Takes one line of input: the session changes its preset where the
    /// line names a known one, and stays as it is for every other line.
    pub fn handle(&mut self, line: &str) -> (r: Reply)
        ensures
            match command_of(line@) {
                CommandView::Exit => r is Exit && *final(self) == *old(self),
                CommandView::Switch(name) => match Preset::lookup(name) {
                    Some(preset) => r == Reply::Changed(preset) && final(self).preset == preset,
                    None => r is Unknown && r->Unknown_0@ == name && *final(self) == *old(self),
                },
                CommandView::Hash(input) => r is Hash && r->Hash_preset == old(self).preset
                    && r->Hash_input@ == input && *final(self) == *old(self),
            },
    {
        match parse_command(line) {
            Command::Exit => Reply::Exit,
            Command::Switch(name) => match Preset::from_str(name.as_str()) {
                Some(preset) => {
                    self.preset = preset;
                    Reply::Changed(preset)
                },
                None => Reply::Unknown(name),
            },
            Command::Hash(input) => Reply::Hash { preset: self.preset, input },
        }
    }
}

} // verus!
