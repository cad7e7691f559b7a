use vstd::prelude::*;

verus! {

/// One execution of the command as the store keeps it. A record is pending
/// while `end`, `stdout`, `stderr` and `status` are all absent, and complete
/// once they are all present. Timestamps are milliseconds since the Unix epoch.
#[derive(Debug)]
pub struct CommandResult {
    pub id: u16,
    pub start: u64,
    pub end: Option<u64>,
    pub stdout: Option<String>,
    pub stderr: Option<String>,
    pub status: Option<u8>,
}

impl Clone for CommandResult {
    fn clone(&self) -> (r: Self)
        ensures
            r == *self,
    {
        let stdout = match &self.stdout {
            Some(s) => Some(s.clone()),
            None => None,
        };
        let stderr = match &self.stderr {
            Some(s) => Some(s.clone()),
            None => None,
        };
        CommandResult {
            id: self.id,
            start: self.start,
            end: self.end,
            stdout,
            stderr,
            status: self.status,
        }
    }
}

/// What the history listing shows of one record.
#[derive(Debug, Clone, Copy, PartialEq, Eq, Structural)]
pub struct CommandResultSummary {
    pub id: u16,
    pub start: u64,
    pub end: Option<u64>,
    pub status: Option<u8>,
}

/// The execution the viewer inspects: the latest completed one, or one by id.
#[derive(Debug, Clone, Copy, PartialEq, Eq, Structural)]
pub enum TargetCommand {
    Latest,
    Target(u16),
}

impl Default for TargetCommand {
    fn default() -> (r: Self)
        ensures
            r == TargetCommand::Latest,
    {
        TargetCommand::Latest
    }
}

impl TargetCommand {
    /// Whether `summary` is the record that this target names by id.
    pub fn is_target(&self, summary: &CommandResultSummary) -> (r: bool)
        ensures
            r == (*self == TargetCommand::Target(summary.id)),
    {
        match self {
            TargetCommand::Latest => false,
            TargetCommand::Target(id) => *id == summary.id,
        }
    }
}

/// The exit status recorded for an execution whose process could not be
/// launched, or that ended without an exit code that fits a status.
pub const FAILED_STATUS: u8 = 255;

/// The status recorded for a process's exit code: the code itself when it
/// lies in 0..=255, else `FAILED_STATUS`.
pub open spec fn status_of(code: Option<i32>) -> u8 {
    match code {
        Some(c) => if 0 <= c <= 255 {
            c as u8
        } else {
            FAILED_STATUS
        },
        None => FAILED_STATUS,
    }
}

pub fn exit_status(code: Option<i32>) -> (r: u8)
    ensures
        r == status_of(code),
{
    match code {
        Some(c) => if 0 <= c && c <= 255 {
            c as u8
        } else {
            FAILED_STATUS
        },
        None => FAILED_STATUS,
    }
}

pub open spec fn is_pending(r: CommandResult) -> bool {
    &&& r.end.is_none()
    &&& r.stdout.is_none()
    &&& r.stderr.is_none()
    &&& r.status.is_none()
}

pub open spec fn is_complete(r: CommandResult) -> bool {
    &&& r.end.is_some()
    &&& r.stdout.is_some()
    &&& r.stderr.is_some()
    &&& r.status.is_some()
}

pub open spec fn summary_of(r: CommandResult) -> CommandResultSummary {
    CommandResultSummary { id: r.id, start: r.start, end: r.end, status: r.status }
}

/// The pieces of `s` between the '\n' characters, as `str::split('\n')`
/// gives them: always at least one, the last one after the last '\n'.
pub open spec fn newline_parts(s: Seq<char>) -> Seq<Seq<char>>
    decreases s.len(),
{
    if s.len() == 0 {
        seq![Seq::<char>::empty()]
    } else {
        let rest = newline_parts(s.drop_first());
        if s[0] == '\n' {
            seq![Seq::<char>::empty()] + rest
        } else {
            rest.update(0, seq![s[0]] + rest[0])
        }
    }
}

/// A line that ended in "\r\n" loses its '\r'.
pub open spec fn strip_cr(l: Seq<char>) -> Seq<char> {
    if l.len() > 0 && l.last() == '\r' {
        l.drop_last()
    } else {
        l
    }
}

/// The lines of `s`: the newline-separated parts, each part that a '\n'
/// followed without a trailing '\r', and no empty part after a final '\n'
/// (so an empty text has no lines).
pub open spec fn text_lines(s: Seq<char>) -> Seq<Seq<char>> {
    let p = newline_parts(s);
    let n = p.len() as int;
    let m = if p[n - 1].len() == 0 { n - 1 } else { n };
    Seq::new(m as nat, |i: int| if i < n - 1 { strip_cr(p[i]) } else { p[i] })
}

pub open spec fn optional_lines(text: Option<String>) -> Seq<Seq<char>> {
    match text {
        Some(t) => text_lines(t@),
        None => Seq::empty(),
    }
}

/// What the viewer shows of a record: its standard output after a zero
/// status, its standard error after any other, and the single line
/// "Running" while it is pending.
pub open spec fn content_of(r: CommandResult) -> Seq<Seq<char>> {
    match r.status {
        Some(st) => if st == 0 {
            optional_lines(r.stdout)
        } else {
            optional_lines(r.stderr)
        },
        None => seq!["Running"@],
    }
}

pub open spec fn line_views(v: Seq<String>) -> Seq<Seq<char>> {
    v.map_values(|l: String| l@)
}

/// Relies on `str::lines`, which splits at "\n" and "\r\n", leaves the line
/// endings out, and yields no empty line after a final line ending.
#[verifier::external_body]
fn split_lines(s: &str) -> (r: Vec<String>)
    ensures
        line_views(r@) == text_lines(s@),
{
    s.lines().map(|line| line.to_string()).collect()
}

impl CommandResult {
    /// The lines of `input`, none when it is absent.
    pub fn lines(input: &Option<String>) -> (r: Vec<String>)
        ensures
            line_views(r@) == optional_lines(*input),
    {
        match input {
            Some(text) => split_lines(text.as_str()),
            None => {
                let r: Vec<String> = Vec::new();
                assert(line_views(r@) =~= Seq::<Seq<char>>::empty());
                r
            },
        }
    }

    pub fn get_content(&self) -> (r: Vec<String>)
        ensures
            line_views(r@) == content_of(*self),
    {
        match self.status {
            Some(status) => {
                if status == 0 {
                    CommandResult::lines(&self.stdout)
                } else {
                    CommandResult::lines(&self.stderr)
                }
            },
            None => {
                let r = vec![String::from_str("Running")];
                assert(line_views(r@) =~= seq!["Running"@]);
                r
            },
        }
    }
}

} // verus!
