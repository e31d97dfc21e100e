use vstd::prelude::*;
use vstd::string::*;
use vstd::utf8::encode_utf8;

use crate::errors::NrError;
use crate::text::{lemma_strs_push, chars_of, decimal, extend_strings, flat_map, join, join_strings, push_char, push_decimal, string_of, strs};

verus! {

/// A program to run with its arguments and, optionally, a working directory.
#[derive(Clone, Debug)]
pub struct CommandSpec {
    pub program: String,
    pub args: Vec<String>,
    pub cwd: Option<String>,
}

impl CommandSpec {
    /// The command line: the program followed by its arguments.
    pub open spec fn argv(&self) -> Seq<Seq<char>> {
        seq![self.program@] + strs(self.args@)
    }

    pub fn new(program: &str) -> (r: CommandSpec)
        ensures
            r.program@ == program@,
            r.args@.len() == 0,
            r.cwd is None,
    {
        CommandSpec { program: program.to_owned(), args: Vec::new(), cwd: None }
    }

    pub fn arg(self, value: &str) -> (r: CommandSpec)
        ensures
            r.program == self.program,
            strs(r.args@) == strs(self.args@).push(value@),
            r.cwd == self.cwd,
    {
        let mut s = self;
        let ghost before = s.args@;
        s.args.push(value.to_owned());
        assert(strs(s.args@) =~= strs(before).push(value@));
        s
    }

    pub fn args(self, values: &[String]) -> (r: CommandSpec)
        ensures
            r.program == self.program,
            strs(r.args@) == strs(self.args@) + strs(values@),
            r.cwd == self.cwd,
    {
        let mut s = self;
        extend_strings(&mut s.args, values);
        s
    }

    pub fn cwd(self, path: &str) -> (r: CommandSpec)
        ensures
            r.program == self.program,
            r.args == self.args,
            r.cwd matches Some(c) && c@ == path@,
    {
        let mut s = self;
        s.cwd = Some(path.to_owned());
        s
    }

    pub fn to_vec(&self) -> (r: Vec<String>)
        ensures
            strs(r@) == self.argv(),
    {
        let mut values: Vec<String> = Vec::new();
        values.push(self.program.clone());
        assert(strs(values@) =~= seq![self.program@]);
        extend_strings(&mut values, self.args.as_slice());
        values
    }

    /// A copy with the same program, arguments and directory.
    pub fn copy(&self) -> (r: CommandSpec)
        ensures
            r.program@ == self.program@,
            r.argv() == self.argv(),
            r.cwd == self.cwd,
    {
        let mut args: Vec<String> = Vec::new();
        extend_strings(&mut args, self.args.as_slice());
        let cwd = match &self.cwd {
            Some(d) => Some(d.clone()),
            None => None,
        };
        CommandSpec { program: self.program.clone(), args, cwd }
    }

    /// The command line as a shell would read it (see `render_command`).
    pub fn render(&self) -> (r: String)
        ensures
            r@ == rendered(self.argv()),
    {
        let v = self.to_vec();
        render_command(v.as_slice())
    }
}

/// Where a line of a child's output came from.
#[derive(Clone, Copy, Debug, PartialEq, Eq)]
pub enum StreamSource {
    Stdout,
    Stderr,
}

/// One line that a child wrote.
#[derive(Clone, Debug)]
pub struct StreamLine {
    pub source: StreamSource,
    pub line: String,
}

/// What a finished child left: its exit code and its captured output.
#[derive(Clone, Debug)]
pub struct RunOutput {
    pub code: i32,
    pub stdout: String,
    pub stderr: String,
}

/// Characters that never need quoting in a POSIX shell word.
pub open spec fn shell_safe(c: char) -> bool {
    ||| ('a' <= c && c <= 'z')
    ||| ('A' <= c && c <= 'Z')
    ||| ('0' <= c && c <= '9')
    ||| c == '_' || c == '-' || c == '.' || c == '/' || c == ':' || c == '@' || c == '+'
        || c == '=' || c == ','
}

/// Inside single quotes, a quote becomes `'"'"'`.
pub open spec fn quote_piece(c: char) -> Seq<char> {
    if c == '\'' {
        seq!['\'', '"', '\'', '"', '\'']
    } else {
        seq![c]
    }
}

/// `value` as a single shell word.
pub open spec fn quoted(value: Seq<char>) -> Seq<char> {
    if value.len() == 0 {
        seq!['\'', '\'']
    } else if forall|i: int| 0 <= i < value.len() ==> shell_safe(#[trigger] value[i]) {
        value
    } else {
        seq!['\''] + flat_map(value, |c: char| quote_piece(c)) + seq!['\'']
    }
}

/// A command line, each part quoted and separated by single spaces; when that
/// is longer than 180 bytes, only the first three parts and a count of the rest.
pub open spec fn rendered(parts: Seq<Seq<char>>) -> Seq<char> {
    let full = join(parts.map_values(|p: Seq<char>| quoted(p)), " "@);
    if encode_utf8(full).len() as usize > 180 {
        join(parts.take(if parts.len() < 3 { parts.len() as int } else { 3 }).map_values(
            |p: Seq<char>| quoted(p),
        ), " "@) + " ... ("@ + decimal(if parts.len() < 3 { 0 } else { (parts.len() - 3) as nat })
            + " more arguments)"@
    } else {
        full
    }
}

fn is_shell_safe(c: char) -> (r: bool)
    ensures
        r == shell_safe(c),
{
    ('a' <= c && c <= 'z') || ('A' <= c && c <= 'Z') || ('0' <= c && c <= '9') || c == '_' || c
        == '-' || c == '.' || c == '/' || c == ':' || c == '@' || c == '+' || c == '=' || c == ','
}

/// Quotes `value` for a POSIX shell, leaving plain words as they are.
pub fn shell_quote(value: &str) -> (r: String)
    ensures
        r@ == quoted(value@),
{
    let v = chars_of(value);
    let mut out = String::new();
    if v.len() == 0 {
        push_char(&mut out, '\'');
        push_char(&mut out, '\'');
        assert(out@ =~= seq!['\'', '\'']);
        return out;
    }
    let mut i: usize = 0;
    let mut safe = true;
    while i < v.len()
        invariant
            i <= v.len(),
            safe == forall|k: int| 0 <= k < i ==> shell_safe(#[trigger] v@[k]),
        decreases v.len() - i,
    {
        if !is_shell_safe(v[i]) {
            safe = false;
        }
        i = i + 1;
    }
    if safe {
        return string_of(v.as_slice());
    }
    push_char(&mut out, '\'');
    let mut j: usize = 0;
    while j < v.len()
        invariant
            j <= v.len(),
            out@ == seq!['\''] + flat_map(v@.take(j as int), |c: char| quote_piece(c)),
        decreases v.len() - j,
    {
        let c = v[j];
        if c == '\'' {
            push_char(&mut out, '\'');
            push_char(&mut out, '"');
            push_char(&mut out, '\'');
            push_char(&mut out, '"');
            push_char(&mut out, '\'');
        } else {
            push_char(&mut out, c);
        }
        assert(v@.take(j + 1).drop_last() =~= v@.take(j as int));
        j = j + 1;
        assert(out@ =~= seq!['\''] + flat_map(v@.take(j as int), |c: char| quote_piece(c)));
    }
    push_char(&mut out, '\'');
    assert(v@.take(v.len() as int) =~= v@);
    out
}

/// Renders a command line for display.
pub fn render_command(parts: &[String]) -> (r: String)
    ensures
        r@ == rendered(strs(parts@)),
{
    let mut quoted_parts: Vec<String> = Vec::new();
    let mut i: usize = 0;
    while i < parts.len()
        invariant
            i <= parts.len(),
            strs(quoted_parts@) == strs(parts@).take(i as int).map_values(|p: Seq<char>| quoted(p)),
        decreases parts.len() - i,
    {
        let q = shell_quote(parts[i].as_str());
        let ghost before = quoted_parts@;
        quoted_parts.push(q);
        proof { lemma_strs_push(before, q); }
        i = i + 1;
        assert(strs(quoted_parts@) =~= strs(parts@).take(i as int).map_values(
            |p: Seq<char>| quoted(p),
        ));
    }
    assert(strs(parts@).take(parts.len() as int) =~= strs(parts@));
    let full = join_strings(quoted_parts.as_slice(), " ");
    let ghost qp = strs(parts@).map_values(|p: Seq<char>| quoted(p));
    assert(strs(quoted_parts@) == qp);
    assert(full@ == join(qp, " "@));
    assert(strs(parts@).len() == parts.len());
    let full_str = full.as_str();
    let byte_len = full_str.len();
    assert(byte_len == encode_utf8(full@).len() as usize);
    if byte_len > 180 {
        let n: usize = if parts.len() < 3 { parts.len() } else { 3 };
        let mut prefix_parts: Vec<String> = Vec::new();
        let mut k: usize = 0;
        while k < n
            invariant
                k <= n,
                n <= quoted_parts.len(),
                quoted_parts.len() == parts.len(),
                strs(prefix_parts@) == strs(quoted_parts@).take(k as int),
            decreases n - k,
        {
            let ghost before = prefix_parts@;
            let q = quoted_parts[k].clone();
            prefix_parts.push(q);
            proof { lemma_strs_push(before, q); }
            k = k + 1;
            assert(strs(prefix_parts@) =~= strs(quoted_parts@).take(k as int));
        }
        assert(strs(quoted_parts@).take(n as int) =~= strs(parts@).take(n as int).map_values(
            |p: Seq<char>| quoted(p),
        ));
        let mut out = join_strings(prefix_parts.as_slice(), " ");
        out.append(" ... (");
        let rest: u64 = if parts.len() < 3 { 0 } else { (parts.len() - 3) as u64 };
        push_decimal(&mut out, rest);
        out.append(" more arguments)");
        assert(strs(parts@).take(n as int).map_values(|p: Seq<char>| quoted(p)) == strs(prefix_parts@));
        out
    } else {
        full
    }
}

/// The outcome of a command that must succeed, given what it did: its output, or the failure
/// carrying the rendered command and its exit code.
pub fn run_checked(command: &CommandSpec, output: RunOutput) -> (r: Result<RunOutput, NrError>)
    ensures
        output.code == 0 ==> (r matches Ok(o) && o == output),
        output.code != 0 ==> (r matches Err(NrError::CommandFailed { command: c, code }) && c@
            == rendered(command.argv()) && code == output.code),
{
    if output.code != 0 {
        return Err(NrError::CommandFailed { command: command.render(), code: output.code });
    }
    Ok(output)
}

/// How piping one command's output into another ended.
#[derive(Debug)]
pub enum PipeOutcome {
    /// The producer's exit code is the result.
    Finished(i32),
    /// Writing to the consumer failed while both commands succeeded: the
    /// write error is the result.
    WriteFailed,
    /// The consumer failed after a successful producer.
    Failed(NrError),
}

/// The result of piping `producer` output into `consumer`, given the two
/// exit codes and whether a write to the consumer failed. A failing
/// producer decides alone; after a successful one, a failed write counts
/// when the consumer exited cleanly, and a consumer that failed is reported
/// with its own exit code.
pub fn pipe_outcome(producer_code: i32, consumer: &CommandSpec, consumer_code: i32, write_failed: bool) -> (r: PipeOutcome)
    ensures
        producer_code != 0 ==> r == PipeOutcome::Finished(producer_code),
        producer_code == 0 && consumer_code == 0 && !write_failed ==> r == PipeOutcome::Finished(0),
        producer_code == 0 && consumer_code == 0 && write_failed ==> r is WriteFailed,
        producer_code == 0 && consumer_code != 0 ==> (r matches PipeOutcome::Failed(
            NrError::CommandFailed { command: c, code },
        ) && c@ == rendered(consumer.argv()) && code == consumer_code),
{
    if producer_code != 0 {
        return PipeOutcome::Finished(producer_code);
    }
    if consumer_code != 0 {
        return PipeOutcome::Failed(NrError::CommandFailed { command: consumer.render(), code: consumer_code });
    }
    if write_failed {
        PipeOutcome::WriteFailed
    } else {
        PipeOutcome::Finished(0)
    }
}

} // verus!
