//! The subprocess executor: turns a node's command template into the
//! program and arguments to launch, and turns what the process produced
//! into the node's outcome.
//!
//! The process must write one JSON object `{"route": "...", "content": "..."}`
//! on stdout.  Spawning, piping and waiting are done by the caller.

use vstd::prelude::*;

use crate::nodeshell::template::{rendered, rendered_windows, TemplateEngine};
use crate::nodeshell::types::{
    entries_view, is_surrogate, reason_for, result_view, NodeChunk, NodeContext, NodeOutcome, NodeOutput,
    SpawnError,
};
use crate::text::{
    chars_range, contains_exec, contains_seq, find_from, find_from_exec, lemma_find_from, push_char,
    push_range, push_str_chars, signed_decimal, signed_decimal_string, string_of_chars, strs_view,
    to_chars, trim_chars, trim_seq, trim_start_seq, trim_end_seq, is_ws, is_ws_exec,
};

verus! {

/// The tokenizer state: finished tokens, the token being read, and whether
/// the reader is inside double quotes.
pub type SplitState = (Seq<Seq<char>>, Seq<char>, bool);

/// One step of the command tokenizer.
pub open spec fn split_step(st: SplitState, ch: char) -> SplitState {
    let (tokens, current, in_quotes) = st;
    if ch == '"' && !in_quotes {
        (tokens, current, true)
    } else if ch == '"' && in_quotes {
        if current.len() > 0 && current.last() == '\\' {
            (tokens, current.drop_last().push('"'), in_quotes)
        } else {
            (tokens, current, false)
        }
    } else if is_ws(ch) && !in_quotes {
        if current.len() > 0 {
            (tokens.push(current), Seq::empty(), in_quotes)
        } else {
            (tokens, current, in_quotes)
        }
    } else {
        (tokens, current.push(ch), in_quotes)
    }
}

/// The tokenizer state after reading `cs`.
pub open spec fn split_fold(cs: Seq<char>) -> SplitState
    decreases cs.len(),
{
    if cs.len() == 0 {
        (Seq::empty(), Seq::empty(), false)
    } else {
        split_step(split_fold(cs.drop_last()), cs.last())
    }
}

/// The tokens of a command line: split on unquoted whitespace, double quotes
/// grouping (and stripped), `\"` inside quotes standing for a literal quote.
pub open spec fn command_tokens(command: Seq<char>) -> Seq<Seq<char>> {
    let st = split_fold(trim_seq(command));
    if st.1.len() > 0 {
        st.0.push(st.1)
    } else {
        st.0
    }
}

/// `s` with every occurrence of `pat` from `pos` on replaced by `rep`,
/// scanning left to right, as `str::replace` does.
pub open spec fn replace_from(s: Seq<char>, pos: int, pat: Seq<char>, rep: Seq<char>) -> Seq<char>
    decreases s.len() - pos,
{
    if pos < 0 || pos > s.len() || pat.len() == 0 {
        Seq::empty()
    } else {
        match find_from(s, pos, pat) {
            None => s.subrange(pos, s.len() as int),
            Some(i) => {
                proof {
                    lemma_find_from(s, pos, pat);
                }
                s.subrange(pos, i) + rep + replace_from(s, i + pat.len(), pat, rep)
            },
        }
    }
}

/// `s` with backslashes written as forward slashes.
pub open spec fn forward_slashes(s: Seq<char>) -> Seq<char> {
    s.map_values(|c: char| if c == '\\' { '/' } else { c })
}

/// `scripts/`
pub open spec fn scripts_marker() -> Seq<char> {
    seq!['s', 'c', 'r', 'i', 'p', 't', 's', '/']
}

/// A command with every `scripts/` pointing at the scripts directory.
pub open spec fn scripts_resolved(command: Seq<char>, dir: Seq<char>) -> Seq<char> {
    if !contains_seq(command, scripts_marker()) {
        command
    } else {
        replace_from(command, 0, scripts_marker(), forward_slashes(dir).push('/'))
    }
}

/// Whether a command holds a placeholder the template engine renders.
pub open spec fn has_template(command: Seq<char>) -> bool {
    ||| contains_seq(command, "{{metadata."@)
    ||| contains_seq(command, "{{datarouter."@)
    ||| contains_seq(command, "{{node_dir}}"@)
}

/// The context with lone surrogates removed from its string values.
pub open spec fn sanitized(before: NodeContext, after: NodeContext) -> bool {
    &&& after.metadata == before.metadata
    &&& after.inputs@.len() == before.inputs@.len()
    &&& after.extensions@.len() == before.extensions@.len()
    &&& after.upstream@.len() == before.upstream@.len()
    &&& forall|i: int| 0 <= i < before.inputs@.len() ==> {
        &&& (#[trigger] after.inputs@[i]).0 == before.inputs@[i].0
        &&& after.inputs@[i].1@ == before.inputs@[i].1@.filter(|c: char| !is_surrogate(c))
    }
    &&& forall|i: int| 0 <= i < before.extensions@.len() ==> {
        &&& (#[trigger] after.extensions@[i]).0 == before.extensions@[i].0
        &&& after.extensions@[i].1@ == before.extensions@[i].1@.filter(|c: char| !is_surrogate(c))
    }
    &&& forall|i: int| 0 <= i < before.upstream@.len() ==> {
        &&& (#[trigger] after.upstream@[i]).0 == before.upstream@[i].0
        &&& after.upstream@[i].1.route@ == before.upstream@[i].1.route@.filter(|c: char| !is_surrogate(c))
        &&& after.upstream@[i].1.content@ == before.upstream@[i].1.content@.filter(|c: char| !is_surrogate(c))
    }
}

/// The outcome of a finished process, or the protocol error it committed.
/// A timed-out process keeps its partial stdout as content; a process whose
/// stdout does not parse fails normally when its exit code is non-zero, and
/// breaks the protocol when it is zero.
pub open spec fn process_result(
    exit_code: i32,
    stdout: Seq<char>,
    stderr: Seq<char>,
    parsed: Result<(Seq<char>, Seq<char>), Seq<char>>,
) -> Result<((Seq<char>, Seq<char>), i32, Option<Seq<char>>), Seq<char>> {
    if exit_code == -9 {
        Ok(((Seq::empty(), stdout), exit_code, None))
    } else {
        match parsed {
            Ok(o) => if o.0.len() == 0 && trim_seq(stdout).len() > 0 {
                Err("stdout is not valid JSON with 'route' field: missing route"@)
            } else {
                Ok((o, exit_code, reason_for(o.0)))
            },
            Err(e) => if exit_code != 0 {
                let content = "process exited with code "@ + signed_decimal(exit_code as int) + ". stderr: "@ + stderr
                    + ". stdout parse error: "@ + e;
                Ok((("failed"@, content), exit_code, Some("failed"@)))
            } else {
                Err("stdout is not valid JSON with 'route' field: "@ + e)
            },
        }
    }
}

/// A parse result seen through its views.
pub open spec fn parsed_view(p: Result<NodeOutput, String>) -> Result<(Seq<char>, Seq<char>), Seq<char>> {
    match p {
        Ok(o) => Ok(o@),
        Err(e) => Err(e@),
    }
}

/// Executes a node by spawning a subprocess.
#[derive(Debug)]
pub struct SubprocessExecutor {
    command: String,
    shell: bool,
    scripts_dir: String,
}

impl SubprocessExecutor {
    /// The command template.
    pub closed spec fn command_view(&self) -> Seq<char> {
        self.command@
    }

    /// Whether the command is handed to `sh -c` whole.
    pub closed spec fn is_shell(&self) -> bool {
        self.shell
    }

    /// The scripts directory.
    pub closed spec fn scripts_dir_view(&self) -> Seq<char> {
        self.scripts_dir@
    }

    /// An executor that splits the command into program and arguments.
    pub fn new(command: String, scripts_dir: String) -> (r: Self)
        ensures
            r.command_view() == command@,
            !r.is_shell(),
            r.scripts_dir_view() == scripts_dir@,
    {
        SubprocessExecutor { command, shell: false, scripts_dir }
    }

    /// An executor that hands the command to the shell.
    pub fn new_shell(command: String, scripts_dir: String) -> (r: Self)
        ensures
            r.command_view() == command@,
            r.is_shell(),
            r.scripts_dir_view() == scripts_dir@,
    {
        SubprocessExecutor { command, shell: true, scripts_dir }
    }

    /// Split a command line into program and arguments: the first token and
    /// the rest (an empty program and no arguments for a blank line).
    pub fn split_command(command: &str) -> (r: (String, Vec<String>))
        ensures
            r.0@ == (if command_tokens(command@).len() > 0 { command_tokens(command@)[0] } else { Seq::empty() }),
            strs_view(r.1@) == (if command_tokens(command@).len() > 1 { command_tokens(command@).skip(1) } else { Seq::empty() }),
    {
        let all = to_chars(command);
        let trimmed = trim_chars(&all);
        let mut tokens: Vec<String> = Vec::new();
        let mut current: Vec<char> = Vec::new();
        let mut in_quotes = false;
        let mut i: usize = 0;
        while i < trimmed.len()
            invariant
                i <= trimmed@.len(),
                trimmed@ == trim_seq(command@),
                (strs_view(tokens@), current@, in_quotes) == split_fold(trimmed@.take(i as int)),
            decreases trimmed@.len() - i,
        {
            let ch = trimmed[i];
            let ghost st = split_fold(trimmed@.take(i as int));
            proof {
                assert(trimmed@.take(i + 1).drop_last() == trimmed@.take(i as int));
                assert(trimmed@.take(i + 1).last() == ch);
            }
            if ch == '"' && !in_quotes {
                in_quotes = true;
            } else if ch == '"' && in_quotes {
                if current.len() > 0 && current[current.len() - 1] == '\\' {
                    current.pop();
                    current.push('"');
                } else {
                    in_quotes = false;
                }
            } else if is_ws_exec(ch) && !in_quotes {
                if current.len() > 0 {
                    let tok = string_of_chars(&current);
                    tokens.push(tok);
                    current = Vec::new();
                    assert(strs_view(tokens@) =~= st.0.push(st.1));
                }
            } else {
                current.push(ch);
            }
            i = i + 1;
        }
        proof {
            assert(trimmed@.take(trimmed@.len() as int) == trimmed@);
        }
        if current.len() > 0 {
            let ghost before = tokens@;
            let tok = string_of_chars(&current);
            tokens.push(tok);
            assert(strs_view(tokens@) =~= strs_view(before).push(current@));
        }
        let ghost toks = strs_view(tokens@);
        assert(toks == command_tokens(command@));
        let program = if tokens.len() > 0 {
            tokens[0].clone()
        } else {
            String::new()
        };
        let mut args: Vec<String> = Vec::new();
        let mut k: usize = 1;
        while k < tokens.len()
            invariant
                1 <= k,
                toks == strs_view(tokens@),
                k <= tokens@.len() || tokens@.len() <= 1,
                strs_view(args@) == (if k <= tokens@.len() { toks.subrange(1, k as int) } else { Seq::empty() }),
            decreases tokens@.len() - k,
        {
            let ghost before = args@;
            assert(strs_view(before) == toks.subrange(1, k as int));
            let t = tokens[k].clone();
            assert(t@ == toks[k as int]);
            args.push(t);
            assert(strs_view(args@) =~= strs_view(before).push(t@));
            assert(strs_view(args@) =~= toks.subrange(1, k + 1));
            k = k + 1;
        }
        proof {
            if tokens@.len() > 1 {
                assert(toks.subrange(1, toks.len() as int) == toks.skip(1));
            } else {
                assert(strs_view(args@) =~= Seq::<Seq<char>>::empty());
            }
        }
        (program, args)
    }

    /// The command with every `scripts/` replaced by the scripts directory
    /// (backslashes written as forward slashes) followed by `/`.
    pub fn resolve_scripts_path(&self, command: &str) -> (r: String)
        ensures
            r@ == scripts_resolved(command@, self.scripts_dir_view()),
    {
        let t = to_chars(command);
        let marker: Vec<char> = vec!['s', 'c', 'r', 'i', 'p', 't', 's', '/'];
        assert(marker@ == scripts_marker());
        if !contains_exec(&t, &marker) {
            return string_of_chars(&t);
        }
        let dir = to_chars(self.scripts_dir.as_str());
        let mut rep: Vec<char> = Vec::new();
        let mut j: usize = 0;
        while j < dir.len()
            invariant
                j <= dir@.len(),
                dir@ == self.scripts_dir_view(),
                rep@ == forward_slashes(dir@).take(j as int),
            decreases dir@.len() - j,
        {
            let c = dir[j];
            if c == '\\' {
                rep.push('/');
            } else {
                rep.push(c);
            }
            assert(rep@ =~= forward_slashes(dir@).take(j + 1));
            j = j + 1;
        }
        rep.push('/');
        assert(rep@ =~= forward_slashes(dir@).push('/'));
        let mut out = String::new();
        let mut pos: usize = 0;
        while pos <= t.len()
            invariant_except_break
                pos <= t@.len(),
                out@ + replace_from(t@, pos as int, marker@, rep@) == replace_from(t@, 0, marker@, rep@),
            invariant
                t@ == command@,
                marker@ == scripts_marker(),
                rep@ == forward_slashes(self.scripts_dir_view()).push('/'),
            ensures
                out@ == replace_from(t@, 0, marker@, rep@),
            decreases t@.len() + 1 - pos,
        {
            proof {
                lemma_find_from(t@, pos as int, marker@);
            }
            match find_from_exec(&t, pos, &marker) {
                None => {
                    push_range(&mut out, &t, pos, t.len());
                    break;
                },
                Some(i) => {
                    let ghost before = out@;
                    push_range(&mut out, &t, pos, i);
                    push_range(&mut out, &rep, 0, rep.len());
                    assert(rep@.subrange(0, rep@.len() as int) == rep@);
                    assert(out@ == before + t@.subrange(pos as int, i as int) + rep@);
                    pos = i + 8;
                },
            }
        }
        out
    }

    /// The command to launch for a context: strips lone surrogates from the
    /// context, renders the command template when it holds a placeholder
    /// (shell-quoting values in shell mode), then resolves `scripts/` paths.
    pub fn prepare_command(&self, ctx: &mut NodeContext) -> (r: String)
        ensures
            sanitized(*old(ctx), *final(ctx)),
            r@ == scripts_resolved(
                if has_template(self.command_view()) {
                    rendered(self.command_view(), final(ctx).metadata, entries_view(final(ctx).upstream@), self.scripts_dir_view(), self.is_shell())
                } else {
                    self.command_view()
                },
                self.scripts_dir_view(),
            ),
    {
        ctx.sanitize_surrogates();
        let t = to_chars(self.command.as_str());
        let p1 = to_chars("{{metadata.");
        let p2 = to_chars("{{datarouter.");
        let p3 = to_chars("{{node_dir}}");
        let templated = contains_exec(&t, &p1) || contains_exec(&t, &p2) || contains_exec(&t, &p3);
        let command = if templated {
            if self.shell {
                TemplateEngine::render_shell(self.command.as_str(), &ctx.metadata, &ctx.upstream, self.scripts_dir.as_str())
            } else {
                TemplateEngine::render(self.command.as_str(), &ctx.metadata, &ctx.upstream, self.scripts_dir.as_str())
            }
        } else {
            self.command.clone()
        };
        self.resolve_scripts_path(command.as_str())
    }

    /// The command to launch for a context on Windows: as
    /// [`SubprocessExecutor::prepare_command`], but values substituted in
    /// shell mode are double-quoted for `cmd.exe`.
    pub fn prepare_command_windows(&self, ctx: &mut NodeContext) -> (r: String)
        ensures
            sanitized(*old(ctx), *final(ctx)),
            r@ == scripts_resolved(
                if !has_template(self.command_view()) {
                    self.command_view()
                } else if self.is_shell() {
                    rendered_windows(self.command_view(), final(ctx).metadata, entries_view(final(ctx).upstream@), self.scripts_dir_view())
                } else {
                    rendered(self.command_view(), final(ctx).metadata, entries_view(final(ctx).upstream@), self.scripts_dir_view(), false)
                },
                self.scripts_dir_view(),
            ),
    {
        ctx.sanitize_surrogates();
        let t = to_chars(self.command.as_str());
        let p1 = to_chars("{{metadata.");
        let p2 = to_chars("{{datarouter.");
        let p3 = to_chars("{{node_dir}}");
        let templated = contains_exec(&t, &p1) || contains_exec(&t, &p2) || contains_exec(&t, &p3);
        let command = if templated {
            if self.shell {
                TemplateEngine::render_shell_windows(self.command.as_str(), &ctx.metadata, &ctx.upstream, self.scripts_dir.as_str())
            } else {
                TemplateEngine::render(self.command.as_str(), &ctx.metadata, &ctx.upstream, self.scripts_dir.as_str())
            }
        } else {
            self.command.clone()
        };
        self.resolve_scripts_path(command.as_str())
    }

    /// Whether the command is handed to the shell whole.
    pub fn shell_mode(&self) -> (b: bool)
        ensures
            b == self.is_shell(),
    {
        self.shell
    }

    /// The program and arguments that run a prepared command: `sh -c
    /// <command>` in shell mode, else the split command line; an empty
    /// program is an error.
    pub fn launch_args(&self, command: &str) -> (r: Result<(String, Vec<String>), SpawnError>)
        ensures
            self.is_shell() ==> r is Ok && r->Ok_0.0@ == "sh"@ && strs_view(r->Ok_0.1@) == seq!["-c"@, command@],
            !self.is_shell() ==> match r {
                Ok(p) => command_tokens(command@).len() > 0 && command_tokens(command@)[0].len() > 0
                    && p.0@ == command_tokens(command@)[0]
                    && strs_view(p.1@) == command_tokens(command@).skip(1),
                Err(e) => (command_tokens(command@).len() == 0 || command_tokens(command@)[0].len() == 0)
                    && e.message@ == "empty command"@,
            },
    {
        if self.shell {
            let mut args: Vec<String> = Vec::new();
            args.push(String::from_str("-c"));
            args.push(String::from_str(command));
            assert(strs_view(args@) =~= seq!["-c"@, command@]);
            Ok((String::from_str("sh"), args))
        } else {
            let (program, args) = Self::split_command(command);
            if program.as_str().is_empty() {
                Err(SpawnError::with_message(String::from_str("empty command")))
            } else {
                proof {
                    if command_tokens(command@).len() <= 1 {
                        assert(command_tokens(command@).skip(1) =~= Seq::<Seq<char>>::empty());
                    }
                }
                Ok((program, args))
            }
        }
    }

    /// The program and arguments that run a prepared command on Windows:
    /// `cmd.exe /c` followed by the command, with a leading space, as one
    /// argument handed over without further escaping in shell mode; else
    /// the split command line, as [`SubprocessExecutor::launch_args`] gives it.
    pub fn launch_args_windows(&self, command: &str) -> (r: Result<(String, Vec<String>), SpawnError>)
        ensures
            self.is_shell() ==> r is Ok && r->Ok_0.0@ == "cmd.exe"@ && strs_view(r->Ok_0.1@) == seq![
                "/c"@,
                seq![' '] + command@,
            ],
            !self.is_shell() ==> match r {
                Ok(p) => command_tokens(command@).len() > 0 && command_tokens(command@)[0].len() > 0
                    && p.0@ == command_tokens(command@)[0]
                    && strs_view(p.1@) == command_tokens(command@).skip(1),
                Err(e) => (command_tokens(command@).len() == 0 || command_tokens(command@)[0].len() == 0)
                    && e.message@ == "empty command"@,
            },
    {
        if self.shell {
            let mut raw = String::new();
            push_char(&mut raw, ' ');
            push_str_chars(&mut raw, command);
            let mut args: Vec<String> = Vec::new();
            args.push(String::from_str("/c"));
            args.push(raw);
            assert(strs_view(args@) =~= seq!["/c"@, seq![' '] + command@]);
            Ok((String::from_str("cmd.exe"), args))
        } else {
            self.launch_args(command)
        }
    }

    /// The chunk that announces a launch in the run log.
    pub fn announcement(&self, command: &str) -> (r: NodeChunk)
        ensures
            r.text@ == (if self.is_shell() { "[shell_node] "@ } else { "[subprocess_node] "@ }) + command@,
    {
        let mut text = String::new();
        if self.shell {
            push_str_chars(&mut text, "[shell_node] ");
        } else {
            push_str_chars(&mut text, "[subprocess_node] ");
        }
        push_str_chars(&mut text, command);
        assert(Seq::<char>::empty() + "[shell_node] "@ == "[shell_node] "@);
        assert(Seq::<char>::empty() + "[subprocess_node] "@ == "[subprocess_node] "@);
        NodeChunk { text }
    }
}

/// The outcome of a finished subprocess from its exit code, its collected
/// stdout and stderr, and the result of parsing stdout as a node output.
pub fn process_outcome(exit_code: i32, stdout: String, stderr: String, parsed: Result<NodeOutput, String>) -> (r: Result<NodeOutcome, SpawnError>)
    ensures
        result_view(r) == process_result(exit_code, stdout@, stderr@, parsed_view(parsed)),
{
    if exit_code == crate::nodeshell::exit_codes::TIMEOUT {
        let out = NodeOutput { route: String::new(), content: stdout };
        let r = NodeOutcome { output: out, exit_code, exit_reason: None };
        return Ok(r);
    }
    match parsed {
        Ok(o) => {
            let sv = to_chars(stdout.as_str());
            let st = trim_chars(&sv);
            if o.route.as_str().is_empty() && st.len() > 0 {
                Err(SpawnError::with_message(String::from_str("stdout is not valid JSON with 'route' field: missing route")))
            } else {
                Ok(NodeOutcome::routed(o, exit_code))
            }
        },
        Err(e) => {
            if exit_code != 0 {
                let mut content = String::new();
                push_str_chars(&mut content, "process exited with code ");
                let code = signed_decimal_string(exit_code);
                push_str_chars(&mut content, code.as_str());
                push_str_chars(&mut content, ". stderr: ");
                push_str_chars(&mut content, stderr.as_str());
                push_str_chars(&mut content, ". stdout parse error: ");
                push_str_chars(&mut content, e.as_str());
                assert(Seq::<char>::empty() + "process exited with code "@ == "process exited with code "@);
                let out = NodeOutput { route: String::from_str("failed"), content };
                Ok(NodeOutcome { output: out, exit_code, exit_reason: Some(String::from_str("failed")) })
            } else {
                let mut m = String::new();
                push_str_chars(&mut m, "stdout is not valid JSON with 'route' field: ");
                push_str_chars(&mut m, e.as_str());
                assert(Seq::<char>::empty() + "stdout is not valid JSON with 'route' field: "@ == "stdout is not valid JSON with 'route' field: "@);
                Err(SpawnError::with_message(m))
            }
        },
    }
}

} // verus!

verus! {

/// One step of splitting on whitespace alone: whitespace ends the word
/// being read, any other character extends it.
pub open spec fn ws_step(st: (Seq<Seq<char>>, Seq<char>), ch: char) -> (Seq<Seq<char>>, Seq<char>) {
    if is_ws(ch) {
        if st.1.len() > 0 {
            (st.0.push(st.1), Seq::empty())
        } else {
            st
        }
    } else {
        (st.0, st.1.push(ch))
    }
}

/// The whitespace splitter's state after reading `cs`.
pub open spec fn ws_fold(cs: Seq<char>) -> (Seq<Seq<char>>, Seq<char>)
    decreases cs.len(),
{
    if cs.len() == 0 {
        (Seq::empty(), Seq::empty())
    } else {
        ws_step(ws_fold(cs.drop_last()), cs.last())
    }
}

/// The words of a splitter state: the finished words and the one being read.
pub open spec fn state_words(st: (Seq<Seq<char>>, Seq<char>)) -> Seq<Seq<char>> {
    if st.1.len() > 0 {
        st.0.push(st.1)
    } else {
        st.0
    }
}

/// The maximal runs of non-whitespace characters of `s`, in order, as
/// `str::split_whitespace` yields them.
pub open spec fn whitespace_words(s: Seq<char>) -> Seq<Seq<char>> {
    state_words(ws_fold(s))
}

proof fn lemma_quote_free_fold(cs: Seq<char>)
    requires
        !cs.contains('"'),
    ensures
        split_fold(cs) == (ws_fold(cs).0, ws_fold(cs).1, false),
    decreases cs.len(),
{
    if cs.len() > 0 {
        let d = cs.drop_last();
        assert(!d.contains('"')) by {
            if d.contains('"') {
                let j = choose|j: int| 0 <= j < d.len() && d[j] == '"';
                assert(cs[j] == '"');
            }
        }
        assert(cs[cs.len() - 1] == cs.last());
        lemma_quote_free_fold(d);
    }
}

proof fn lemma_leading_ws(c: char, s: Seq<char>)
    requires
        is_ws(c),
    ensures
        ws_fold(seq![c] + s) == ws_fold(s),
    decreases s.len(),
{
    if s.len() == 0 {
        assert(seq![c] + s =~= seq![c]);
        assert(seq![c].drop_last() =~= Seq::<char>::empty());
        assert(seq![c].last() == c);
        assert(ws_fold(seq![c]) == ws_step(ws_fold(Seq::<char>::empty()), c));
    } else {
        lemma_leading_ws(c, s.drop_last());
        assert((seq![c] + s).drop_last() =~= seq![c] + s.drop_last());
        assert((seq![c] + s).last() == s.last());
        assert((seq![c] + s).len() > 0);
        assert(ws_fold(seq![c] + s) == ws_step(ws_fold((seq![c] + s).drop_last()), (seq![c] + s).last()));
    }
}

proof fn lemma_trim_start_words(s: Seq<char>)
    ensures
        whitespace_words(trim_start_seq(s)) == whitespace_words(s),
        !s.contains('"') ==> !trim_start_seq(s).contains('"'),
    decreases s.len(),
{
    if s.len() > 0 && is_ws(s[0]) {
        let d = s.drop_first();
        lemma_trim_start_words(d);
        assert(seq![s[0]] + d =~= s);
        lemma_leading_ws(s[0], d);
        if !s.contains('"') {
            assert(!d.contains('"')) by {
                if d.contains('"') {
                    let j = choose|j: int| 0 <= j < d.len() && d[j] == '"';
                    assert(s[j + 1] == '"');
                }
            }
        }
    }
}

proof fn lemma_trim_end_words(s: Seq<char>)
    ensures
        whitespace_words(trim_end_seq(s)) == whitespace_words(s),
        !s.contains('"') ==> !trim_end_seq(s).contains('"'),
    decreases s.len(),
{
    if s.len() > 0 && is_ws(s.last()) {
        let d = s.drop_last();
        lemma_trim_end_words(d);
        if !s.contains('"') {
            assert(!d.contains('"')) by {
                if d.contains('"') {
                    let j = choose|j: int| 0 <= j < d.len() && d[j] == '"';
                    assert(s[j] == '"');
                }
            }
        }
    }
}

/// A command line without double quotes splits exactly as on whitespace:
/// its tokens are the maximal runs of non-whitespace characters, so
/// [`SubprocessExecutor::split_command`] gives the first of them as the
/// program and the rest as the arguments.
pub proof fn law_quote_free_split_on_whitespace(command: Seq<char>)
    requires
        !command.contains('"'),
    ensures
        command_tokens(command) == whitespace_words(command),
{
    lemma_trim_start_words(command);
    lemma_trim_end_words(trim_start_seq(command));
    lemma_quote_free_fold(trim_seq(command));
}

/// When a process that exits with code zero (and was not killed for a
/// timeout) becomes an error: exactly when its stdout does not parse, or
/// parses with an empty route while holding more than whitespace.  The
/// error then names the missing route field; otherwise the outcome carries
/// the parsed output, exit code zero and the route as exit reason.
pub proof fn law_zero_exit_outcome(
    stdout: Seq<char>,
    stderr: Seq<char>,
    parsed: Result<(Seq<char>, Seq<char>), Seq<char>>,
)
    ensures
        process_result(0, stdout, stderr, parsed) is Err <==> (parsed is Err || (parsed->Ok_0.0.len() == 0
            && trim_seq(stdout).len() > 0)),
        process_result(0, stdout, stderr, parsed) matches Err(m) ==> (m
            == "stdout is not valid JSON with 'route' field: missing route"@ || (parsed matches Err(e) && m
            == "stdout is not valid JSON with 'route' field: "@ + e)),
        process_result(0, stdout, stderr, parsed) matches Ok(r) ==> (parsed matches Ok(o) && r == (o, 0i32, reason_for(o.0))),
{
}

/// Stripping surrogates is idempotent: sanitizing an already sanitized
/// context changes none of its keys or string values.
pub proof fn law_sanitize_idempotent(a: NodeContext, b: NodeContext, c: NodeContext)
    requires
        sanitized(a, b),
        sanitized(b, c),
    ensures
        c.metadata == b.metadata,
        c.inputs@.len() == b.inputs@.len(),
        c.extensions@.len() == b.extensions@.len(),
        c.upstream@.len() == b.upstream@.len(),
        forall|i: int| 0 <= i < b.inputs@.len() ==> (#[trigger] c.inputs@[i]).0 == b.inputs@[i].0 && c.inputs@[i].1@ == b.inputs@[i].1@,
        forall|i: int| 0 <= i < b.extensions@.len() ==> (#[trigger] c.extensions@[i]).0 == b.extensions@[i].0 && c.extensions@[i].1@ == b.extensions@[i].1@,
        forall|i: int| 0 <= i < b.upstream@.len() ==> (#[trigger] c.upstream@[i]).0 == b.upstream@[i].0
            && c.upstream@[i].1.route@ == b.upstream@[i].1.route@ && c.upstream@[i].1.content@ == b.upstream@[i].1.content@,
{
    assert forall|i: int| 0 <= i < b.inputs@.len() implies (#[trigger] c.inputs@[i]).0 == b.inputs@[i].0 && c.inputs@[i].1@ == b.inputs@[i].1@ by {
        crate::nodeshell::types::lemma_strip_surrogates_identity(b.inputs@[i].1@);
    }
    assert forall|i: int| 0 <= i < b.extensions@.len() implies (#[trigger] c.extensions@[i]).0 == b.extensions@[i].0 && c.extensions@[i].1@ == b.extensions@[i].1@ by {
        crate::nodeshell::types::lemma_strip_surrogates_identity(b.extensions@[i].1@);
    }
    assert forall|i: int| 0 <= i < b.upstream@.len() implies (#[trigger] c.upstream@[i]).0 == b.upstream@[i].0
        && c.upstream@[i].1.route@ == b.upstream@[i].1.route@ && c.upstream@[i].1.content@ == b.upstream@[i].1.content@ by {
        crate::nodeshell::types::lemma_strip_surrogates_identity(b.upstream@[i].1.route@);
        crate::nodeshell::types::lemma_strip_surrogates_identity(b.upstream@[i].1.content@);
    }
}

} // verus!
