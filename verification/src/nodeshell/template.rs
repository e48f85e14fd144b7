//! Rendering of `{{metadata.*}}`, `{{datarouter.*.*}}` and `{{node_dir}}`
//! placeholders in command and prompt templates.
//!
//! Supported placeholders:
//!
//! | Pattern | Value |
//! |---|---|
//! | `{{metadata.run_count}}` | current execution count (1-based) |
//! | `{{metadata.timed_out}}` | whether the previous run timed out |
//! | `{{datarouter.<alias>.route}}` | the upstream node's route |
//! | `{{datarouter.<alias>.content}}` | the upstream node's content |
//! | `{{node_dir}}` | the resolved scripts directory |
//!
//! Anything else between `{{` and `}}` (unknown metadata or datarouter
//! fields, a datarouter path without a field, other names) is passed through
//! unchanged, as is an unclosed `{{`.

use vstd::prelude::*;

use crate::nodeshell::types::{entries_view, kv_find_exec, kv_get, lemma_kv_find, NodeMetadata, NodeOutput};
use crate::text::{
    bool_string, bool_text, chars_eq, chars_range, decimal, decimal_string, find_from, find_from_exec,
    lemma_find_from, matches_at, matches_at_exec, push_char, push_range, push_str_chars, string_of_chars,
    to_chars,
};

verus! {

/// `{{`
pub open spec fn open_mark() -> Seq<char> {
    seq!['{', '{']
}

/// `}}`
pub open spec fn close_mark() -> Seq<char> {
    seq!['}', '}']
}

/// `metadata.`
pub open spec fn metadata_prefix() -> Seq<char> {
    seq!['m', 'e', 't', 'a', 'd', 'a', 't', 'a', '.']
}

/// `datarouter.`
pub open spec fn datarouter_prefix() -> Seq<char> {
    seq!['d', 'a', 't', 'a', 'r', 'o', 'u', 't', 'e', 'r', '.']
}

/// `run_count`
pub open spec fn run_count_key() -> Seq<char> {
    seq!['r', 'u', 'n', '_', 'c', 'o', 'u', 'n', 't']
}

/// `timed_out`
pub open spec fn timed_out_key() -> Seq<char> {
    seq!['t', 'i', 'm', 'e', 'd', '_', 'o', 'u', 't']
}

/// `route`
pub open spec fn route_key() -> Seq<char> {
    seq!['r', 'o', 'u', 't', 'e']
}

/// `content`
pub open spec fn content_key() -> Seq<char> {
    seq!['c', 'o', 'n', 't', 'e', 'n', 't']
}

/// `node_dir`
pub open spec fn node_dir_key() -> Seq<char> {
    seq!['n', 'o', 'd', 'e', '_', 'd', 'i', 'r']
}

/// `v` with every single quote replaced by `'\''`.
pub open spec fn quote_escaped(v: Seq<char>) -> Seq<char>
    decreases v.len(),
{
    if v.len() == 0 {
        Seq::empty()
    } else {
        quote_escaped(v.drop_last()) + if v.last() == '\'' {
            seq!['\'', '\\', '\'', '\'']
        } else {
            seq![v.last()]
        }
    }
}

/// `v` wrapped in single quotes for a POSIX shell.
pub open spec fn shell_quoted(v: Seq<char>) -> Seq<char> {
    seq!['\''] + quote_escaped(v) + seq!['\'']
}

/// How substituted values are written: as they are, single-quoted for a
/// POSIX shell, or double-quoted for `cmd.exe`.
#[derive(Clone, Copy, Debug, PartialEq, Eq, Structural)]
pub enum Quoting {
    Verbatim,
    Posix,
    Windows,
}

/// The quoting of a render: POSIX shell quoting in shell mode, none otherwise.
pub open spec fn quoting_for(shell: bool) -> Quoting {
    if shell {
        Quoting::Posix
    } else {
        Quoting::Verbatim
    }
}

/// `v` with every `"` doubled and every `%` doubled, as `cmd.exe` reads
/// them inside double quotes.
pub open spec fn windows_escaped(v: Seq<char>) -> Seq<char>
    decreases v.len(),
{
    if v.len() == 0 {
        Seq::empty()
    } else {
        windows_escaped(v.drop_last()) + if v.last() == '"' {
            seq!['"', '"']
        } else if v.last() == '%' {
            seq!['%', '%']
        } else {
            seq![v.last()]
        }
    }
}

/// `v` wrapped in double quotes for `cmd.exe`.
pub open spec fn windows_quoted(v: Seq<char>) -> Seq<char> {
    seq!['"'] + windows_escaped(v) + seq!['"']
}

/// A substituted value, quoted as the render asks.
pub open spec fn emit(v: Seq<char>, q: Quoting) -> Seq<char> {
    match q {
        Quoting::Verbatim => v,
        Quoting::Posix => shell_quoted(v),
        Quoting::Windows => windows_quoted(v),
    }
}

/// A placeholder written back as it appeared.
pub open spec fn placeholder_text(key: Seq<char>) -> Seq<char> {
    open_mark() + key + close_mark()
}

/// What the placeholder `{{key}}` renders to.
pub open spec fn placeholder_value(
    key: Seq<char>,
    meta: NodeMetadata,
    upstream: Seq<(Seq<char>, (Seq<char>, Seq<char>))>,
    dir: Seq<char>,
    q: Quoting,
) -> Seq<char> {
    if matches_at(key, 0, metadata_prefix()) {
        let field = key.skip(metadata_prefix().len() as int);
        if field == run_count_key() {
            emit(decimal(meta.run_count as nat), q)
        } else if field == timed_out_key() {
            emit(bool_text(meta.timed_out), q)
        } else {
            placeholder_text(key)
        }
    } else if matches_at(key, 0, datarouter_prefix()) {
        let path = key.skip(datarouter_prefix().len() as int);
        match find_from(path, 0, seq!['.']) {
            Some(dot) => {
                let alias = path.take(dot);
                let field = path.skip(dot + 1);
                let out = match kv_get(upstream, alias) {
                    Some(o) => o,
                    None => (Seq::<char>::empty(), Seq::<char>::empty()),
                };
                if field == route_key() {
                    emit(out.0, q)
                } else if field == content_key() {
                    emit(out.1, q)
                } else {
                    placeholder_text(key)
                }
            },
            None => placeholder_text(key),
        }
    } else if key == node_dir_key() {
        emit(dir, q)
    } else {
        placeholder_text(key)
    }
}

/// The rendering of `t` from position `pos` on: text up to the next `{{`
/// is copied, a closed placeholder is replaced by its value, and text from
/// an unclosed `{{` on is copied unchanged.
pub open spec fn render_at(
    t: Seq<char>,
    pos: int,
    meta: NodeMetadata,
    upstream: Seq<(Seq<char>, (Seq<char>, Seq<char>))>,
    dir: Seq<char>,
    q: Quoting,
) -> Seq<char>
    decreases t.len() - pos,
{
    if pos < 0 || pos > t.len() {
        Seq::empty()
    } else {
        match find_from(t, pos, open_mark()) {
            None => t.subrange(pos, t.len() as int),
            Some(start) => match find_from(t, start + 2, close_mark()) {
                None => t.subrange(pos, t.len() as int),
                Some(end) => {
                    proof {
                        lemma_find_from(t, pos, open_mark());
                        lemma_find_from(t, start + 2, close_mark());
                    }
                    t.subrange(pos, start) + placeholder_value(t.subrange(start + 2, end), meta, upstream, dir, q)
                        + render_at(t, end + 2, meta, upstream, dir, q)
                },
            },
        }
    }
}

/// The rendering of a whole template.
pub open spec fn rendered(
    t: Seq<char>,
    meta: NodeMetadata,
    upstream: Seq<(Seq<char>, (Seq<char>, Seq<char>))>,
    dir: Seq<char>,
    shell: bool,
) -> Seq<char> {
    render_at(t, 0, meta, upstream, dir, quoting_for(shell))
}

/// The rendering of a whole template for `cmd.exe`.
pub open spec fn rendered_windows(
    t: Seq<char>,
    meta: NodeMetadata,
    upstream: Seq<(Seq<char>, (Seq<char>, Seq<char>))>,
    dir: Seq<char>,
) -> Seq<char> {
    render_at(t, 0, meta, upstream, dir, Quoting::Windows)
}

/// Renders placeholders in command and prompt templates.
pub struct TemplateEngine;

impl TemplateEngine {
    /// Render placeholders, substituting values verbatim (for prompts that
    /// travel as structured data).
    pub fn render(template: &str, metadata: &NodeMetadata, upstream: &Vec<(String, NodeOutput)>, scripts_dir: &str) -> (r: String)
        ensures
            r@ == rendered(template@, *metadata, entries_view(upstream@), scripts_dir@, false),
    {
        Self::render_impl(template, metadata, upstream, scripts_dir, Quoting::Verbatim)
    }

    /// Render placeholders, single-quoting every substituted value for a
    /// POSIX shell.
    pub fn render_shell(template: &str, metadata: &NodeMetadata, upstream: &Vec<(String, NodeOutput)>, scripts_dir: &str) -> (r: String)
        ensures
            r@ == rendered(template@, *metadata, entries_view(upstream@), scripts_dir@, true),
    {
        Self::render_impl(template, metadata, upstream, scripts_dir, Quoting::Posix)
    }

    /// Render placeholders, double-quoting every substituted value for
    /// `cmd.exe`.
    pub fn render_shell_windows(
        template: &str,
        metadata: &NodeMetadata,
        upstream: &Vec<(String, NodeOutput)>,
        scripts_dir: &str,
    ) -> (r: String)
        ensures
            r@ == rendered_windows(template@, *metadata, entries_view(upstream@), scripts_dir@),
    {
        Self::render_impl(template, metadata, upstream, scripts_dir, Quoting::Windows)
    }

    /// Render placeholders, quoting substituted values as `q` asks.
    pub fn render_impl(
        template: &str,
        metadata: &NodeMetadata,
        upstream: &Vec<(String, NodeOutput)>,
        scripts_dir: &str,
        q: Quoting,
    ) -> (r: String)
        ensures
            r@ == render_at(template@, 0, *metadata, entries_view(upstream@), scripts_dir@, q),
    {
        let t = to_chars(template);
        let ghost up = entries_view(upstream@);
        let open_v: Vec<char> = vec!['{', '{'];
        let close_v: Vec<char> = vec!['}', '}'];
        assert(open_v@ == open_mark());
        assert(close_v@ == close_mark());
        let mut result = String::new();
        let mut pos: usize = 0;
        while pos <= t.len()
            invariant_except_break
                pos <= t@.len(),
                result@ + render_at(t@, pos as int, *metadata, up, scripts_dir@, q)
                    == render_at(t@, 0, *metadata, up, scripts_dir@, q),
            invariant
                t@ == template@,
                up == entries_view(upstream@),
                open_v@ == open_mark(),
                close_v@ == close_mark(),
            ensures
                result@ == render_at(t@, 0, *metadata, up, scripts_dir@, q),
            decreases t@.len() + 1 - pos,
        {
            proof {
                lemma_find_from(t@, pos as int, open_mark());
            }
            match find_from_exec(&t, pos, &open_v) {
                None => {
                    push_range(&mut result, &t, pos, t.len());
                    break;
                },
                Some(start) => {
                    proof {
                        lemma_find_from(t@, start + 2, close_mark());
                    }
                    match find_from_exec(&t, start + 2, &close_v) {
                        None => {
                            push_range(&mut result, &t, pos, t.len());
                            break;
                        },
                        Some(end) => {
                            let ghost before = result@;
                            push_range(&mut result, &t, pos, start);
                            let key = chars_range(&t, start + 2, end);
                            let value = Self::placeholder_value(&key, metadata, upstream, scripts_dir, q);
                            push_str_chars(&mut result, value.as_str());
                            proof {
                                assert(result@ == before + t@.subrange(pos as int, start as int)
                                    + placeholder_value(key@, *metadata, up, scripts_dir@, q));
                            }
                            pos = end + 2;
                        },
                    }
                },
            }
        }
        result
    }

    /// The value of the placeholder `{{key}}`.
    pub(crate) fn placeholder_value(
        key: &Vec<char>,
        metadata: &NodeMetadata,
        upstream: &Vec<(String, NodeOutput)>,
        scripts_dir: &str,
        q: Quoting,
    ) -> (r: String)
        ensures
            r@ == placeholder_value(key@, *metadata, entries_view(upstream@), scripts_dir@, q),
    {
        let metadata_v: Vec<char> = vec!['m', 'e', 't', 'a', 'd', 'a', 't', 'a', '.'];
        let datarouter_v: Vec<char> = vec!['d', 'a', 't', 'a', 'r', 'o', 'u', 't', 'e', 'r', '.'];
        let node_dir_v: Vec<char> = vec!['n', 'o', 'd', 'e', '_', 'd', 'i', 'r'];
        assert(metadata_v@ == metadata_prefix());
        assert(datarouter_v@ == datarouter_prefix());
        assert(node_dir_v@ == node_dir_key());
        if matches_at_exec(key, 0, &metadata_v) {
            let field = chars_range(key, 9, key.len());
            let run_count_v: Vec<char> = vec!['r', 'u', 'n', '_', 'c', 'o', 'u', 'n', 't'];
            let timed_out_v: Vec<char> = vec!['t', 'i', 'm', 'e', 'd', '_', 'o', 'u', 't'];
            assert(run_count_v@ == run_count_key());
            assert(timed_out_v@ == timed_out_key());
            assert(field@ == key@.skip(9));
            if chars_eq(&field, &run_count_v) {
                let v = decimal_string(metadata.run_count);
                Self::emit(v.as_str(), q)
            } else if chars_eq(&field, &timed_out_v) {
                let v = bool_string(metadata.timed_out);
                Self::emit(v.as_str(), q)
            } else {
                Self::placeholder_text(key)
            }
        } else if matches_at_exec(key, 0, &datarouter_v) {
            let path = chars_range(key, 11, key.len());
            assert(path@ == key@.skip(11));
            let dot_v: Vec<char> = vec!['.'];
            assert(dot_v@ == seq!['.']);
            proof {
                lemma_find_from(path@, 0, seq!['.']);
            }
            match find_from_exec(&path, 0, &dot_v) {
                Some(dot) => {
                    let alias_v = chars_range(&path, 0, dot);
                    let field = chars_range(&path, dot + 1, path.len());
                    assert(alias_v@ == path@.take(dot as int));
                    assert(field@ == path@.skip(dot + 1));
                    let alias = string_of_chars(&alias_v);
                    let route_v: Vec<char> = vec!['r', 'o', 'u', 't', 'e'];
                    let content_v: Vec<char> = vec!['c', 'o', 'n', 't', 'e', 'n', 't'];
                    assert(route_v@ == route_key());
                    assert(content_v@ == content_key());
                    let found = kv_find_exec(upstream, alias.as_str());
                    proof {
                        lemma_kv_find(entries_view(upstream@), alias@);
                    }
                    if chars_eq(&field, &route_v) {
                        match found {
                            Some(i) => {
                                assert(entries_view(upstream@)[i as int] == (upstream@[i as int].0@, upstream@[i as int].1@));
                                Self::emit(upstream[i].1.route.as_str(), q)
                            },
                            None => {
                                proof {
                                    reveal_strlit("");
                                }
                                Self::emit("", q)
                            },
                        }
                    } else if chars_eq(&field, &content_v) {
                        match found {
                            Some(i) => {
                                assert(entries_view(upstream@)[i as int] == (upstream@[i as int].0@, upstream@[i as int].1@));
                                Self::emit(upstream[i].1.content.as_str(), q)
                            },
                            None => {
                                proof {
                                    reveal_strlit("");
                                }
                                Self::emit("", q)
                            },
                        }
                    } else {
                        Self::placeholder_text(key)
                    }
                },
                None => Self::placeholder_text(key),
            }
        } else if chars_eq(key, &node_dir_v) {
            Self::emit(scripts_dir, q)
        } else {
            Self::placeholder_text(key)
        }
    }

    /// `{{key}}`, as written.
    pub(crate) fn placeholder_text(key: &Vec<char>) -> (r: String)
        ensures
            r@ == placeholder_text(key@),
    {
        let mut s = String::new();
        push_char(&mut s, '{');
        push_char(&mut s, '{');
        push_range(&mut s, key, 0, key.len());
        push_char(&mut s, '}');
        push_char(&mut s, '}');
        assert(key@.subrange(0, key@.len() as int) == key@);
        assert(s@ =~= placeholder_text(key@));
        s
    }

    /// A substituted value, quoted as `q` asks.
    fn emit(v: &str, q: Quoting) -> (r: String)
        ensures
            r@ == emit(v@, q),
    {
        match q {
            Quoting::Posix => Self::shell_escape(v),
            Quoting::Windows => Self::shell_escape_windows(v),
            Quoting::Verbatim => {
                let mut s = String::new();
                push_str_chars(&mut s, v);
                assert(Seq::<char>::empty() + v@ == v@);
                s
            },
        }
    }

    /// Quote a value for `cmd.exe`: wrap it in double quotes, writing every
    /// `"` inside it as `""` and every `%` as `%%`.
    pub fn shell_escape_windows(value: &str) -> (r: String)
        ensures
            r@ == windows_quoted(value@),
    {
        let v = to_chars(value);
        let mut s = String::new();
        push_char(&mut s, '"');
        let mut i: usize = 0;
        while i < v.len()
            invariant
                i <= v@.len(),
                v@ == value@,
                s@ == seq!['"'] + windows_escaped(v@.take(i as int)),
            decreases v@.len() - i,
        {
            let c = v[i];
            if c == '"' {
                push_char(&mut s, '"');
                push_char(&mut s, '"');
            } else if c == '%' {
                push_char(&mut s, '%');
                push_char(&mut s, '%');
            } else {
                push_char(&mut s, c);
            }
            proof {
                assert(v@.take(i + 1).drop_last() == v@.take(i as int));
                assert(v@.take(i + 1).last() == c);
                assert(s@ =~= seq!['"'] + windows_escaped(v@.take(i + 1)));
            }
            i = i + 1;
        }
        push_char(&mut s, '"');
        assert(v@.take(v@.len() as int) == v@);
        assert(s@ =~= windows_quoted(value@));
        s
    }

    /// Quote a value for a POSIX shell: wrap it in single quotes and write
    /// every single quote inside it as `'\''`.
    pub fn shell_escape(value: &str) -> (r: String)
        ensures
            r@ == shell_quoted(value@),
    {
        let v = to_chars(value);
        let mut s = String::new();
        push_char(&mut s, '\'');
        let mut i: usize = 0;
        while i < v.len()
            invariant
                i <= v@.len(),
                v@ == value@,
                s@ == seq!['\''] + quote_escaped(v@.take(i as int)),
            decreases v@.len() - i,
        {
            let c = v[i];
            if c == '\'' {
                push_char(&mut s, '\'');
                push_char(&mut s, '\\');
                push_char(&mut s, '\'');
                push_char(&mut s, '\'');
            } else {
                push_char(&mut s, c);
            }
            proof {
                assert(v@.take(i + 1).drop_last() == v@.take(i as int));
                assert(v@.take(i + 1).last() == c);
                assert(s@ =~= seq!['\''] + quote_escaped(v@.take(i + 1)));
            }
            i = i + 1;
        }
        push_char(&mut s, '\'');
        assert(v@.take(v@.len() as int) == v@);
        assert(s@ =~= shell_quoted(value@));
        s
    }
}

/// A template with no `{{` renders to itself, in either mode.
pub proof fn law_render_without_placeholders(
    t: Seq<char>,
    meta: NodeMetadata,
    upstream: Seq<(Seq<char>, (Seq<char>, Seq<char>))>,
    dir: Seq<char>,
    shell: bool,
)
    requires
        find_from(t, 0, open_mark()) is None,
    ensures
        rendered(t, meta, upstream, dir, shell) == t,
{
    assert(t.subrange(0, t.len() as int) == t);
}

/// A value without single quotes is shell-quoted by wrapping it in single
/// quotes, so the shell reads it back as one word holding exactly the value.
pub proof fn law_shell_quote_plain(v: Seq<char>)
    requires
        forall|i: int| 0 <= i < v.len() ==> v[i] != '\'',
    ensures
        shell_quoted(v) == seq!['\''] + v + seq!['\''],
    decreases v.len(),
{
    lemma_quote_escaped_plain(v);
}

proof fn lemma_quote_escaped_plain(v: Seq<char>)
    requires
        forall|i: int| 0 <= i < v.len() ==> v[i] != '\'',
    ensures
        quote_escaped(v) == v,
    decreases v.len(),
{
    if v.len() > 0 {
        let d = v.drop_last();
        assert forall|i: int| 0 <= i < d.len() implies d[i] != '\'' by {
            assert(d[i] == v[i]);
        }
        lemma_quote_escaped_plain(d);
        assert(d.push(v.last()) == v);
        assert(v.last() == v[v.len() - 1]);
    } else {
        assert(quote_escaped(v) =~= v);
    }
}

} // verus!

verus! {

/// Where a POSIX shell reader stands inside a word: outside quotes, inside
/// single quotes, or right after a backslash outside quotes.
pub enum ShellReadMode {
    Outside,
    Quoted,
    Escaped,
}

/// A POSIX shell reader's state: the characters of the word read so far,
/// where it stands, and whether every character so far belonged to a
/// quoted or escaped part (an unquoted character could end the word or
/// mean something to the shell).
pub type ShellReadState = (Seq<char>, ShellReadMode, bool);

/// The shell reader after one more character: outside quotes `'` opens
/// single quotes and `\` escapes the next character; inside single quotes
/// every character is literal until the closing `'`.
pub open spec fn shell_read_step(st: ShellReadState, c: char) -> ShellReadState {
    match st.1 {
        ShellReadMode::Outside => if c == '\'' {
            (st.0, ShellReadMode::Quoted, st.2)
        } else if c == '\\' {
            (st.0, ShellReadMode::Escaped, st.2)
        } else {
            (st.0.push(c), ShellReadMode::Outside, false)
        },
        ShellReadMode::Quoted => if c == '\'' {
            (st.0, ShellReadMode::Outside, st.2)
        } else {
            (st.0.push(c), ShellReadMode::Quoted, st.2)
        },
        ShellReadMode::Escaped => (st.0.push(c), ShellReadMode::Outside, st.2),
    }
}

/// The shell reader after reading `s` from state `st`.
pub open spec fn shell_read_from(st: ShellReadState, s: Seq<char>) -> ShellReadState
    decreases s.len(),
{
    if s.len() == 0 {
        st
    } else {
        shell_read_step(shell_read_from(st, s.drop_last()), s.last())
    }
}

/// The single word a POSIX shell reads from `s` when `s` consists only of
/// single-quoted parts and backslash-escaped characters and ends outside
/// quotes; nothing otherwise.
pub open spec fn posix_word(s: Seq<char>) -> Option<Seq<char>> {
    let st = shell_read_from((Seq::empty(), ShellReadMode::Outside, true), s);
    if st.2 && st.1 is Outside {
        Some(st.0)
    } else {
        None
    }
}

proof fn lemma_shell_read_concat(st: ShellReadState, a: Seq<char>, b: Seq<char>)
    ensures
        shell_read_from(st, a + b) == shell_read_from(shell_read_from(st, a), b),
    decreases b.len(),
{
    if b.len() == 0 {
        assert(a + b =~= a);
    } else {
        lemma_shell_read_concat(st, a, b.drop_last());
        assert((a + b).drop_last() =~= a + b.drop_last());
        assert((a + b).last() == b.last());
    }
}

proof fn lemma_shell_read_push(st: ShellReadState, s: Seq<char>, c: char)
    ensures
        shell_read_from(st, s.push(c)) == shell_read_step(shell_read_from(st, s), c),
{
    assert(s.push(c).drop_last() =~= s);
    assert(s.push(c).last() == c);
}

proof fn lemma_shell_read_one(st: ShellReadState, c: char)
    ensures
        shell_read_from(st, seq![c]) == shell_read_step(st, c),
{
    lemma_shell_read_push(st, Seq::empty(), c);
    assert(Seq::<char>::empty().push(c) =~= seq![c]);
}

proof fn lemma_shell_read_quoted_body(v: Seq<char>)
    ensures
        shell_read_from((Seq::empty(), ShellReadMode::Quoted, true), quote_escaped(v)) == (v, ShellReadMode::Quoted, true),
    decreases v.len(),
{
    let init: ShellReadState = (Seq::empty(), ShellReadMode::Quoted, true);
    if v.len() == 0 {
        assert(v =~= Seq::<char>::empty());
    } else {
        let d = v.drop_last();
        let c = v.last();
        lemma_shell_read_quoted_body(d);
        let piece = if c == '\'' { seq!['\'', '\\', '\'', '\''] } else { seq![c] };
        assert(quote_escaped(v) == quote_escaped(d) + piece);
        lemma_shell_read_concat(init, quote_escaped(d), piece);
        let mid: ShellReadState = (d, ShellReadMode::Quoted, true);
        if c == '\'' {
            lemma_shell_read_one(mid, '\'');
            lemma_shell_read_push(mid, seq!['\''], '\\');
            assert(seq!['\''].push('\\') =~= seq!['\'', '\\']);
            lemma_shell_read_push(mid, seq!['\'', '\\'], '\'');
            assert(seq!['\'', '\\'].push('\'') =~= seq!['\'', '\\', '\'']);
            lemma_shell_read_push(mid, seq!['\'', '\\', '\''], '\'');
            assert(seq!['\'', '\\', '\''].push('\'') =~= piece);
            assert(shell_read_from(mid, seq!['\'']) == (d, ShellReadMode::Outside, true));
            assert(shell_read_from(mid, seq!['\'', '\\']) == (d, ShellReadMode::Escaped, true));
            assert(shell_read_from(mid, seq!['\'', '\\', '\'']) == (d.push('\''), ShellReadMode::Outside, true));
            assert(shell_read_from(mid, piece) == (d.push('\''), ShellReadMode::Quoted, true));
        } else {
            lemma_shell_read_one(mid, c);
            assert(shell_read_from(mid, piece) == (d.push(c), ShellReadMode::Quoted, true));
        }
        assert(d.push(c) =~= v);
    }
}

/// In shell mode a substituted value is read back by a POSIX shell as
/// exactly one word equal to the value, whatever it holds (single quotes
/// included), with no character left open to the shell's interpretation.
pub proof fn law_shell_value_reads_back(v: Seq<char>)
    ensures
        posix_word(emit(v, Quoting::Posix)) == Some(v),
        posix_word(shell_quoted(v)) == Some(v),
{
    let init: ShellReadState = (Seq::empty(), ShellReadMode::Outside, true);
    let q = seq!['\''];
    assert(shell_quoted(v) == (q + quote_escaped(v)) + q);
    lemma_shell_read_concat(init, q + quote_escaped(v), q);
    lemma_shell_read_concat(init, q, quote_escaped(v));
    lemma_shell_read_one(init, '\'');
    lemma_shell_read_one((v, ShellReadMode::Quoted, true), '\'');
    assert(shell_read_from(init, q) == (Seq::<char>::empty(), ShellReadMode::Quoted, true));
    lemma_shell_read_quoted_body(v);
    assert(shell_read_from((v, ShellReadMode::Quoted, true), q) == (v, ShellReadMode::Outside, true));
}

} // verus!
