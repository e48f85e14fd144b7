//! The LLM CLI executor.  The node's prompt is rendered here and handed,
//! inside the node context, to the `llm_node.py` wrapper, which runs the
//! CLI and prints the node output on stdout.

use vstd::prelude::*;

use crate::nodeshell::template::{
    close_mark, node_dir_key, open_mark, placeholder_text, placeholder_value, render_at, Quoting, TemplateEngine,
};
use crate::nodeshell::types::{
    copy_output_entries, copy_string_entries, entries_view, kv_insert, kv_put, reason_for, NodeContext,
    NodeMetadata, NodeOutcome, NodeOutput,
};
use crate::text::{
    chars_eq, chars_range, contains_seq, find_from, find_from_exec, lemma_find_from, matches_at, push_range,
    push_str_chars, strs_view, to_chars,
};

verus! {

/// What `{{key}}` renders to in a prompt: like the template engine without
/// shell quoting, except that `{{node_dir}}` is left as written.
pub open spec fn prompt_value(key: Seq<char>, meta: NodeMetadata, upstream: Seq<(Seq<char>, (Seq<char>, Seq<char>))>) -> Seq<char> {
    if key == node_dir_key() {
        placeholder_text(key)
    } else {
        placeholder_value(key, meta, upstream, Seq::empty(), Quoting::Verbatim)
    }
}

/// The rendering of a prompt template from `pos` on, with the template
/// engine's grammar: an unclosed `{{` ends rendering and the rest is copied
/// unchanged; a closed placeholder is replaced by its value.
pub open spec fn prompt_at(t: Seq<char>, pos: int, meta: NodeMetadata, upstream: Seq<(Seq<char>, (Seq<char>, Seq<char>))>) -> Seq<char>
    decreases t.len() - pos,
{
    if pos < 0 || pos > t.len() {
        Seq::empty()
    } else {
        match find_from(t, pos, open_mark()) {
            None => t.subrange(pos, t.len() as int),
            Some(start) => match find_from(t, start + 2, close_mark()) {
                None => t.subrange(pos, t.len() as int),
                Some(end) => {
                    proof {
                        lemma_find_from(t, pos, open_mark());
                        lemma_find_from(t, start + 2, close_mark());
                    }
                    t.subrange(pos, start) + prompt_value(t.subrange(start + 2, end), meta, upstream)
                        + prompt_at(t, end + 2, meta, upstream)
                },
            },
        }
    }
}

/// One `[alias]: content` line.
pub open spec fn input_line(p: (Seq<char>, Seq<char>)) -> Seq<char> {
    "["@ + p.0 + "]: "@ + p.1
}

/// The input lines joined by newlines.
pub open spec fn inputs_joined(inputs: Seq<(Seq<char>, Seq<char>)>) -> Seq<char>
    decreases inputs.len(),
{
    if inputs.len() == 0 {
        Seq::empty()
    } else if inputs.len() == 1 {
        input_line(inputs[0])
    } else {
        inputs_joined(inputs.drop_last()) + "\n"@ + input_line(inputs.last())
    }
}

/// The strings joined by commas.
pub open spec fn comma_joined(items: Seq<Seq<char>>) -> Seq<char>
    decreases items.len(),
{
    if items.len() == 0 {
        Seq::empty()
    } else if items.len() == 1 {
        items[0]
    } else {
        comma_joined(items.drop_last()) + ","@ + items.last()
    }
}

/// The prompt when no template is configured: the inputs as
/// `[alias]: content` lines, or nothing.
pub open spec fn default_prompt(inputs: Seq<(Seq<char>, Seq<char>)>) -> Seq<char> {
    if inputs.len() > 0 {
        inputs_joined(inputs)
    } else {
        Seq::empty()
    }
}

/// The extensions after adding the prompt and, when routes are expected,
/// the comma-joined route list.
pub open spec fn with_prompt_and_routes(
    ext: Seq<(Seq<char>, Seq<char>)>,
    prompt: Seq<char>,
    routes: Seq<Seq<char>>,
) -> Seq<(Seq<char>, Seq<char>)> {
    let e = kv_put(ext, "prompt"@, prompt);
    if routes.len() > 0 {
        kv_put(e, "route"@, comma_joined(routes))
    } else {
        e
    }
}

/// The outcome of a wrapper script run: a timed-out run routes to
/// `timeout` with its partial stdout; otherwise stdout parsed as a node
/// output, or taken whole as content with an empty route.
pub open spec fn wrapper_result(exit_code: i32, timed_out: bool, stdout: Seq<char>, parsed: Option<(Seq<char>, Seq<char>)>) -> ((Seq<char>, Seq<char>), i32, Option<Seq<char>>) {
    if timed_out {
        (("timeout"@, stdout), exit_code, Some("timeout"@))
    } else {
        let out = match parsed {
            Some(o) => o,
            None => (Seq::empty(), stdout),
        };
        (out, exit_code, reason_for(out.0))
    }
}

/// The input lines of a context, joined by newlines.
pub fn join_inputs(inputs: &Vec<(String, String)>) -> (r: String)
    ensures
        r@ == inputs_joined(entries_view(inputs@)),
{
    let ghost e = entries_view(inputs@);
    let mut r = String::new();
    let mut i: usize = 0;
    while i < inputs.len()
        invariant
            i <= inputs@.len(),
            e == entries_view(inputs@),
            r@ == inputs_joined(e.take(i as int)),
        decreases inputs@.len() - i,
    {
        let ghost before = r@;
        if i > 0 {
            push_str_chars(&mut r, "\n");
        }
        push_str_chars(&mut r, "[");
        push_str_chars(&mut r, inputs[i].0.as_str());
        push_str_chars(&mut r, "]: ");
        push_str_chars(&mut r, inputs[i].1.as_str());
        proof {
            assert(e.take(i + 1).drop_last() == e.take(i as int));
            assert(e.take(i + 1).last() == e[i as int]);
            assert(e[i as int] == (inputs@[i as int].0@, inputs@[i as int].1@));
            if i == 0 {
                assert(e.take(1)[0] == e[0]);
                assert(r@ =~= input_line(e[0]));
            } else {
                assert(r@ =~= before + "\n"@ + input_line(e[i as int]));
            }
        }
        i = i + 1;
    }
    assert(e.take(e.len() as int) == e);
    r
}

/// The strings joined by commas, as `[String]::join(",")` writes them.
pub fn join_commas(items: &Vec<String>) -> (r: String)
    ensures
        r@ == comma_joined(strs_view(items@)),
{
    let ghost e = strs_view(items@);
    let mut r = String::new();
    let mut i: usize = 0;
    while i < items.len()
        invariant
            i <= items@.len(),
            e == strs_view(items@),
            r@ == comma_joined(e.take(i as int)),
        decreases items@.len() - i,
    {
        let ghost before = r@;
        if i > 0 {
            push_str_chars(&mut r, ",");
        }
        push_str_chars(&mut r, items[i].as_str());
        proof {
            assert(e.take(i + 1).drop_last() == e.take(i as int));
            assert(e.take(i + 1).last() == e[i as int]);
            if i == 0 {
                assert(e.take(1)[0] == e[0]);
                assert(r@ =~= e[0]);
            } else {
                assert(r@ =~= before + ","@ + e[i as int]);
            }
        }
        i = i + 1;
    }
    assert(e.take(e.len() as int) == e);
    r
}

/// The outcome of a wrapper script run from its exit code, whether it timed
/// out, its stdout, and stdout parsed as a node output (when it parsed).
pub fn wrapper_outcome(exit_code: i32, timed_out: bool, stdout: String, parsed: Option<NodeOutput>) -> (r: NodeOutcome)
    ensures
        r@ == wrapper_result(exit_code, timed_out, stdout@, match parsed {
            Some(o) => Some(o@),
            None => None,
        }),
{
    if timed_out {
        let out = NodeOutput { route: String::from_str("timeout"), content: stdout };
        return NodeOutcome { output: out, exit_code, exit_reason: Some(String::from_str("timeout")) };
    }
    let output = match parsed {
        Some(o) => o,
        None => NodeOutput { route: String::new(), content: stdout },
    };
    NodeOutcome::routed(output, exit_code)
}

/// Executes an LLM CLI through the `llm_node.py` wrapper script.
#[derive(Debug)]
pub struct LlmExecutor {
    command_template: String,
    prompt_template: Option<String>,
    routes: Vec<String>,
    wrapper_path: String,
}

impl LlmExecutor {
    /// The command template, passed to the wrapper with `{{prompt}}` left in.
    pub closed spec fn command_view(&self) -> Seq<char> {
        self.command_template@
    }

    /// The prompt template.
    pub closed spec fn prompt_template_view(&self) -> Option<Seq<char>> {
        match self.prompt_template {
            Some(t) => Some(t@),
            None => None,
        }
    }

    /// The expected route values.
    pub closed spec fn routes_view(&self) -> Seq<Seq<char>> {
        strs_view(self.routes@)
    }

    /// The path of the wrapper script.
    pub closed spec fn wrapper_view(&self) -> Seq<char> {
        self.wrapper_path@
    }

    /// The wrapper path: a non-empty explicit override, else the script found
    /// next to the executable, else `scripts/llm_node.py`.
    pub fn choose_wrapper_path(env_override: Option<String>, exe_relative: Option<String>) -> (r: String)
        ensures
            r@ == match env_override {
                Some(p) if p@.len() > 0 => p@,
                _ => match exe_relative {
                    Some(p) => p@,
                    None => "scripts/llm_node.py"@,
                },
            },
    {
        match env_override {
            Some(p) if !p.as_str().is_empty() => p,
            _ => match exe_relative {
                Some(p) => p,
                None => String::from_str("scripts/llm_node.py"),
            },
        }
    }

    /// A new executor; the wrapper is `scripts/llm_node.py` until
    /// [`Self::set_wrapper_path`] names the resolved one.
    pub fn new(command_template: &str, prompt_template: Option<String>, routes: Vec<String>, max_tokens: Option<u64>) -> (r: Self)
        ensures
            r.command_view() == command_template@,
            r.prompt_template_view() == match prompt_template {
                Some(t) => Some(t@),
                None => None::<Seq<char>>,
            },
            r.routes_view() == strs_view(routes@),
            r.wrapper_view() == "scripts/llm_node.py"@,
    {
        LlmExecutor {
            command_template: String::from_str(command_template),
            prompt_template,
            routes,
            wrapper_path: String::from_str("scripts/llm_node.py"),
        }
    }

    /// Name the resolved wrapper script.
    pub fn set_wrapper_path(&mut self, path: String)
        ensures
            final(self).wrapper_view() == path@,
            final(self).command_view() == old(self).command_view(),
            final(self).prompt_template_view() == old(self).prompt_template_view(),
            final(self).routes_view() == old(self).routes_view(),
    {
        self.wrapper_path = path;
    }

    /// The command template.
    pub fn command_template(&self) -> (r: &str)
        ensures
            r@ == self.command_view(),
    {
        self.command_template.as_str()
    }

    /// The expected route values.
    pub fn routes(&self) -> (r: &Vec<String>)
        ensures
            strs_view(r@) == self.routes_view(),
    {
        &self.routes
    }

    /// Render `{{metadata.*}}` and `{{datarouter.<alias>.<field>}}`
    /// placeholders in a prompt template, values verbatim.
    pub fn render_inputs(template: &str, metadata: &NodeMetadata, upstream: &Vec<(String, NodeOutput)>) -> (r: String)
        ensures
            r@ == prompt_at(template@, 0, *metadata, entries_view(upstream@)),
    {
        let t = to_chars(template);
        let ghost up = entries_view(upstream@);
        let open_v: Vec<char> = vec!['{', '{'];
        let close_v: Vec<char> = vec!['}', '}'];
        let node_dir_v: Vec<char> = vec!['n', 'o', 'd', 'e', '_', 'd', 'i', 'r'];
        assert(open_v@ == open_mark());
        assert(close_v@ == close_mark());
        assert(node_dir_v@ == node_dir_key());
        let mut result = String::new();
        let mut pos: usize = 0;
        while pos <= t.len()
            invariant_except_break
                pos <= t@.len(),
                result@ + prompt_at(t@, pos as int, *metadata, up) == prompt_at(t@, 0, *metadata, up),
            invariant
                t@ == template@,
                up == entries_view(upstream@),
                open_v@ == open_mark(),
                close_v@ == close_mark(),
                node_dir_v@ == node_dir_key(),
            ensures
                result@ == prompt_at(t@, 0, *metadata, up),
            decreases t@.len() + 1 - pos,
        {
            proof {
                lemma_find_from(t@, pos as int, open_mark());
            }
            match find_from_exec(&t, pos, &open_v) {
                None => {
                    push_range(&mut result, &t, pos, t.len());
                    break;
                },
                Some(start) => {
                    proof {
                        lemma_find_from(t@, start + 2, close_mark());
                    }
                    match find_from_exec(&t, start + 2, &close_v) {
                        None => {
                            push_range(&mut result, &t, pos, t.len());
                            break;
                        },
                        Some(end) => {
                            let ghost before = result@;
                            push_range(&mut result, &t, pos, start);
                            let key = chars_range(&t, start + 2, end);
                            let value = if chars_eq(&key, &node_dir_v) {
                                TemplateEngine::placeholder_text(&key)
                            } else {
                                proof {
                                    reveal_strlit("");
                                }
                                TemplateEngine::placeholder_value(&key, metadata, upstream, "", Quoting::Verbatim)
                            };
                            push_str_chars(&mut result, value.as_str());
                            proof {
                                assert(result@ == before + t@.subrange(pos as int, start as int)
                                    + prompt_value(key@, *metadata, up));
                            }
                            pos = end + 2;
                        },
                    }
                },
            }
        }
        result
    }

    /// The prompt this executor sends for a context: the rendered prompt
    /// template, or the inputs as `[alias]: content` lines, or nothing.
    pub fn prompt_for(&self, ctx: &NodeContext) -> (r: String)
        ensures
            r@ == match self.prompt_template_view() {
                Some(t) => prompt_at(t, 0, ctx.metadata, entries_view(ctx.upstream@)),
                None => default_prompt(entries_view(ctx.inputs@)),
            },
    {
        match &self.prompt_template {
            Some(t) => Self::render_inputs(t.as_str(), &ctx.metadata, &ctx.upstream),
            None => {
                if ctx.inputs.len() > 0 {
                    join_inputs(&ctx.inputs)
                } else {
                    String::new()
                }
            },
        }
    }

    /// The context handed to the wrapper: the given context with the prompt
    /// and, when routes are expected, the comma-joined route list added to
    /// its extensions.
    pub fn build_context(&self, ctx: &NodeContext) -> (r: NodeContext)
        ensures
            r.inputs@ == ctx.inputs@,
            r.upstream@ == ctx.upstream@,
            r.metadata == ctx.metadata,
            entries_view(r.extensions@) == with_prompt_and_routes(
                entries_view(ctx.extensions@),
                match self.prompt_template_view() {
                    Some(t) => prompt_at(t, 0, ctx.metadata, entries_view(ctx.upstream@)),
                    None => default_prompt(entries_view(ctx.inputs@)),
                },
                self.routes_view(),
            ),
    {
        let mut extensions = copy_string_entries(&ctx.extensions);
        let prompt = self.prompt_for(ctx);
        kv_insert(&mut extensions, String::from_str("prompt"), prompt);
        if self.routes.len() > 0 {
            let joined = join_commas(&self.routes);
            kv_insert(&mut extensions, String::from_str("route"), joined);
        }
        NodeContext {
            inputs: copy_string_entries(&ctx.inputs),
            extensions,
            metadata: ctx.metadata,
            upstream: copy_output_entries(&ctx.upstream),
        }
    }

    /// The wrapper's arguments: the script, `--cmd` and the command template.
    pub fn launch_args(&self) -> (r: Vec<String>)
        ensures
            strs_view(r@) == seq![self.wrapper_view(), "--cmd"@, self.command_view()],
    {
        let mut r: Vec<String> = Vec::new();
        r.push(self.wrapper_path.clone());
        r.push(String::from_str("--cmd"));
        r.push(self.command_template.clone());
        assert(strs_view(r@) =~= seq![self.wrapper_view(), "--cmd"@, self.command_view()]);
        r
    }
}

/// One placeholder grammar for prompts and templates: a prompt template
/// without `{{node_dir}}` renders exactly as the template engine renders it
/// with values verbatim, whatever the scripts directory.
pub proof fn law_prompt_renders_as_template(
    t: Seq<char>,
    meta: NodeMetadata,
    upstream: Seq<(Seq<char>, (Seq<char>, Seq<char>))>,
    dir: Seq<char>,
)
    requires
        !contains_seq(t, placeholder_text(node_dir_key())),
    ensures
        prompt_at(t, 0, meta, upstream) == render_at(t, 0, meta, upstream, dir, Quoting::Verbatim),
{
    lemma_find_from(t, 0, placeholder_text(node_dir_key()));
    lemma_prompt_as_template(t, 0, meta, upstream, dir);
}

proof fn lemma_prompt_as_template(
    t: Seq<char>,
    pos: int,
    meta: NodeMetadata,
    upstream: Seq<(Seq<char>, (Seq<char>, Seq<char>))>,
    dir: Seq<char>,
)
    requires
        forall|j: int| 0 <= j ==> !matches_at(t, j, placeholder_text(node_dir_key())),
    ensures
        prompt_at(t, pos, meta, upstream) == render_at(t, pos, meta, upstream, dir, Quoting::Verbatim),
    decreases t.len() - pos,
{
    if 0 <= pos <= t.len() {
        lemma_find_from(t, pos, open_mark());
        match find_from(t, pos, open_mark()) {
            None => {},
            Some(start) => {
                lemma_find_from(t, start + 2, close_mark());
                match find_from(t, start + 2, close_mark()) {
                    None => {},
                    Some(end) => {
                        let key = t.subrange(start + 2, end);
                        if key == node_dir_key() {
                            assert(t.subrange(start, start + 12) =~= placeholder_text(node_dir_key()));
                            assert(matches_at(t, start, placeholder_text(node_dir_key())));
                        }
                        lemma_prompt_as_template(t, end + 2, meta, upstream, dir);
                    },
                }
            },
        }
    }
}

} // verus!
