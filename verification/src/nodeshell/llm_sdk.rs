//! The Python SDK executor.  The node's SDK settings and rendered prompt
//! travel in the context's extensions to the `llm_sdk.py` wrapper, which
//! calls the API and prints the node output on stdout.

use vstd::prelude::*;

use crate::nodeshell::llm::{comma_joined, default_prompt, join_commas, join_inputs};
use crate::nodeshell::template::{rendered, TemplateEngine};
use crate::nodeshell::types::{
    copy_output_entries, copy_string_entries, entries_view, kv_insert, kv_put, NodeContext,
};
use crate::text::{decimal, decimal_string, push_str_chars, strs_view};

verus! {

/// `dir` joined with a relative file name, as `Path::join` does on Unix.
pub open spec fn path_joined(dir: Seq<char>, name: Seq<char>) -> Seq<char> {
    if dir.len() == 0 {
        name
    } else if dir.last() == '/' {
        dir + name
    } else {
        dir + seq!['/'] + name
    }
}

/// An optional string seen through its view.
pub open spec fn opt_str(o: Option<String>) -> Option<Seq<char>> {
    match o {
        Some(s) => Some(s@),
        None => None,
    }
}

/// The SDK settings added to the extensions: the model, then the API key
/// variable, system prompt and token limit when they are set.
pub open spec fn with_sdk_settings(
    ext: Seq<(Seq<char>, Seq<char>)>,
    model: Seq<char>,
    api_key_env: Option<Seq<char>>,
    system_prompt: Option<Seq<char>>,
    max_tokens: Option<u64>,
) -> Seq<(Seq<char>, Seq<char>)> {
    let e1 = kv_put(ext, "_sdk_model"@, model);
    let e2 = match api_key_env {
        Some(k) => kv_put(e1, "_sdk_api_key_env"@, k),
        None => e1,
    };
    let e3 = match system_prompt {
        Some(s) => kv_put(e2, "_sdk_system_prompt"@, s),
        None => e2,
    };
    match max_tokens {
        Some(n) => kv_put(e3, "_sdk_max_tokens"@, decimal(n as nat)),
        None => e3,
    }
}

/// Executes an LLM node through the Python SDK wrapper `llm_sdk.py`.
#[derive(Debug)]
pub struct LlmSdkExecutor {
    model: String,
    api_key_env: Option<String>,
    system_prompt: Option<String>,
    prompt_template: Option<String>,
    routes: Vec<String>,
    max_tokens: Option<u64>,
    wrapper_path: String,
    scripts_dir: String,
}

impl LlmSdkExecutor {
    /// The model identifier.
    pub closed spec fn model_view(&self) -> Seq<char> {
        self.model@
    }

    /// The environment variable holding the API key.
    pub closed spec fn api_key_env_view(&self) -> Option<Seq<char>> {
        opt_str(self.api_key_env)
    }

    /// The system prompt.
    pub closed spec fn system_prompt_view(&self) -> Option<Seq<char>> {
        opt_str(self.system_prompt)
    }

    /// The prompt template.
    pub closed spec fn prompt_template_view(&self) -> Option<Seq<char>> {
        opt_str(self.prompt_template)
    }

    /// The expected route values.
    pub closed spec fn routes_view(&self) -> Seq<Seq<char>> {
        strs_view(self.routes@)
    }

    /// The output token limit.
    pub closed spec fn max_tokens_view(&self) -> Option<u64> {
        self.max_tokens
    }

    /// The path of the wrapper script.
    pub closed spec fn wrapper_view(&self) -> Seq<char> {
        self.wrapper_path@
    }

    /// The scripts directory.
    pub closed spec fn scripts_dir_view(&self) -> Seq<char> {
        self.scripts_dir@
    }

    /// A new executor whose wrapper is `llm_sdk.py` in the scripts directory.
    pub fn new(
        model: &str,
        api_key_env: Option<String>,
        system_prompt: Option<String>,
        prompt_template: Option<String>,
        routes: Vec<String>,
        max_tokens: Option<u64>,
        scripts_dir: String,
    ) -> (r: Self)
        ensures
            r.model_view() == model@,
            r.api_key_env_view() == opt_str(api_key_env),
            r.system_prompt_view() == opt_str(system_prompt),
            r.prompt_template_view() == opt_str(prompt_template),
            r.routes_view() == strs_view(routes@),
            r.max_tokens_view() == max_tokens,
            r.scripts_dir_view() == scripts_dir@,
            r.wrapper_view() == path_joined(scripts_dir@, "llm_sdk.py"@),
    {
        let mut wrapper_path = String::new();
        push_str_chars(&mut wrapper_path, scripts_dir.as_str());
        let dir_chars = crate::text::to_chars(scripts_dir.as_str());
        if dir_chars.len() > 0 && dir_chars[dir_chars.len() - 1] != '/' {
            push_str_chars(&mut wrapper_path, "/");
        }
        push_str_chars(&mut wrapper_path, "llm_sdk.py");
        proof {
            reveal_strlit("/");
            assert(Seq::<char>::empty() + scripts_dir@ == scripts_dir@);
        }
        LlmSdkExecutor {
            model: String::from_str(model),
            api_key_env,
            system_prompt,
            prompt_template,
            routes,
            max_tokens,
            wrapper_path,
            scripts_dir,
        }
    }

    /// Use a non-empty explicit wrapper path instead of the default one.
    pub fn with_wrapper_override(self, env_override: Option<String>) -> (r: Self)
        ensures
            r.wrapper_view() == match env_override {
                Some(p) if p@.len() > 0 => p@,
                _ => self.wrapper_view(),
            },
            r.model_view() == self.model_view(),
            r.api_key_env_view() == self.api_key_env_view(),
            r.system_prompt_view() == self.system_prompt_view(),
            r.prompt_template_view() == self.prompt_template_view(),
            r.routes_view() == self.routes_view(),
            r.max_tokens_view() == self.max_tokens_view(),
            r.scripts_dir_view() == self.scripts_dir_view(),
    {
        let mut r = self;
        match env_override {
            Some(p) => {
                if !p.as_str().is_empty() {
                    r.wrapper_path = p;
                }
            },
            None => {},
        }
        r
    }

    /// The model identifier.
    pub fn model(&self) -> (r: &str)
        ensures
            r@ == self.model_view(),
    {
        self.model.as_str()
    }

    /// The system prompt.
    pub fn system_prompt(&self) -> (r: &Option<String>)
        ensures
            opt_str(*r) == self.system_prompt_view(),
    {
        &self.system_prompt
    }

    /// The expected route values.
    pub fn routes(&self) -> (r: &Vec<String>)
        ensures
            strs_view(r@) == self.routes_view(),
    {
        &self.routes
    }

    /// The output token limit.
    pub fn max_tokens(&self) -> (r: Option<u64>)
        ensures
            r == self.max_tokens_view(),
    {
        self.max_tokens
    }

    /// The wrapper script path.
    pub fn wrapper_path(&self) -> (r: &str)
        ensures
            r@ == self.wrapper_view(),
    {
        self.wrapper_path.as_str()
    }

    /// The context handed to the wrapper: the given context with the SDK
    /// settings, the prompt (the template rendered by the template engine,
    /// or the inputs as lines, or nothing) and, when routes are expected,
    /// the comma-joined route list added to its extensions.
    pub fn build_context(&self, ctx: &NodeContext) -> (r: NodeContext)
        ensures
            r.inputs@ == ctx.inputs@,
            r.upstream@ == ctx.upstream@,
            r.metadata == ctx.metadata,
            entries_view(r.extensions@) == {
                let e = with_sdk_settings(
                    entries_view(ctx.extensions@),
                    self.model_view(),
                    self.api_key_env_view(),
                    self.system_prompt_view(),
                    self.max_tokens_view(),
                );
                let prompt = match self.prompt_template_view() {
                    Some(t) => rendered(t, ctx.metadata, entries_view(ctx.upstream@), self.scripts_dir_view(), false),
                    None => default_prompt(entries_view(ctx.inputs@)),
                };
                let e2 = kv_put(e, "prompt"@, prompt);
                if self.routes_view().len() > 0 {
                    kv_put(e2, "route"@, comma_joined(self.routes_view()))
                } else {
                    e2
                }
            },
    {
        let mut extensions = copy_string_entries(&ctx.extensions);
        kv_insert(&mut extensions, String::from_str("_sdk_model"), self.model.clone());
        match &self.api_key_env {
            Some(env) => kv_insert(&mut extensions, String::from_str("_sdk_api_key_env"), env.clone()),
            None => {},
        }
        match &self.system_prompt {
            Some(sys) => kv_insert(&mut extensions, String::from_str("_sdk_system_prompt"), sys.clone()),
            None => {},
        }
        match self.max_tokens {
            Some(mt) => kv_insert(&mut extensions, String::from_str("_sdk_max_tokens"), decimal_string(mt)),
            None => {},
        }
        let prompt = match &self.prompt_template {
            Some(t) => TemplateEngine::render(t.as_str(), &ctx.metadata, &ctx.upstream, self.scripts_dir.as_str()),
            None => {
                if ctx.inputs.len() > 0 {
                    join_inputs(&ctx.inputs)
                } else {
                    String::new()
                }
            },
        };
        kv_insert(&mut extensions, String::from_str("prompt"), prompt);
        if self.routes.len() > 0 {
            let joined = join_commas(&self.routes);
            kv_insert(&mut extensions, String::from_str("route"), joined);
        }
        NodeContext {
            inputs: copy_string_entries(&ctx.inputs),
            extensions,
            metadata: ctx.metadata,
            upstream: copy_output_entries(&ctx.upstream),
        }
    }
}

} // verus!
