//! Node execution providers.

use vstd::prelude::*;

verus! {

/// How a node is executed.
#[derive(Debug, Clone, PartialEq, Eq)]
pub enum ProviderDef {
    /// Execute as a subprocess (direct spawn, no shell).
    Subprocess {
        /// The command to execute.
        command: String,
    },
    /// Execute via a shell (`sh -c`).  Supports pipes, redirects, quoting.
    Shell {
        /// The command handed to the shell.
        command: String,
    },
    /// Execute via an HTTP call.
    Http {
        /// The URL to call; supports template interpolation.
        url: String,
        /// HTTP method; GET when omitted.
        method: Option<String>,
        /// Optional headers, as (name, value) pairs.
        headers: Option<Vec<(String, String)>>,
        /// Optional request body; supports template interpolation.
        body: Option<String>,
    },
    /// Execute an LLM CLI through the `llm_node.py` wrapper.
    Llm {
        /// Shell command template (`{{prompt}}` is filled by the wrapper).
        command: String,
        /// Prompt template.
        prompt: Option<String>,
        /// Expected route values.
        routes: Vec<String>,
        /// Maximum output tokens.
        max_tokens: Option<u64>,
    },
    /// Execute an LLM through the Python SDK wrapper `llm_sdk.py`.
    LlmSdk {
        /// Model identifier.
        model: String,
        /// Environment variable holding the API key.
        api_key_env: Option<String>,
        /// System prompt.
        system_prompt: Option<String>,
        /// Prompt template.
        prompt: Option<String>,
        /// Expected route values.
        routes: Vec<String>,
        /// Maximum output tokens.
        max_tokens: Option<u64>,
    },
}

/// An optional string seen through its view.
pub open spec fn opt_seq(o: Option<String>) -> Option<Seq<char>> {
    match o {
        Some(s) => Some(s@),
        None => None,
    }
}

/// A provider seen through the views of its fields: the variant number,
/// its optional string fields in declaration order, its route list, its
/// header list (and whether one was given), and its token limit.
pub open spec fn provider_repr(p: ProviderDef) -> (int, Seq<Option<Seq<char>>>, Seq<Seq<char>>, Option<Seq<(Seq<char>, Seq<char>)>>, Option<u64>) {
    match p {
        ProviderDef::Subprocess { command } => (0, seq![Some(command@)], Seq::empty(), None, None),
        ProviderDef::Shell { command } => (1, seq![Some(command@)], Seq::empty(), None, None),
        ProviderDef::Http { url, method, headers, body } => (
            2,
            seq![Some(url@), opt_seq(method), opt_seq(body)],
            Seq::empty(),
            match headers {
                Some(h) => Some(h@.map_values(|e: (String, String)| (e.0@, e.1@))),
                None => None,
            },
            None,
        ),
        ProviderDef::Llm { command, prompt, routes, max_tokens } => (
            3,
            seq![Some(command@), opt_seq(prompt)],
            routes@.map_values(|s: String| s@),
            None,
            max_tokens,
        ),
        ProviderDef::LlmSdk { model, api_key_env, system_prompt, prompt, routes, max_tokens } => (
            4,
            seq![Some(model@), opt_seq(api_key_env), opt_seq(system_prompt), opt_seq(prompt)],
            routes@.map_values(|s: String| s@),
            None,
            max_tokens,
        ),
    }
}

fn copy_opt(o: &Option<String>) -> (r: Option<String>)
    ensures
        r == *o,
{
    match o {
        Some(s) => Some(s.clone()),
        None => None,
    }
}

fn copy_strs(v: &Vec<String>) -> (r: Vec<String>)
    ensures
        r@ == v@,
{
    let mut r: Vec<String> = Vec::new();
    let mut i: usize = 0;
    while i < v.len()
        invariant
            i <= v@.len(),
            r@ == v@.take(i as int),
        decreases v@.len() - i,
    {
        r.push(v[i].clone());
        assert(r@ =~= v@.take(i + 1));
        i = i + 1;
    }
    assert(v@.take(v@.len() as int) == v@);
    r
}

fn copy_pairs(v: &Vec<(String, String)>) -> (r: Vec<(String, String)>)
    ensures
        r@ == v@,
{
    let mut r: Vec<(String, String)> = Vec::new();
    let mut i: usize = 0;
    while i < v.len()
        invariant
            i <= v@.len(),
            r@ == v@.take(i as int),
        decreases v@.len() - i,
    {
        r.push((v[i].0.clone(), v[i].1.clone()));
        assert(r@ =~= v@.take(i + 1));
        i = i + 1;
    }
    assert(v@.take(v@.len() as int) == v@);
    r
}

impl ProviderDef {
    /// A copy of this provider.
    pub fn copy(&self) -> (r: Self)
        ensures
            provider_repr(r) == provider_repr(*self),
    {
        match self {
            ProviderDef::Subprocess { command } => ProviderDef::Subprocess { command: command.clone() },
            ProviderDef::Shell { command } => ProviderDef::Shell { command: command.clone() },
            ProviderDef::Http { url, method, headers, body } => ProviderDef::Http {
                url: url.clone(),
                method: copy_opt(method),
                headers: match headers {
                    Some(h) => Some(copy_pairs(h)),
                    None => None,
                },
                body: copy_opt(body),
            },
            ProviderDef::Llm { command, prompt, routes, max_tokens } => ProviderDef::Llm {
                command: command.clone(),
                prompt: copy_opt(prompt),
                routes: copy_strs(routes),
                max_tokens: *max_tokens,
            },
            ProviderDef::LlmSdk { model, api_key_env, system_prompt, prompt, routes, max_tokens } => ProviderDef::LlmSdk {
                model: model.clone(),
                api_key_env: copy_opt(api_key_env),
                system_prompt: copy_opt(system_prompt),
                prompt: copy_opt(prompt),
                routes: copy_strs(routes),
                max_tokens: *max_tokens,
            },
        }
    }
}

} // verus!
