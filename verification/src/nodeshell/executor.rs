//! Choice of the executor for a node's provider, and of its scripts
//! directory.

use vstd::prelude::*;

use crate::model::provider::ProviderDef;
use crate::nodeshell::http::{uppercase_of, HttpExecutor};
use crate::nodeshell::types::entries_view;
use crate::nodeshell::llm::LlmExecutor;
use crate::nodeshell::llm_sdk::{opt_str, path_joined, LlmSdkExecutor};
use crate::nodeshell::subprocess::SubprocessExecutor;
use crate::text::{copy_strings, strs_view};

verus! {

/// The scripts directory of a node: its own, else the workflow's, else a
/// non-empty `NEXUS_SCRIPTS_DIR`, else one found next to the executable,
/// else `scripts`.
pub open spec fn scripts_dir_for(
    node_dir: Option<Seq<char>>,
    workflow_dir: Option<Seq<char>>,
    env_dir: Option<Seq<char>>,
    exe_relative: Option<Seq<char>>,
) -> Seq<char> {
    match node_dir {
        Some(d) => d,
        None => match workflow_dir {
            Some(d) => d,
            None => match env_dir {
                Some(d) if d.len() > 0 => d,
                _ => match exe_relative {
                    Some(d) => d,
                    None => "scripts"@,
                },
            },
        },
    }
}

/// The scripts directory of a node, from the node's and the workflow's
/// settings, the environment variable's value and the directory found next
/// to the executable.
pub fn choose_scripts_dir(
    node_dir: Option<&str>,
    workflow_dir: Option<&str>,
    env_dir: Option<String>,
    exe_relative: Option<String>,
) -> (r: String)
    ensures
        r@ == scripts_dir_for(
            match node_dir { Some(d) => Some(d@), None => None },
            match workflow_dir { Some(d) => Some(d@), None => None },
            opt_str(env_dir),
            opt_str(exe_relative),
        ),
{
    match node_dir {
        Some(d) => String::from_str(d),
        None => match workflow_dir {
            Some(d) => String::from_str(d),
            None => match env_dir {
                Some(d) if !d.as_str().is_empty() => d,
                _ => match exe_relative {
                    Some(d) => d,
                    None => String::from_str("scripts"),
                },
            },
        },
    }
}

/// The executor of a node, by provider.
#[derive(Debug)]
pub enum NodeExecutor {
    /// Spawns the command directly or through the shell.
    Subprocess(SubprocessExecutor),
    /// Runs an LLM CLI through its wrapper script.
    Llm(LlmExecutor),
    /// Calls an LLM through the SDK wrapper script.
    LlmSdk(LlmSdkExecutor),
    /// Makes an HTTP request.
    Http(HttpExecutor),
}

impl NodeExecutor {
    /// The executor for a provider: subprocess and shell commands, LLM CLI
    /// and SDK settings, and HTTP requests each go to their executor with
    /// the node's scripts directory.
    pub fn from_provider(provider: &ProviderDef, scripts_dir: &str) -> (r: Self)
        ensures
            match (*provider, r) {
                (ProviderDef::Subprocess { command }, NodeExecutor::Subprocess(e)) =>
                    e.command_view() == command@ && !e.is_shell() && e.scripts_dir_view() == scripts_dir@,
                (ProviderDef::Shell { command }, NodeExecutor::Subprocess(e)) =>
                    e.command_view() == command@ && e.is_shell() && e.scripts_dir_view() == scripts_dir@,
                (ProviderDef::Llm { command, prompt, routes, max_tokens }, NodeExecutor::Llm(e)) =>
                    e.command_view() == command@ && e.prompt_template_view() == opt_str(prompt)
                        && e.routes_view() == strs_view(routes@) && e.wrapper_view() == "scripts/llm_node.py"@,
                (ProviderDef::LlmSdk { model, api_key_env, system_prompt, prompt, routes, max_tokens }, NodeExecutor::LlmSdk(e)) =>
                    e.model_view() == model@ && e.api_key_env_view() == opt_str(api_key_env)
                        && e.system_prompt_view() == opt_str(system_prompt) && e.prompt_template_view() == opt_str(prompt)
                        && e.routes_view() == strs_view(routes@) && e.max_tokens_view() == max_tokens
                        && e.scripts_dir_view() == scripts_dir@
                        && e.wrapper_view() == path_joined(scripts_dir@, "llm_sdk.py"@),
                (ProviderDef::Http { url, method, headers, body }, NodeExecutor::Http(e)) =>
                    e.url_view() == url@ && e.scripts_dir_view() == scripts_dir@ && e.body_view() == opt_str(body)
                        && e.method_view() == match method {
                            Some(m) => uppercase_of(m@),
                            None => "GET"@,
                        }
                        && e.headers_view() == match headers {
                            Some(h) => entries_view(h@),
                            None => Seq::empty(),
                        },
                _ => false,
            },
    {
        match provider {
            ProviderDef::Subprocess { command } => NodeExecutor::Subprocess(
                SubprocessExecutor::new(command.clone(), String::from_str(scripts_dir)),
            ),
            ProviderDef::Shell { command } => NodeExecutor::Subprocess(
                SubprocessExecutor::new_shell(command.clone(), String::from_str(scripts_dir)),
            ),
            ProviderDef::Llm { command, prompt, routes, max_tokens } => {
                let p = match prompt {
                    Some(t) => Some(t.clone()),
                    None => None,
                };
                let rs = copy_strings(routes);
                assert(strs_view(rs@) =~= strs_view(routes@));
                NodeExecutor::Llm(LlmExecutor::new(command.as_str(), p, rs, *max_tokens))
            },
            ProviderDef::LlmSdk { model, api_key_env, system_prompt, prompt, routes, max_tokens } => {
                let k = match api_key_env {
                    Some(t) => Some(t.clone()),
                    None => None,
                };
                let s = match system_prompt {
                    Some(t) => Some(t.clone()),
                    None => None,
                };
                let p = match prompt {
                    Some(t) => Some(t.clone()),
                    None => None,
                };
                let rs = copy_strings(routes);
                assert(strs_view(rs@) =~= strs_view(routes@));
                NodeExecutor::LlmSdk(
                    LlmSdkExecutor::new(model.as_str(), k, s, p, rs, *max_tokens, String::from_str(scripts_dir)),
                )
            },
            ProviderDef::Http { .. } => NodeExecutor::Http(HttpExecutor::from_provider(provider, scripts_dir)),
        }
    }
}

} // verus!
