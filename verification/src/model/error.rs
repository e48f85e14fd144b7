//! Validation errors and warnings, with their human-readable messages.

use vstd::prelude::*;

use crate::text::push_str_chars;

verus! {

/// Errors found while validating a workflow before it runs.
#[derive(Debug, Clone, PartialEq, Eq)]
pub enum ValidationError {
    /// No entry node: every node has an incoming scheduling edge.
    NoEntryNode,
    /// A node is not reachable from any entry node.
    UnreachableNode { node_id: String },
    /// No exit node (node without outgoing edges) is reachable from a node.
    ExitNotReachable { node_id: String },
    /// A cycle none of whose nodes is reachable from an entry (deadlock).
    CycleWithoutEntry,
    /// The workflow has no nodes.
    EmptyGraph,
    /// A node has an empty provider list.
    NoValidProvider { node_id: String },
    /// Two nodes share an ID.
    DuplicateNodeId { node_id: String },
    /// A predecessor references a node that does not exist.
    InvalidPredecessor { node_id: String, predecessor_id: String },
    /// A data flow references a node that does not exist.
    InputSourceNotFound { node_id: String, source_id: String },
    /// A data flow's source is not reachable from any entry node.
    InputSourceUnreachable { node_id: String, source_id: String },
    /// `{{datarouter.X.*}}` is used without a data flow from X to the node.
    DatarouterRefWithoutDataflow { node_id: String, source_id: String },
    /// `{{metadata.F}}` with an unknown field F.
    UnknownMetadataField { node_id: String, field: String },
    /// `{{datarouter.S.F}}` with an unknown field F.
    UnknownDatarouterField { node_id: String, source_id: String, field: String },
    /// A `{{prefix.key}}` placeholder with an unknown prefix.
    UnrecognizedTemplate { node_id: String, template: String },
    /// A graph invariant failed while building the graph.
    BuildInvariant { description: String },
    /// A node's `process_timeout_secs` is 0.
    ZeroTimeout { node_id: String },
    /// An `llm` node's scripts directory holds no `llm_node.py`.
    LlmNodeMissingWrapper { node_id: String, scripts_dir: String },
    /// An `llm` node passes `-p "{{prompt}}"` on its command line.
    LlmPromptInCommandLine { node_id: String },
    /// An `llm` node uses `--output-format json` instead of `stream-json`.
    LlmNoStreamingOutput { node_id: String },
    /// A scripts directory with redundant path segments.
    SuspiciousScriptsDir { node_id: String, scripts_dir: String },
}

/// Warnings found while validating a workflow; they do not block a run.
#[derive(Debug, Clone, PartialEq, Eq)]
pub enum ValidationWarning {
    /// An `llm` node uses `-p "{{prompt}}"` with a multi-line prompt.
    LlmPromptInCommandLine { node_id: String },
    /// An `llm` node uses `--output-format json` without `stream-json`.
    LlmNoStreamingOutput { node_id: String },
    /// A scripts directory resolves to a path with a repeated segment.
    SuspiciousScriptsDir { node_id: String, scripts_dir: String, resolved: String },
}

/// A validation error as its variant number and its string fields, in
/// declaration order.
pub open spec fn error_view(e: ValidationError) -> (int, Seq<Seq<char>>) {
    match e {
        ValidationError::NoEntryNode => (0, seq![]),
        ValidationError::UnreachableNode { node_id } => (1, seq![node_id@]),
        ValidationError::ExitNotReachable { node_id } => (2, seq![node_id@]),
        ValidationError::CycleWithoutEntry => (3, seq![]),
        ValidationError::EmptyGraph => (4, seq![]),
        ValidationError::NoValidProvider { node_id } => (5, seq![node_id@]),
        ValidationError::DuplicateNodeId { node_id } => (6, seq![node_id@]),
        ValidationError::InvalidPredecessor { node_id, predecessor_id } => (7, seq![node_id@, predecessor_id@]),
        ValidationError::InputSourceNotFound { node_id, source_id } => (8, seq![node_id@, source_id@]),
        ValidationError::InputSourceUnreachable { node_id, source_id } => (9, seq![node_id@, source_id@]),
        ValidationError::DatarouterRefWithoutDataflow { node_id, source_id } => (10, seq![node_id@, source_id@]),
        ValidationError::UnknownMetadataField { node_id, field } => (11, seq![node_id@, field@]),
        ValidationError::UnknownDatarouterField { node_id, source_id, field } => (12, seq![node_id@, source_id@, field@]),
        ValidationError::UnrecognizedTemplate { node_id, template } => (13, seq![node_id@, template@]),
        ValidationError::BuildInvariant { description } => (14, seq![description@]),
        ValidationError::ZeroTimeout { node_id } => (15, seq![node_id@]),
        ValidationError::LlmNodeMissingWrapper { node_id, scripts_dir } => (16, seq![node_id@, scripts_dir@]),
        ValidationError::LlmPromptInCommandLine { node_id } => (17, seq![node_id@]),
        ValidationError::LlmNoStreamingOutput { node_id } => (18, seq![node_id@]),
        ValidationError::SuspiciousScriptsDir { node_id, scripts_dir } => (19, seq![node_id@, scripts_dir@]),
    }
}

/// A list of validation errors seen through `error_view`.
pub open spec fn errors_view(s: Seq<ValidationError>) -> Seq<(int, Seq<Seq<char>>)> {
    s.map_values(|e: ValidationError| error_view(e))
}

/// A validation warning as its variant number and its string fields.
pub open spec fn warning_view(w: ValidationWarning) -> (int, Seq<Seq<char>>) {
    match w {
        ValidationWarning::LlmPromptInCommandLine { node_id } => (0, seq![node_id@]),
        ValidationWarning::LlmNoStreamingOutput { node_id } => (1, seq![node_id@]),
        ValidationWarning::SuspiciousScriptsDir { node_id, scripts_dir, resolved } => (2, seq![node_id@, scripts_dir@, resolved@]),
    }
}

/// A list of validation warnings seen through `warning_view`.
pub open spec fn warnings_view(s: Seq<ValidationWarning>) -> Seq<(int, Seq<Seq<char>>)> {
    s.map_values(|w: ValidationWarning| warning_view(w))
}

/// The message of a validation error.
pub open spec fn error_text(e: ValidationError) -> Seq<char> {
    match e {
        ValidationError::NoEntryNode => "no entry node: all nodes have predecessors"@,
        ValidationError::UnreachableNode { node_id } =>
            "unreachable node '"@ + node_id@ + "': not reachable from any entry node"@,
        ValidationError::ExitNotReachable { node_id } =>
            "exit not reachable from node '"@ + node_id@ + "'"@,
        ValidationError::CycleWithoutEntry => "cycle without entry: deadlock detected"@,
        ValidationError::EmptyGraph => "empty graph: no nodes defined"@,
        ValidationError::NoValidProvider { node_id } =>
            "node '"@ + node_id@ + "' has no valid provider"@,
        ValidationError::DuplicateNodeId { node_id } =>
            "duplicate node ID: '"@ + node_id@ + "'"@,
        ValidationError::InvalidPredecessor { node_id, predecessor_id } =>
            "node '"@ + node_id@ + "' references non-existent predecessor '"@ + predecessor_id@ + "'"@,
        ValidationError::InputSourceNotFound { node_id, source_id } =>
            "node '"@ + node_id@ + "' references non-existent input source '"@ + source_id@ + "'"@,
        ValidationError::InputSourceUnreachable { node_id, source_id } =>
            "input source '"@ + source_id@ + "' for node '"@ + node_id@
                + "' is not reachable from any entry"@,
        ValidationError::BuildInvariant { description } =>
            "build invariant failure: "@ + description@,
        ValidationError::ZeroTimeout { node_id } =>
            "node '"@ + node_id@ + "' has process_timeout_secs = 0 (would timeout immediately)"@,
        ValidationError::DatarouterRefWithoutDataflow { node_id, source_id } =>
            "node '"@ + node_id@ + "' uses {{datarouter."@ + source_id@
                + ".xxx}} but no dataflow from '"@ + source_id@ + "' to '"@ + node_id@
                + "' exists"@,
        ValidationError::UnknownMetadataField { node_id, field } =>
            "node '"@ + node_id@ + "' uses {{metadata."@ + field@
                + "}} \u{2014} unknown metadata field (valid: run_count, timed_out)"@,
        ValidationError::UnknownDatarouterField { node_id, source_id, field } =>
            "node '"@ + node_id@ + "' uses {{datarouter."@ + source_id@ + "."@ + field@
                + "}} \u{2014} unknown field (valid: route, content)"@,
        ValidationError::UnrecognizedTemplate { node_id, template } =>
            "node '"@ + node_id@ + "' has unrecognized template placeholder '"@ + template@
                + "' \u{2014} engine supports metadata.*, datarouter.*.*"@,
        ValidationError::LlmNodeMissingWrapper { node_id, scripts_dir } =>
            "node '"@ + node_id@ + "' (type=llm) requires llm_node.py in scripts_dir '"@
                + scripts_dir@
                + "', but the file was not found. Set node-level scripts_dir to the directory containing llm_node.py"@,
        ValidationError::LlmPromptInCommandLine { node_id } =>
            "node '"@ + node_id@
                + "' (type=llm) uses -p \"{{prompt}}\" in its command \u{2014} this will break on Windows when the prompt contains newlines. Remove -p \"{{prompt}}\" from the command; llm_node.py will pass the prompt via stdin instead"@,
        ValidationError::LlmNoStreamingOutput { node_id } =>
            "node '"@ + node_id@
                + "' (type=llm) uses --output-format json (no streaming). Use --output-format stream-json for real-time chunks in the raw log"@,
        ValidationError::SuspiciousScriptsDir { node_id, scripts_dir } =>
            "node '"@ + node_id@ + "' has suspicious scripts_dir '"@ + scripts_dir@
                + "' \u{2014} it may resolve to a non-existent path at runtime due to redundant segments or incorrect CWD assumptions"@,
    }
}

/// The message of a validation warning.
pub open spec fn warning_text(w: ValidationWarning) -> Seq<char> {
    match w {
        ValidationWarning::LlmPromptInCommandLine { node_id } =>
            "node '"@ + node_id@
                + "' uses -p \"{{prompt}}\" with a multi-line prompt \u{2014} this will break on Windows. Remove -p \"{{prompt}}\" from the command; llm_node.py passes the prompt via stdin instead"@,
        ValidationWarning::LlmNoStreamingOutput { node_id } =>
            "node '"@ + node_id@
                + "' uses --output-format json (no streaming). Use --output-format stream-json for real-time chunks in the raw log"@,
        ValidationWarning::SuspiciousScriptsDir { node_id, scripts_dir, resolved } =>
            "node '"@ + node_id@ + "' scripts_dir '"@ + scripts_dir@ + "' resolves to '"@
                + resolved@ + "' \u{2014} redundant path segment detected"@,
    }
}

fn lit(a: &str) -> (s: String)
    ensures
        s@ == a@,
{
    let mut s = String::new();
    push_str_chars(&mut s, a);
    assert(Seq::<char>::empty() + a@ == a@);
    s
}

fn cat3(a: &str, b: &str, c: &str) -> (s: String)
    ensures
        s@ == a@ + b@ + c@,
{
    let mut s = lit(a);
    push_str_chars(&mut s, b);
    push_str_chars(&mut s, c);
    s
}

fn cat5(a: &str, b: &str, c: &str, d: &str, e: &str) -> (s: String)
    ensures
        s@ == a@ + b@ + c@ + d@ + e@,
{
    let mut s = cat3(a, b, c);
    push_str_chars(&mut s, d);
    push_str_chars(&mut s, e);
    s
}

fn cat7(a: &str, b: &str, c: &str, d: &str, e: &str, f: &str, g: &str) -> (s: String)
    ensures
        s@ == a@ + b@ + c@ + d@ + e@ + f@ + g@,
{
    let mut s = cat5(a, b, c, d, e);
    push_str_chars(&mut s, f);
    push_str_chars(&mut s, g);
    s
}

impl ValidationError {
    /// The human-readable message of this error (its `Display` text).
    pub fn message(&self) -> (s: String)
        ensures
            s@ == error_text(*self),
    {
        match self {
            ValidationError::NoEntryNode => lit("no entry node: all nodes have predecessors"),
            ValidationError::UnreachableNode { node_id } =>
                cat3("unreachable node '", node_id.as_str(), "': not reachable from any entry node"),
            ValidationError::ExitNotReachable { node_id } =>
                cat3("exit not reachable from node '", node_id.as_str(), "'"),
            ValidationError::CycleWithoutEntry => lit("cycle without entry: deadlock detected"),
            ValidationError::EmptyGraph => lit("empty graph: no nodes defined"),
            ValidationError::NoValidProvider { node_id } =>
                cat3("node '", node_id.as_str(), "' has no valid provider"),
            ValidationError::DuplicateNodeId { node_id } =>
                cat3("duplicate node ID: '", node_id.as_str(), "'"),
            ValidationError::InvalidPredecessor { node_id, predecessor_id } =>
                cat5("node '", node_id.as_str(), "' references non-existent predecessor '",
                    predecessor_id.as_str(), "'"),
            ValidationError::InputSourceNotFound { node_id, source_id } =>
                cat5("node '", node_id.as_str(), "' references non-existent input source '",
                    source_id.as_str(), "'"),
            ValidationError::InputSourceUnreachable { node_id, source_id } =>
                cat5("input source '", source_id.as_str(), "' for node '", node_id.as_str(),
                    "' is not reachable from any entry"),
            ValidationError::BuildInvariant { description } => {
                let mut s = lit("build invariant failure: ");
                push_str_chars(&mut s, description.as_str());
                s
            },
            ValidationError::ZeroTimeout { node_id } =>
                cat3("node '", node_id.as_str(),
                    "' has process_timeout_secs = 0 (would timeout immediately)"),
            ValidationError::DatarouterRefWithoutDataflow { node_id, source_id } => {
                let mut s = cat7("node '", node_id.as_str(), "' uses {{datarouter.",
                    source_id.as_str(), ".xxx}} but no dataflow from '", source_id.as_str(), "' to '");
                push_str_chars(&mut s, node_id.as_str());
                push_str_chars(&mut s, "' exists");
                s
            },
            ValidationError::UnknownMetadataField { node_id, field } =>
                cat5("node '", node_id.as_str(), "' uses {{metadata.", field.as_str(),
                    "}} \u{2014} unknown metadata field (valid: run_count, timed_out)"),
            ValidationError::UnknownDatarouterField { node_id, source_id, field } =>
                cat7("node '", node_id.as_str(), "' uses {{datarouter.", source_id.as_str(), ".",
                    field.as_str(), "}} \u{2014} unknown field (valid: route, content)"),
            ValidationError::UnrecognizedTemplate { node_id, template } =>
                cat5("node '", node_id.as_str(), "' has unrecognized template placeholder '",
                    template.as_str(), "' \u{2014} engine supports metadata.*, datarouter.*.*"),
            ValidationError::LlmNodeMissingWrapper { node_id, scripts_dir } =>
                cat5("node '", node_id.as_str(),
                    "' (type=llm) requires llm_node.py in scripts_dir '", scripts_dir.as_str(),
                    "', but the file was not found. Set node-level scripts_dir to the directory containing llm_node.py"),
            ValidationError::LlmPromptInCommandLine { node_id } =>
                cat3("node '", node_id.as_str(),
                    "' (type=llm) uses -p \"{{prompt}}\" in its command \u{2014} this will break on Windows when the prompt contains newlines. Remove -p \"{{prompt}}\" from the command; llm_node.py will pass the prompt via stdin instead"),
            ValidationError::LlmNoStreamingOutput { node_id } =>
                cat3("node '", node_id.as_str(),
                    "' (type=llm) uses --output-format json (no streaming). Use --output-format stream-json for real-time chunks in the raw log"),
            ValidationError::SuspiciousScriptsDir { node_id, scripts_dir } =>
                cat5("node '", node_id.as_str(), "' has suspicious scripts_dir '",
                    scripts_dir.as_str(),
                    "' \u{2014} it may resolve to a non-existent path at runtime due to redundant segments or incorrect CWD assumptions"),
        }
    }
}

impl ValidationWarning {
    /// The human-readable message of this warning (its `Display` text).
    pub fn message(&self) -> (s: String)
        ensures
            s@ == warning_text(*self),
    {
        match self {
            ValidationWarning::LlmPromptInCommandLine { node_id } =>
                cat3("node '", node_id.as_str(),
                    "' uses -p \"{{prompt}}\" with a multi-line prompt \u{2014} this will break on Windows. Remove -p \"{{prompt}}\" from the command; llm_node.py passes the prompt via stdin instead"),
            ValidationWarning::LlmNoStreamingOutput { node_id } =>
                cat3("node '", node_id.as_str(),
                    "' uses --output-format json (no streaming). Use --output-format stream-json for real-time chunks in the raw log"),
            ValidationWarning::SuspiciousScriptsDir { node_id, scripts_dir, resolved } =>
                cat7("node '", node_id.as_str(), "' scripts_dir '", scripts_dir.as_str(),
                    "' resolves to '", resolved.as_str(), "' \u{2014} redundant path segment detected"),
        }
    }
}

} // verus!
