//! Data exchanged between the engine and a node.

use vstd::prelude::*;

use crate::text::{copy_string, push_char, push_str_chars, to_chars};

verus! {

/// Execution metadata passed to a node alongside its input data.
#[derive(Debug, Clone, Copy, PartialEq, Eq)]
pub struct NodeMetadata {
    /// How many times this node has been executed so far (1-based).
    pub run_count: u64,
    /// Whether the previous execution of this node timed out.
    pub timed_out: bool,
}

/// A structured node output: the routing key and the content payload.
#[derive(Debug, Clone, PartialEq, Eq)]
pub struct NodeOutput {
    /// Logical route key for edge matching.
    pub route: String,
    /// The content payload.
    pub content: String,
}

impl NodeOutput {
    /// An equal copy of this output.
    pub fn copy(&self) -> (r: Self)
        ensures
            r == *self,
    {
        NodeOutput { route: self.route.clone(), content: self.content.clone() }
    }

    /// The output with empty route and content.
    pub fn empty() -> (r: Self)
        ensures
            r.route@ == Seq::<char>::empty(),
            r.content@ == Seq::<char>::empty(),
    {
        NodeOutput { route: String::new(), content: String::new() }
    }
}

/// Input context passed to a node.  The three maps are kept as lists of
/// (key, value) pairs with distinct keys, in insertion order.
#[derive(Debug, Clone, PartialEq, Eq)]
pub struct NodeContext {
    /// Upstream alias to content.
    pub inputs: Vec<(String, String)>,
    /// Extension parameters for the node (prompt, route list, SDK settings).
    pub extensions: Vec<(String, String)>,
    /// Execution metadata.
    pub metadata: NodeMetadata,
    /// Upstream alias to full output (route and content).
    pub upstream: Vec<(String, NodeOutput)>,
}

impl Default for NodeContext {
    fn default() -> (c: Self)
        ensures
            c.inputs@.len() == 0,
            c.extensions@.len() == 0,
            c.upstream@.len() == 0,
            c.metadata == (NodeMetadata { run_count: 1, timed_out: false }),
    {
        NodeContext {
            inputs: Vec::new(),
            extensions: Vec::new(),
            metadata: NodeMetadata { run_count: 1, timed_out: false },
            upstream: Vec::new(),
        }
    }
}

impl View for NodeOutput {
    type V = (Seq<char>, Seq<char>);

    /// The route and the content, as character sequences.
    open spec fn view(&self) -> (Seq<char>, Seq<char>) {
        (self.route@, self.content@)
    }
}

/// The first position of key `k` in a key/value list.
pub open spec fn kv_find<K, V>(s: Seq<(K, V)>, k: K) -> Option<int>
    decreases s.len(),
{
    if s.len() == 0 {
        None
    } else {
        match kv_find(s.drop_last(), k) {
            Some(i) => Some(i),
            None => if s.last().0 == k { Some(s.len() - 1) } else { None },
        }
    }
}

/// `HashMap::insert` on a key/value list: replace the value of an existing
/// key in place, or append the pair.
pub open spec fn kv_put<K, V>(s: Seq<(K, V)>, k: K, v: V) -> Seq<(K, V)> {
    match kv_find(s, k) {
        Some(i) => s.update(i, (k, v)),
        None => s.push((k, v)),
    }
}

/// The value of key `k` in a key/value list.
pub open spec fn kv_get<K, V>(s: Seq<(K, V)>, k: K) -> Option<V> {
    match kv_find(s, k) {
        Some(i) => Some(s[i].1),
        None => None,
    }
}

/// A string-keyed list seen through the views of its keys and values.
pub open spec fn entries_view<V: View>(s: Seq<(String, V)>) -> Seq<(Seq<char>, V::V)> {
    s.map_values(|p: (String, V)| (p.0@, p.1@))
}

/// `kv_find` returns the first position holding the key.
pub proof fn lemma_kv_find<K, V>(s: Seq<(K, V)>, k: K)
    ensures
        match kv_find(s, k) {
            Some(i) => 0 <= i < s.len() && s[i].0 == k && forall|j: int| 0 <= j < i ==> s[j].0 != k,
            None => forall|j: int| 0 <= j < s.len() ==> s[j].0 != k,
        },
    decreases s.len(),
{
    if s.len() > 0 {
        let d = s.drop_last();
        lemma_kv_find(d, k);
        assert forall|j: int| 0 <= j < d.len() implies d[j] == s[j] by {}
    }
}

/// After `kv_put(s, k, v)`, key `k` holds `v` and every other key keeps its
/// value.
pub proof fn lemma_kv_put_get<K, V>(s: Seq<(K, V)>, k: K, v: V, k2: K)
    ensures
        kv_get(kv_put(s, k, v), k) == Some(v),
        k2 != k ==> kv_get(kv_put(s, k, v), k2) == kv_get(s, k2),
{
    let n = kv_put(s, k, v);
    lemma_kv_find(s, k);
    lemma_kv_find(n, k);
    lemma_kv_find(s, k2);
    lemma_kv_find(n, k2);
    match kv_find(s, k) {
        Some(i) => {
            assert(n[i].0 == k);
            match kv_find(n, k) {
                Some(i2) => {
                    if i2 < i {
                        assert(n[i2] == s[i2]);
                    }
                },
                None => {},
            }
            if k2 != k {
                match kv_find(s, k2) {
                    Some(x) => {
                        assert(n[x] == s[x]);
                        match kv_find(n, k2) {
                            Some(y) => {
                                if y < x {
                                    assert(n[y] == s[y]);
                                }
                            },
                            None => {},
                        }
                    },
                    None => {
                        match kv_find(n, k2) {
                            Some(y) => {
                                assert(n[y] == s[y]);
                            },
                            None => {},
                        }
                    },
                }
            }
        },
        None => {
            assert(n[s.len() as int].0 == k);
            match kv_find(n, k) {
                Some(i2) => {
                    if i2 < s.len() {
                        assert(n[i2] == s[i2]);
                    }
                },
                None => {},
            }
            if k2 != k {
                match kv_find(s, k2) {
                    Some(x) => {
                        assert(n[x] == s[x]);
                        match kv_find(n, k2) {
                            Some(y) => {
                                if y < x {
                                    assert(n[y] == s[y]);
                                }
                            },
                            None => {},
                        }
                    },
                    None => {
                        match kv_find(n, k2) {
                            Some(y) => {
                                if y < s.len() {
                                    assert(n[y] == s[y]);
                                }
                            },
                            None => {},
                        }
                    },
                }
            }
        },
    }
}

/// The position of key `k` in a string-keyed list.
pub fn kv_find_exec<V: View>(s: &Vec<(String, V)>, k: &str) -> (r: Option<usize>)
    ensures
        match kv_find(entries_view(s@), k@) {
            Some(i) => r is Some && r->0 == i,
            None => r is None,
        },
{
    let ghost e = entries_view(s@);
    proof {
        lemma_kv_find(e, k@);
    }
    let mut i: usize = 0;
    while i < s.len()
        invariant
            i <= s@.len(),
            e == entries_view(s@),
            e.len() == s@.len(),
            forall|j: int| 0 <= j < i ==> e[j].0 != k@,
            match kv_find(e, k@) {
                Some(x) => 0 <= x < e.len() && e[x].0 == k@ && forall|j: int| 0 <= j < x ==> e[j].0 != k@,
                None => forall|j: int| 0 <= j < e.len() ==> e[j].0 != k@,
            },
        decreases s@.len() - i,
    {
        assert(e[i as int].0 == s@[i as int].0@);
        if crate::graph::graph_def::str_eq(s[i].0.as_str(), k) {
            return Some(i);
        }
        i = i + 1;
    }
    None
}

/// `HashMap::insert` on a string-keyed list.
pub fn kv_insert<V: View>(s: &mut Vec<(String, V)>, k: String, v: V)
    ensures
        entries_view(final(s)@) == kv_put(entries_view(old(s)@), k@, v@),
{
    let ks = k.as_str();
    let found = kv_find_exec(s, ks);
    proof {
        lemma_kv_find(entries_view(s@), k@);
    }
    match found {
        Some(i) => {
            s.set(i, (k, v));
            assert(entries_view(s@) =~= kv_put(entries_view(old(s)@), k@, v@));
        },
        None => {
            s.push((k, v));
            assert(entries_view(s@) =~= kv_put(entries_view(old(s)@), k@, v@));
        },
    }
}

/// A copy of a string-keyed list of strings.
pub fn copy_string_entries(v: &Vec<(String, String)>) -> (r: Vec<(String, String)>)
    ensures
        r@ == v@,
{
    let mut r: Vec<(String, String)> = Vec::new();
    let mut i: usize = 0;
    while i < v.len()
        invariant
            i <= v@.len(),
            r@ == v@.take(i as int),
        decreases v@.len() - i,
    {
        r.push((v[i].0.clone(), v[i].1.clone()));
        assert(r@ =~= v@.take(i + 1));
        i = i + 1;
    }
    assert(v@.take(v@.len() as int) == v@);
    r
}

/// A copy of a string-keyed list of node outputs.
pub fn copy_output_entries(v: &Vec<(String, NodeOutput)>) -> (r: Vec<(String, NodeOutput)>)
    ensures
        r@ == v@,
{
    let mut r: Vec<(String, NodeOutput)> = Vec::new();
    let mut i: usize = 0;
    while i < v.len()
        invariant
            i <= v@.len(),
            r@ == v@.take(i as int),
        decreases v@.len() - i,
    {
        r.push((v[i].0.clone(), v[i].1.copy()));
        assert(r@ =~= v@.take(i + 1));
        i = i + 1;
    }
    assert(v@.take(v@.len() as int) == v@);
    r
}

/// Whether a code point lies in the surrogate range U+D800..U+DFFF.
pub open spec fn is_surrogate(c: char) -> bool {
    0xD800 <= (c as u32) <= 0xDFFF
}

/// Strip lone surrogate code points from a string in place.
pub fn strip_surrogates(s: &mut String)
    ensures
        final(s)@ == old(s)@.filter(|c: char| !is_surrogate(c)),
{
    let v = to_chars(s.as_str());
    let mut out = String::new();
    let ghost keep = |c: char| !is_surrogate(c);
    let mut i: usize = 0;
    while i < v.len()
        invariant
            i <= v@.len(),
            v@ == old(s)@,
            *s == *old(s),
            keep == (|c: char| !is_surrogate(c)),
            out@ == v@.take(i as int).filter(keep),
        decreases v@.len() - i,
    {
        let c = v[i];
        proof {
            assert(v@.take(i + 1) == v@.take(i as int).push(c));
            v@.take(i as int).lemma_filter_push(c, keep);
        }
        let code = c as u32;
        if !(0xD800u32 <= code && code <= 0xDFFFu32) {
            push_char(&mut out, c);
        }
        i = i + 1;
    }
    proof {
        assert(v@.take(v@.len() as int) == v@);
    }
    *s = out;
}

/// A `char` is never a surrogate, so stripping surrogates leaves every
/// string unchanged.
pub proof fn lemma_strip_surrogates_identity(s: Seq<char>)
    ensures
        s.filter(|c: char| !is_surrogate(c)) == s,
    decreases s.len(),
{
    let keep = |c: char| !is_surrogate(c);
    if s.len() > 0 {
        lemma_strip_surrogates_identity(s.drop_last());
        s.drop_last().lemma_filter_push(s.last(), keep);
        vstd::utf8::char_is_scalar(s.last());
        assert(s.drop_last().push(s.last()) == s);
    } else {
        assert(s.filter(keep) =~= s);
    }
}

impl NodeContext {
    /// Remove lone surrogates (U+D800..U+DFFF) from every string value of
    /// the inputs, extensions and upstream outputs.
    pub fn sanitize_surrogates(&mut self)
        ensures
            final(self).metadata == old(self).metadata,
            final(self).inputs@.len() == old(self).inputs@.len(),
            final(self).extensions@.len() == old(self).extensions@.len(),
            final(self).upstream@.len() == old(self).upstream@.len(),
            forall|i: int| 0 <= i < old(self).inputs@.len() ==> {
                &&& (#[trigger] final(self).inputs@[i]).0 == old(self).inputs@[i].0
                &&& final(self).inputs@[i].1@ == old(self).inputs@[i].1@.filter(|c: char| !is_surrogate(c))
            },
            forall|i: int| 0 <= i < old(self).extensions@.len() ==> {
                &&& (#[trigger] final(self).extensions@[i]).0 == old(self).extensions@[i].0
                &&& final(self).extensions@[i].1@ == old(self).extensions@[i].1@.filter(|c: char| !is_surrogate(c))
            },
            forall|i: int| 0 <= i < old(self).upstream@.len() ==> {
                &&& (#[trigger] final(self).upstream@[i]).0 == old(self).upstream@[i].0
                &&& final(self).upstream@[i].1.route@ == old(self).upstream@[i].1.route@.filter(|c: char| !is_surrogate(c))
                &&& final(self).upstream@[i].1.content@ == old(self).upstream@[i].1.content@.filter(|c: char| !is_surrogate(c))
            },
    {
        let mut i: usize = 0;
        while i < self.inputs.len()
            invariant
                i <= self.inputs@.len(),
                self.inputs@.len() == old(self).inputs@.len(),
                self.extensions == old(self).extensions,
                self.upstream == old(self).upstream,
                self.metadata == old(self).metadata,
                forall|j: int| 0 <= j < old(self).inputs@.len() ==> {
                    &&& (#[trigger] self.inputs@[j]).0 == old(self).inputs@[j].0
                    &&& self.inputs@[j].1@ == (if j < i { old(self).inputs@[j].1@.filter(|c: char| !is_surrogate(c)) } else { old(self).inputs@[j].1@ })
                },
            decreases self.inputs@.len() - i,
        {
            let mut v = copy_string(&self.inputs[i].1);
            strip_surrogates(&mut v);
            let k = copy_string(&self.inputs[i].0);
            self.inputs.set(i, (k, v));
            i = i + 1;
        }
        let mut i: usize = 0;
        while i < self.extensions.len()
            invariant
                i <= self.extensions@.len(),
                self.extensions@.len() == old(self).extensions@.len(),
                self.inputs@.len() == old(self).inputs@.len(),
                forall|j: int| 0 <= j < old(self).inputs@.len() ==> {
                    &&& (#[trigger] self.inputs@[j]).0 == old(self).inputs@[j].0
                    &&& self.inputs@[j].1@ == old(self).inputs@[j].1@.filter(|c: char| !is_surrogate(c))
                },
                self.upstream == old(self).upstream,
                self.metadata == old(self).metadata,
                forall|j: int| 0 <= j < old(self).extensions@.len() ==> {
                    &&& (#[trigger] self.extensions@[j]).0 == old(self).extensions@[j].0
                    &&& self.extensions@[j].1@ == (if j < i { old(self).extensions@[j].1@.filter(|c: char| !is_surrogate(c)) } else { old(self).extensions@[j].1@ })
                },
            decreases self.extensions@.len() - i,
        {
            let mut v = copy_string(&self.extensions[i].1);
            strip_surrogates(&mut v);
            let k = copy_string(&self.extensions[i].0);
            self.extensions.set(i, (k, v));
            i = i + 1;
        }
        let mut i: usize = 0;
        while i < self.upstream.len()
            invariant
                i <= self.upstream@.len(),
                self.upstream@.len() == old(self).upstream@.len(),
                self.inputs@.len() == old(self).inputs@.len(),
                self.extensions@.len() == old(self).extensions@.len(),
                forall|j: int| 0 <= j < old(self).inputs@.len() ==> {
                    &&& (#[trigger] self.inputs@[j]).0 == old(self).inputs@[j].0
                    &&& self.inputs@[j].1@ == old(self).inputs@[j].1@.filter(|c: char| !is_surrogate(c))
                },
                forall|j: int| 0 <= j < old(self).extensions@.len() ==> {
                    &&& (#[trigger] self.extensions@[j]).0 == old(self).extensions@[j].0
                    &&& self.extensions@[j].1@ == old(self).extensions@[j].1@.filter(|c: char| !is_surrogate(c))
                },
                self.metadata == old(self).metadata,
                forall|j: int| 0 <= j < old(self).upstream@.len() ==> {
                    &&& (#[trigger] self.upstream@[j]).0 == old(self).upstream@[j].0
                    &&& self.upstream@[j].1.route@ == (if j < i { old(self).upstream@[j].1.route@.filter(|c: char| !is_surrogate(c)) } else { old(self).upstream@[j].1.route@ })
                    &&& self.upstream@[j].1.content@ == (if j < i { old(self).upstream@[j].1.content@.filter(|c: char| !is_surrogate(c)) } else { old(self).upstream@[j].1.content@ })
                },
            decreases self.upstream@.len() - i,
        {
            let mut route = copy_string(&self.upstream[i].1.route);
            strip_surrogates(&mut route);
            let mut content = copy_string(&self.upstream[i].1.content);
            strip_surrogates(&mut content);
            let k = copy_string(&self.upstream[i].0);
            self.upstream.set(i, (k, NodeOutput { route, content }));
            i = i + 1;
        }
    }
}

/// An output chunk streamed by a node while it runs.
#[derive(Debug, Clone, PartialEq, Eq)]
pub struct NodeChunk {
    /// The output text line.
    pub text: String,
}

/// The outcome of executing a node.
#[derive(Debug, Clone, PartialEq, Eq)]
pub struct NodeOutcome {
    /// Structured output produced by the node.
    pub output: NodeOutput,
    /// Process exit code (see [`crate::nodeshell::exit_codes`]).
    pub exit_code: i32,
    /// Exit reason used for edge routing (the output's route, if any).
    pub exit_reason: Option<String>,
}

/// The exit reason a route gives: none for an empty route, else the route.
pub open spec fn reason_for(route: Seq<char>) -> Option<Seq<char>> {
    if route.len() == 0 {
        None
    } else {
        Some(route)
    }
}

/// An optional string seen through its view.
pub open spec fn opt_view(o: Option<String>) -> Option<Seq<char>> {
    match o {
        Some(s) => Some(s@),
        None => None,
    }
}

impl View for NodeOutcome {
    type V = ((Seq<char>, Seq<char>), i32, Option<Seq<char>>);

    /// Output, exit code and exit reason.
    open spec fn view(&self) -> ((Seq<char>, Seq<char>), i32, Option<Seq<char>>) {
        (self.output@, self.exit_code, opt_view(self.exit_reason))
    }
}

/// A run result seen through its views: the outcome, or the spawn error's
/// message.
pub open spec fn result_view(r: Result<NodeOutcome, SpawnError>) -> Result<((Seq<char>, Seq<char>), i32, Option<Seq<char>>), Seq<char>> {
    match r {
        Ok(o) => Ok(o@),
        Err(e) => Err(e.message@),
    }
}

impl NodeOutcome {
    /// The outcome of an output with the given exit code, whose exit reason
    /// is the output's route when that route is not empty.
    pub fn routed(output: NodeOutput, exit_code: i32) -> (r: Self)
        ensures
            r@ == (output@, exit_code, reason_for(output.route@)),
    {
        let exit_reason = if output.route.as_str().is_empty() {
            None
        } else {
            Some(output.route.clone())
        };
        NodeOutcome { output, exit_code, exit_reason }
    }

    /// Whether the node was killed because of a timeout (exit code -9).
    pub fn timed_out(&self) -> (b: bool)
        ensures
            b == (self.exit_code == -9),
    {
        self.exit_code == crate::nodeshell::exit_codes::TIMEOUT
    }
}

/// Error returned when a node cannot be spawned.
#[derive(Debug, Clone, PartialEq, Eq)]
pub struct SpawnError {
    /// Human-readable error description.
    pub message: String,
}

impl SpawnError {
    /// An error with the given message.
    pub fn with_message(message: String) -> (r: Self)
        ensures
            r.message == message,
    {
        SpawnError { message }
    }

    /// The error's display text, `"spawn error: <message>"`.
    pub fn display_text(&self) -> (s: String)
        ensures
            s@ == "spawn error: "@ + self.message@,
    {
        let mut s = String::new();
        push_str_chars(&mut s, "spawn error: ");
        push_str_chars(&mut s, self.message.as_str());
        assert(Seq::<char>::empty() + "spawn error: "@ == "spawn error: "@);
        s
    }
}

} // verus!
