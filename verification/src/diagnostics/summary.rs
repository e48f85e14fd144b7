//! One-line summaries of streamed node output for the run log: a JSON
//! stream event is shown by its kind and salient fields, anything else as
//! its trimmed text; long text is clipped at a byte length.

use vstd::prelude::*;

use crate::graph::graph_def::str_eq;
use crate::json::{json_error, json_error_of, json_str_at, json_str_at_of, json_u64_at, json_u64_at_of};
use crate::nodeshell::llm_sdk::opt_str;
use crate::text::{
    decimal, decimal_string, push_range, push_str_chars, string_of_chars, to_chars, trim_chars, trim_seq,
};

verus! {

/// The number of bytes UTF-8 takes for `c`.
pub open spec fn utf8_width(c: char) -> nat {
    if (c as u32) < 0x80 {
        1
    } else if (c as u32) < 0x800 {
        2
    } else if (c as u32) < 0x10000 {
        3
    } else {
        4
    }
}

/// The number of bytes UTF-8 takes for `s`, as `str::len` gives it.
pub open spec fn utf8_len(s: Seq<char>) -> nat
    decreases s.len(),
{
    if s.len() == 0 {
        0
    } else {
        utf8_len(s.drop_last()) + utf8_width(s.last())
    }
}

/// The number of characters, from `k` on, whose UTF-8 prefix is exactly
/// `max` bytes long, if some prefix ends there.
pub open spec fn cut_index(s: Seq<char>, max: nat, k: int) -> Option<int>
    decreases s.len() - k,
{
    if k < 0 || k > s.len() || utf8_len(s.take(k)) > max {
        None
    } else if utf8_len(s.take(k)) == max {
        Some(k)
    } else if k == s.len() {
        None
    } else {
        cut_index(s, max, k + 1)
    }
}

/// `s` clipped to `max` bytes: whole when it fits; else its first `max`
/// bytes followed by `...`; nothing when byte `max` falls inside a
/// character, where slicing the string there panics.
pub open spec fn clipped(s: Seq<char>, max: nat) -> Option<Seq<char>> {
    if utf8_len(s) <= max {
        Some(s)
    } else {
        match cut_index(s, max, 0) {
            Some(k) => Some(s.take(k) + "..."@),
            None => None,
        }
    }
}

/// A string read at a JSON pointer, or `default` when there is none.
pub open spec fn str_or(v: Option<Seq<char>>, default: Seq<char>) -> Seq<char> {
    match v {
        Some(s) => s,
        None => default,
    }
}

/// The summary of one line of streamed output: for a JSON document, its
/// `type` (default `data`) decides — `step_start`; `step_finish` with the
/// part's reason in brackets and its total token count; `text: ` and the
/// part's text clipped to 200 bytes (or just `text`); `tool: ` and the
/// part's tool (default `unknown`) with its state's status in brackets when
/// there is one; any other kind as `event: <kind>` clipped to 120 bytes.
/// Anything else is the trimmed line clipped to 200 bytes.  Nothing when a
/// clip would cut a character.
pub open spec fn chunk_summary(text: Seq<char>) -> Option<Seq<char>> {
    if json_error_of(text) is None {
        let kind = str_or(json_str_at_of(text, "/type"@), "data"@);
        if kind == "step_start"@ {
            Some("step_start"@)
        } else if kind == "step_finish"@ {
            let reason = match json_str_at_of(text, "/part/reason"@) {
                Some(r) => " ("@ + r + ")"@,
                None => Seq::empty(),
            };
            let tokens = match json_u64_at_of(text, "/part/tokens/total"@) {
                Some(t) => " "@ + decimal(t as nat) + " tokens"@,
                None => Seq::empty(),
            };
            Some("step_finish"@ + reason + tokens)
        } else if kind == "text"@ {
            match json_str_at_of(text, "/part/text"@) {
                Some(t) => match clipped(t, 200) {
                    Some(c) => Some("text: "@ + c),
                    None => None,
                },
                None => Some("text"@),
            }
        } else if kind == "tool_use"@ {
            let tool = str_or(json_str_at_of(text, "/part/tool"@), "unknown"@);
            let status = str_or(json_str_at_of(text, "/part/state/status"@), Seq::empty());
            if status.len() == 0 {
                Some("tool: "@ + tool)
            } else {
                Some("tool: "@ + tool + " ("@ + status + ")"@)
            }
        } else {
            clipped("event: "@ + kind, 120)
        }
    } else {
        clipped(trim_seq(text), 200)
    }
}

/// The UTF-8 length of a prefix grows by the width of the next character.
proof fn lemma_utf8_len_take(s: Seq<char>, k: int)
    requires
        0 <= k < s.len(),
    ensures
        utf8_len(s.take(k + 1)) == utf8_len(s.take(k)) + utf8_width(s[k]),
{
    assert(s.take(k + 1).drop_last() =~= s.take(k));
}

/// A longer prefix is at least one byte longer per character.
proof fn lemma_utf8_len_grows(s: Seq<char>, i: int, j: int)
    requires
        0 <= i <= j <= s.len(),
    ensures
        utf8_len(s.take(j)) >= utf8_len(s.take(i)) + (j - i),
    decreases j - i,
{
    if i < j {
        lemma_utf8_len_grows(s, i, j - 1);
        lemma_utf8_len_take(s, j - 1);
    }
}

/// The UTF-8 width of a character.
fn utf8_width_exec(c: char) -> (w: usize)
    ensures
        w == utf8_width(c),
{
    let code = c as u32;
    if code < 0x80 {
        1
    } else if code < 0x800 {
        2
    } else if code < 0x10000 {
        3
    } else {
        4
    }
}

/// Clip `s` to `max` bytes as [`clipped`] says: `None` where slicing at
/// byte `max` would cut a character.
pub fn clip(s: &str, max: usize) -> (r: Option<String>)
    requires
        max < usize::MAX - 4,
    ensures
        opt_str(r) == clipped(s@, max as nat),
{
    let v = to_chars(s);
    let mut i: usize = 0;
    let mut bytes: usize = 0;
    while i < v.len() && bytes < max
        invariant
            i <= v@.len(),
            v@ == s@,
            max < usize::MAX - 4,
            bytes == utf8_len(v@.take(i as int)),
            bytes <= max + 3,
            cut_index(v@, max as nat, 0) == cut_index(v@, max as nat, i as int),
        decreases v@.len() - i,
    {
        proof {
            lemma_utf8_len_take(v@, i as int);
        }
        bytes = bytes + utf8_width_exec(v[i]);
        i = i + 1;
    }
    proof {
        assert(v@.take(v@.len() as int) =~= v@);
    }
    if i == v.len() && bytes <= max {
        let mut out = String::new();
        push_range(&mut out, &v, 0, v.len());
        assert(v@.subrange(0, v@.len() as int) =~= v@);
        Some(out)
    } else if bytes == max {
        proof {
            lemma_utf8_len_grows(v@, i as int, v@.len() as int);
        }
        let mut out = String::new();
        push_range(&mut out, &v, 0, i);
        push_str_chars(&mut out, "...");
        assert(v@.subrange(0, i as int) =~= v@.take(i as int));
        Some(out)
    } else {
        proof {
            lemma_utf8_len_grows(v@, i as int, v@.len() as int);
        }
        None
    }
}

/// A string read at a JSON pointer, or `default` when there is none.
fn or_default(v: Option<String>, default: &str) -> (r: String)
    ensures
        r@ == str_or(opt_str(v), default@),
{
    match v {
        Some(s) => s,
        None => {
            let mut s = String::new();
            push_str_chars(&mut s, default);
            assert(Seq::<char>::empty() + default@ =~= default@);
            s
        },
    }
}

/// A string holding `prefix` followed by `s`.
fn prefixed(prefix: &str, s: &str) -> (r: String)
    ensures
        r@ == prefix@ + s@,
{
    let mut out = String::new();
    push_str_chars(&mut out, prefix);
    push_str_chars(&mut out, s);
    assert(Seq::<char>::empty() + prefix@ + s@ =~= prefix@ + s@);
    out
}

/// Summarize one line of streamed output as [`chunk_summary`] says;
/// `None` where a clip would cut a character.
pub fn summarize_chunk(text: &str) -> (r: Option<String>)
    ensures
        opt_str(r) == chunk_summary(text@),
{
    if json_error(text).is_none() {
        let kind = or_default(json_str_at(text, "/type"), "data");
        if str_eq(kind.as_str(), "step_start") {
            Some(String::from_str("step_start"))
        } else if str_eq(kind.as_str(), "step_finish") {
            let mut s = String::from_str("step_finish");
            let ghost s0 = s@;
            match json_str_at(text, "/part/reason") {
                Some(r) => {
                    push_str_chars(&mut s, " (");
                    push_str_chars(&mut s, r.as_str());
                    push_str_chars(&mut s, ")");
                    assert(s@ =~= s0 + (" ("@ + r@ + ")"@));
                },
                None => {
                    assert(s@ =~= s0 + Seq::<char>::empty());
                },
            }
            let ghost s1 = s@;
            match json_u64_at(text, "/part/tokens/total") {
                Some(t) => {
                    let digits = decimal_string(t);
                    push_str_chars(&mut s, " ");
                    push_str_chars(&mut s, digits.as_str());
                    push_str_chars(&mut s, " tokens");
                    assert(s@ =~= s1 + (" "@ + decimal(t as nat) + " tokens"@));
                },
                None => {
                    assert(s@ =~= s1 + Seq::<char>::empty());
                },
            }
            Some(s)
        } else if str_eq(kind.as_str(), "text") {
            match json_str_at(text, "/part/text") {
                Some(t) => match clip(t.as_str(), 200) {
                    Some(c) => Some(prefixed("text: ", c.as_str())),
                    None => None,
                },
                None => Some(String::from_str("text")),
            }
        } else if str_eq(kind.as_str(), "tool_use") {
            let tool = or_default(json_str_at(text, "/part/tool"), "unknown");
            let status = or_default(json_str_at(text, "/part/state/status"), "");
            proof {
                reveal_strlit("");
            }
            let mut s = prefixed("tool: ", tool.as_str());
            if status.as_str().is_empty() {
                Some(s)
            } else {
                let ghost s0 = s@;
                push_str_chars(&mut s, " (");
                push_str_chars(&mut s, status.as_str());
                push_str_chars(&mut s, ")");
                assert(s@ =~= s0 + " ("@ + status@ + ")"@);
                Some(s)
            }
        } else {
            let raw = prefixed("event: ", kind.as_str());
            clip(raw.as_str(), 120)
        }
    } else {
        let v = to_chars(text);
        let t = trim_chars(&v);
        let ts = string_of_chars(&t);
        clip(ts.as_str(), 200)
    }
}

} // verus!
