//! The live status board of the command-line runner: one line per
//! concurrency slot, redrawn in place with ANSI escapes.
//!
//! ```text
//!   [0] > config: running cmd /c echo hello
//!   [1] v review: completed
//!   [2] idle
//! ```
//!
//! Every update that redraws returns the frame's bytes; writing them to the
//! terminal is up to the caller.

use vstd::prelude::*;

use vstd::utf8::encode_utf8;

use crate::text::{decimal, decimal_string, find_from, lemma_find_from, trim_seq};

verus! {

/// What a slot shows.
#[derive(Debug, Clone, Copy, PartialEq, Eq, Structural)]
pub enum SlotStatus {
    /// Nothing runs in the slot.
    Idle,
    /// A node runs in the slot.
    Running,
    /// The slot's node completed.
    Completed,
    /// The slot's node failed.
    Failed,
}

/// One slot: its node, status and latest output line.
#[derive(Debug)]
pub struct SlotState {
    node_id: String,
    status: SlotStatus,
    detail: String,
}

/// A slot seen through its views.
pub type SlotView = (Seq<char>, SlotStatus, Seq<char>);

/// ESC [ A: cursor up one line.
pub open spec fn csi_up() -> Seq<u8> {
    seq![0x1bu8, 0x5bu8, 0x41u8]
}

/// ESC [ K: erase the line.
pub open spec fn csi_erase() -> Seq<u8> {
    seq![0x1bu8, 0x5bu8, 0x4bu8]
}

/// Carriage return.
pub open spec fn cr() -> Seq<u8> {
    seq![0x0du8]
}

/// Newline.
pub open spec fn nl() -> Seq<u8> {
    seq![0x0au8]
}

/// ESC [ 94 m: bright blue.
pub open spec fn csi_blue() -> Seq<u8> {
    seq![0x1bu8, 0x5bu8, 0x39u8, 0x34u8, 0x6du8]
}

/// ESC [ 92 m: bright green.
pub open spec fn csi_green() -> Seq<u8> {
    seq![0x1bu8, 0x5bu8, 0x39u8, 0x32u8, 0x6du8]
}

/// ESC [ 91 m: bright red.
pub open spec fn csi_red() -> Seq<u8> {
    seq![0x1bu8, 0x5bu8, 0x39u8, 0x31u8, 0x6du8]
}

/// ESC [ 0 m: reset.
pub open spec fn csi_reset() -> Seq<u8> {
    seq![0x1bu8, 0x5bu8, 0x30u8, 0x6du8]
}

/// `n` copies of a byte sequence.
pub open spec fn repeated(b: Seq<u8>, n: nat) -> Seq<u8>
    decreases n,
{
    if n == 0 {
        Seq::empty()
    } else {
        repeated(b, (n - 1) as nat) + b
    }
}

/// The line of slot `i`.
pub open spec fn slot_line(i: nat, s: SlotView) -> Seq<u8> {
    let head = cr() + csi_erase() + encode_utf8(seq!['['] + decimal(i) + seq![']']);
    match s.1 {
        SlotStatus::Idle => head + encode_utf8(" idle"@) + nl(),
        SlotStatus::Running => head + encode_utf8(" "@) + csi_blue() + encode_utf8(">"@) + csi_reset()
            + encode_utf8(" "@ + s.0 + ": "@ + s.2) + nl(),
        SlotStatus::Completed => head + encode_utf8(" "@) + csi_green() + encode_utf8("v"@) + csi_reset()
            + encode_utf8(" "@ + s.0 + ": completed"@) + nl(),
        SlotStatus::Failed => head + encode_utf8(" "@) + csi_red() + encode_utf8("x"@) + csi_reset()
            + encode_utf8(" "@ + s.0 + ": failed"@) + nl(),
    }
}

/// The lines of the slots, in order.
pub open spec fn slot_lines(slots: Seq<SlotView>) -> Seq<u8>
    decreases slots.len(),
{
    if slots.len() == 0 {
        Seq::empty()
    } else {
        slot_lines(slots.drop_last()) + slot_line((slots.len() - 1) as nat, slots.last())
    }
}

/// A frame: back up over the previously drawn lines, then draw every slot.
pub open spec fn frame(drawn: nat, slots: Seq<SlotView>) -> Seq<u8> {
    repeated(csi_up(), drawn) + slot_lines(slots)
}

/// The first slot satisfying a predicate.
pub open spec fn first_slot(slots: Seq<SlotView>, p: spec_fn(SlotView) -> bool) -> Option<int>
    decreases slots.len(),
{
    if slots.len() == 0 {
        None
    } else {
        match first_slot(slots.drop_last(), p) {
            Some(i) => Some(i),
            None => if p(slots.last()) { Some(slots.len() - 1) } else { None },
        }
    }
}

/// Idle slots.
pub open spec fn is_idle() -> spec_fn(SlotView) -> bool {
    |s: SlotView| s.1 == SlotStatus::Idle
}

/// Slots running `id`.
pub open spec fn runs(id: Seq<char>) -> spec_fn(SlotView) -> bool {
    |s: SlotView| s.0 == id && s.1 == SlotStatus::Running
}

/// Slots showing `id`.
pub open spec fn shows(id: Seq<char>) -> spec_fn(SlotView) -> bool {
    |s: SlotView| s.0 == id
}

/// `cmd` shortened for display: a command longer than 40 bytes that has a
/// space shows only the last path component of its program, then ` ...`.
pub open spec fn truncated(cmd: Seq<char>) -> Seq<char> {
    if encode_utf8(cmd).len() > 40 {
        match find_from(cmd, 0, seq![' ']) {
            Some(sp) => last_component(cmd.take(sp)) + " ..."@,
            None => cmd,
        }
    } else {
        cmd
    }
}

/// The part of `s` after its last `/` or `\`.
pub open spec fn last_component(s: Seq<char>) -> Seq<char>
    decreases s.len(),
{
    if s.len() == 0 {
        s
    } else if s.last() == '/' || s.last() == '\\' {
        Seq::empty()
    } else {
        last_component(s.drop_last()).push(s.last())
    }
}

/// Appends bytes.
fn push_bytes(out: &mut Vec<u8>, b: &[u8])
    ensures
        final(out)@ == old(out)@ + b@,
{
    let mut i: usize = 0;
    while i < b.len()
        invariant
            i <= b@.len(),
            out@ == old(out)@ + b@.take(i as int),
        decreases b@.len() - i,
    {
        out.push(b[i]);
        assert(out@ =~= old(out)@ + b@.take(i + 1));
        i = i + 1;
    }
    assert(b@.take(b@.len() as int) == b@);
}

/// Appends the UTF-8 bytes of a string.
fn push_text(out: &mut Vec<u8>, s: &str)
    ensures
        final(out)@ == old(out)@ + encode_utf8(s@),
{
    push_bytes(out, s.as_bytes());
}

/// Tracks what every concurrency slot shows and renders the board.
#[derive(Debug)]
pub struct StatusBoard {
    max_concurrency: usize,
    slots: Vec<SlotState>,
    drawn_lines: usize,
}

impl StatusBoard {
    /// The slots, seen through their views.
    pub closed spec fn slots_view(&self) -> Seq<SlotView> {
        self.slots@.map_values(|s: SlotState| (s.node_id@, s.status, s.detail@))
    }

    /// How many lines the last frame drew.
    pub closed spec fn drawn(&self) -> nat {
        self.drawn_lines as nat
    }

    /// A board of `max_concurrency` idle slots, nothing drawn yet.
    pub fn new(max_concurrency: usize) -> (r: Self)
        ensures
            r.slots_view().len() == max_concurrency,
            forall|i: int| 0 <= i < max_concurrency ==> #[trigger] r.slots_view()[i] == (Seq::<char>::empty(), SlotStatus::Idle, Seq::<char>::empty()),
            r.drawn() == 0,
    {
        let mut slots: Vec<SlotState> = Vec::new();
        let mut i: usize = 0;
        while i < max_concurrency
            invariant
                i <= max_concurrency,
                slots@.len() == i,
                forall|j: int| 0 <= j < i ==> (#[trigger] slots@[j]).node_id@ == Seq::<char>::empty()
                    && slots@[j].status == SlotStatus::Idle && slots@[j].detail@ == Seq::<char>::empty(),
            decreases max_concurrency - i,
        {
            slots.push(SlotState { node_id: String::new(), status: SlotStatus::Idle, detail: String::new() });
            i = i + 1;
        }
        StatusBoard { max_concurrency, slots, drawn_lines: 0 }
    }

    /// The position of the first slot whose node is `node_id`, running
    /// (`running`) or in any status.
    fn find_slot(&self, node_id: &str, running: bool) -> (r: Option<usize>)
        ensures
            match first_slot(self.slots_view(), if running { runs(node_id@) } else { shows(node_id@) }) {
                Some(i) => r is Some && r->0 == i,
                None => r is None,
            },
            r is Some ==> r->0 < self.slots@.len(),
    {
        let ghost v = self.slots_view();
        let ghost p = if running { runs(node_id@) } else { shows(node_id@) };
        proof {
            lemma_first_slot(v, p);
        }
        let mut i: usize = 0;
        while i < self.slots.len()
            invariant
                i <= self.slots@.len(),
                v == self.slots_view(),
                p == (if running { runs(node_id@) } else { shows(node_id@) }),
                forall|j: int| 0 <= j < i ==> !p(#[trigger] v[j]),
                match first_slot(v, p) {
                    Some(x) => 0 <= x < v.len() && p(v[x]) && forall|j: int| 0 <= j < x ==> !p(v[j]),
                    None => forall|j: int| 0 <= j < v.len() ==> !p(v[j]),
                },
            decreases self.slots@.len() - i,
        {
            let s = &self.slots[i];
            assert(v[i as int] == (s.node_id@, s.status, s.detail@));
            let same = crate::graph::graph_def::str_eq(s.node_id.as_str(), node_id);
            if same && (!running || s.status == SlotStatus::Running) {
                return Some(i);
            }
            i = i + 1;
        }
        None
    }

    /// Put a node that starts running into the first idle slot (nothing
    /// changes when every slot is busy).
    pub fn start(&mut self, node_id: &str, command: &str)
        ensures
            final(self).drawn() == old(self).drawn(),
            final(self).slots_view() == match first_slot(old(self).slots_view(), is_idle()) {
                Some(i) => old(self).slots_view().update(i, (node_id@, SlotStatus::Running, Seq::<char>::empty())),
                None => old(self).slots_view(),
            },
    {
        let ghost v = self.slots_view();
        proof {
            lemma_first_slot(v, is_idle());
        }
        let mut i: usize = 0;
        while i < self.slots.len()
            invariant
                i <= self.slots@.len(),
                v == old(self).slots_view(),
                self.slots_view() == v,
                self.drawn() == old(self).drawn(),
                forall|j: int| 0 <= j < i ==> !(#[trigger] is_idle()(v[j])),
                match first_slot(v, is_idle()) {
                    Some(x) => 0 <= x < v.len() && is_idle()(v[x]) && forall|j: int| 0 <= j < x ==> !is_idle()(v[j]),
                    None => forall|j: int| 0 <= j < v.len() ==> !is_idle()(v[j]),
                },
            decreases self.slots@.len() - i,
        {
            assert(v[i as int] == (self.slots@[i as int].node_id@, self.slots@[i as int].status, self.slots@[i as int].detail@));
            if self.slots[i].status == SlotStatus::Idle {
                self.slots.set(i, SlotState { node_id: String::from_str(node_id), status: SlotStatus::Running, detail: String::new() });
                assert(self.slots_view() =~= v.update(i as int, (node_id@, SlotStatus::Running, Seq::<char>::empty())));
                return;
            }
            i = i + 1;
        }
    }

    /// Show a running node's latest output line (trimmed) and redraw; a
    /// blank line, or a node that runs in no slot, changes nothing.
    pub fn chunk(&mut self, node_id: &str, text: &str) -> (r: Option<Vec<u8>>)
        ensures
            match first_slot(old(self).slots_view(), runs(node_id@)) {
                Some(i) => if trim_seq(text@).len() > 0 {
                    &&& final(self).slots_view() == old(self).slots_view().update(
                        i, (old(self).slots_view()[i].0, old(self).slots_view()[i].1, trim_seq(text@)))
                    &&& r is Some && r->0@ == frame(old(self).drawn(), final(self).slots_view())
                    &&& final(self).drawn() == final(self).slots_view().len()
                } else {
                    r is None && final(self).slots_view() == old(self).slots_view() && final(self).drawn() == old(self).drawn()
                },
                None => r is None && final(self).slots_view() == old(self).slots_view() && final(self).drawn() == old(self).drawn(),
            },
    {
        match self.find_slot(node_id, true) {
            Some(i) => {
                let t = crate::text::to_chars(text);
                let trimmed = crate::text::trim_chars(&t);
                if trimmed.len() > 0 {
                    let ghost v = self.slots_view();
                    let detail = crate::text::string_of_chars(&trimmed);
                    let node = self.slots[i].node_id.clone();
                    let status = self.slots[i].status;
                    self.slots.set(i, SlotState { node_id: node, status, detail });
                    assert(self.slots_view() =~= v.update(i as int, (v[i as int].0, v[i as int].1, trim_seq(text@))));
                    Some(self.render())
                } else {
                    None
                }
            },
            None => None,
        }
    }

    /// Mark the first slot showing `node_id` with a final status and redraw.
    fn finish(&mut self, node_id: &str, status: SlotStatus) -> (r: Option<Vec<u8>>)
        ensures
            match first_slot(old(self).slots_view(), shows(node_id@)) {
                Some(i) => {
                    &&& final(self).slots_view() == old(self).slots_view().update(
                        i, (old(self).slots_view()[i].0, status, old(self).slots_view()[i].2))
                    &&& r is Some && r->0@ == frame(old(self).drawn(), final(self).slots_view())
                    &&& final(self).drawn() == final(self).slots_view().len()
                },
                None => r is None && final(self).slots_view() == old(self).slots_view() && final(self).drawn() == old(self).drawn(),
            },
    {
        match self.find_slot(node_id, false) {
            Some(i) => {
                let ghost v = self.slots_view();
                let node = self.slots[i].node_id.clone();
                let detail = self.slots[i].detail.clone();
                self.slots.set(i, SlotState { node_id: node, status, detail });
                assert(self.slots_view() =~= v.update(i as int, (v[i as int].0, status, v[i as int].2)));
                Some(self.render())
            },
            None => None,
        }
    }

    /// Mark a node completed and redraw.
    pub fn complete(&mut self, node_id: &str) -> (r: Option<Vec<u8>>)
        ensures
            match first_slot(old(self).slots_view(), shows(node_id@)) {
                Some(i) => {
                    &&& final(self).slots_view() == old(self).slots_view().update(
                        i, (old(self).slots_view()[i].0, SlotStatus::Completed, old(self).slots_view()[i].2))
                    &&& r is Some && r->0@ == frame(old(self).drawn(), final(self).slots_view())
                    &&& final(self).drawn() == final(self).slots_view().len()
                },
                None => r is None && final(self).slots_view() == old(self).slots_view() && final(self).drawn() == old(self).drawn(),
            },
    {
        self.finish(node_id, SlotStatus::Completed)
    }

    /// Mark a node failed and redraw.
    pub fn fail(&mut self, node_id: &str) -> (r: Option<Vec<u8>>)
        ensures
            match first_slot(old(self).slots_view(), shows(node_id@)) {
                Some(i) => {
                    &&& final(self).slots_view() == old(self).slots_view().update(
                        i, (old(self).slots_view()[i].0, SlotStatus::Failed, old(self).slots_view()[i].2))
                    &&& r is Some && r->0@ == frame(old(self).drawn(), final(self).slots_view())
                    &&& final(self).drawn() == final(self).slots_view().len()
                },
                None => r is None && final(self).slots_view() == old(self).slots_view() && final(self).drawn() == old(self).drawn(),
            },
    {
        self.finish(node_id, SlotStatus::Failed)
    }

    /// The frame that redraws the whole board; it becomes the last drawn.
    pub fn render(&mut self) -> (r: Vec<u8>)
        ensures
            r@ == frame(old(self).drawn(), old(self).slots_view()),
            final(self).slots_view() == old(self).slots_view(),
            final(self).drawn() == old(self).slots_view().len(),
    {
        let mut out: Vec<u8> = Vec::new();
        let up: [u8; 3] = [0x1b, 0x5b, 0x41];
        let mut k: usize = 0;
        while k < self.drawn_lines
            invariant
                k <= self.drawn_lines,
                up@ == csi_up(),
                out@ == repeated(csi_up(), k as nat),
            decreases self.drawn_lines - k,
        {
            push_bytes(&mut out, &up);
            k = k + 1;
        }
        let ghost v = self.slots_view();
        let mut i: usize = 0;
        while i < self.slots.len()
            invariant
                i <= self.slots@.len(),
                v == self.slots_view(),
                out@ == repeated(csi_up(), self.drawn_lines as nat) + slot_lines(v.take(i as int)),
            decreases self.slots@.len() - i,
        {
            let ghost before = out@;
            let s = &self.slots[i];
            assert(v[i as int] == (s.node_id@, s.status, s.detail@));
            self.push_line(&mut out, i, s);
            proof {
                assert(v.take(i + 1).drop_last() == v.take(i as int));
                assert(v.take(i + 1).last() == v[i as int]);
                assert(out@ =~= repeated(csi_up(), self.drawn_lines as nat) + slot_lines(v.take(i + 1)));
            }
            i = i + 1;
        }
        assert(v.take(v.len() as int) == v);
        self.drawn_lines = self.slots.len();
        out
    }

    /// Appends the line of slot `i`.
    fn push_line(&self, out: &mut Vec<u8>, i: usize, s: &SlotState)
        ensures
            final(out)@ == old(out)@ + slot_line(i as nat, (s.node_id@, s.status, s.detail@)),
    {
        let head_pre: [u8; 4] = [0x0d, 0x1b, 0x5b, 0x4b];
        push_bytes(out, &head_pre);
        let mut label = String::new();
        crate::text::push_char(&mut label, '[');
        let digits = decimal_string(i as u64);
        crate::text::push_str_chars(&mut label, digits.as_str());
        crate::text::push_char(&mut label, ']');
        push_text(out, label.as_str());
        let ghost head = cr() + csi_erase() + encode_utf8(seq!['['] + decimal(i as nat) + seq![']']);
        proof {
            assert(label@ =~= seq!['['] + decimal(i as nat) + seq![']']);
            assert(cr() + csi_erase() =~= head_pre@);
        }
        match s.status {
            SlotStatus::Idle => {
                push_text(out, " idle");
            },
            SlotStatus::Running => {
                push_text(out, " ");
                let blue: [u8; 5] = [0x1b, 0x5b, 0x39, 0x34, 0x6d];
                push_bytes(out, &blue);
                push_text(out, ">");
                let reset: [u8; 4] = [0x1b, 0x5b, 0x30, 0x6d];
                push_bytes(out, &reset);
                let mut t = String::new();
                crate::text::push_str_chars(&mut t, " ");
                crate::text::push_str_chars(&mut t, s.node_id.as_str());
                crate::text::push_str_chars(&mut t, ": ");
                crate::text::push_str_chars(&mut t, s.detail.as_str());
                assert(t@ =~= " "@ + s.node_id@ + ": "@ + s.detail@);
                push_text(out, t.as_str());
                assert(blue@ == csi_blue());
                assert(reset@ == csi_reset());
            },
            SlotStatus::Completed => {
                push_text(out, " ");
                let green: [u8; 5] = [0x1b, 0x5b, 0x39, 0x32, 0x6d];
                push_bytes(out, &green);
                push_text(out, "v");
                let reset: [u8; 4] = [0x1b, 0x5b, 0x30, 0x6d];
                push_bytes(out, &reset);
                let mut t = String::new();
                crate::text::push_str_chars(&mut t, " ");
                crate::text::push_str_chars(&mut t, s.node_id.as_str());
                crate::text::push_str_chars(&mut t, ": completed");
                assert(t@ =~= " "@ + s.node_id@ + ": completed"@);
                push_text(out, t.as_str());
                assert(green@ == csi_green());
                assert(reset@ == csi_reset());
            },
            SlotStatus::Failed => {
                push_text(out, " ");
                let red: [u8; 5] = [0x1b, 0x5b, 0x39, 0x31, 0x6d];
                push_bytes(out, &red);
                push_text(out, "x");
                let reset: [u8; 4] = [0x1b, 0x5b, 0x30, 0x6d];
                push_bytes(out, &reset);
                let mut t = String::new();
                crate::text::push_str_chars(&mut t, " ");
                crate::text::push_str_chars(&mut t, s.node_id.as_str());
                crate::text::push_str_chars(&mut t, ": failed");
                assert(t@ =~= " "@ + s.node_id@ + ": failed"@);
                push_text(out, t.as_str());
                assert(red@ == csi_red());
                assert(reset@ == csi_reset());
            },
        }
        let newline: [u8; 1] = [0x0a];
        push_bytes(out, &newline);
        assert(newline@ == nl());
        assert(final(out)@ =~= old(out)@ + slot_line(i as nat, (s.node_id@, s.status, s.detail@)));
    }

    /// The bytes that erase the last drawn frame (nothing when nothing was
    /// drawn).
    pub fn clear(&self) -> (r: Vec<u8>)
        ensures
            r@ == repeated(csi_up(), self.drawn()) + repeated(cr() + csi_erase() + nl(), self.drawn()),
    {
        let mut out: Vec<u8> = Vec::new();
        let up: [u8; 3] = [0x1b, 0x5b, 0x41];
        let blank: [u8; 5] = [0x0d, 0x1b, 0x5b, 0x4b, 0x0a];
        assert(up@ == csi_up());
        assert(blank@ =~= cr() + csi_erase() + nl());
        let mut k: usize = 0;
        while k < self.drawn_lines
            invariant
                k <= self.drawn_lines,
                up@ == csi_up(),
                out@ == repeated(csi_up(), k as nat),
            decreases self.drawn_lines - k,
        {
            push_bytes(&mut out, &up);
            k = k + 1;
        }
        let mut k: usize = 0;
        while k < self.drawn_lines
            invariant
                k <= self.drawn_lines,
                blank@ == cr() + csi_erase() + nl(),
                out@ == repeated(csi_up(), self.drawn_lines as nat) + repeated(cr() + csi_erase() + nl(), k as nat),
            decreases self.drawn_lines - k,
        {
            let ghost before = out@;
            push_bytes(&mut out, &blank);
            assert(out@ =~= repeated(csi_up(), self.drawn_lines as nat) + repeated(cr() + csi_erase() + nl(), (k + 1) as nat));
            k = k + 1;
        }
        assert(Seq::<u8>::empty() + repeated(csi_up(), self.drawn()) == repeated(csi_up(), self.drawn()));
        out
    }

    /// A command shortened for display.
    pub fn truncate_command(cmd: &str) -> (r: String)
        ensures
            r@ == truncated(cmd@),
    {
        let bytes = cmd.as_bytes();
        if bytes.len() > 40 {
            let c = crate::text::to_chars(cmd);
            let space: Vec<char> = vec![' '];
            assert(space@ == seq![' ']);
            proof {
                lemma_find_from(c@, 0, seq![' ']);
            }
            match crate::text::find_from_exec(&c, 0, &space) {
                Some(sp) => {
                    let mut start: usize = sp;
                    while start > 0 && c[start - 1] != '/' && c[start - 1] != '\\'
                        invariant
                            start <= sp < c@.len(),
                            last_component(c@.take(sp as int)) == last_component(c@.take(start as int)) + c@.subrange(start as int, sp as int),
                        decreases start,
                    {
                        proof {
                            let t = c@.take(start as int);
                            assert(t.drop_last() == c@.take(start - 1));
                            assert(t.last() == c@[start - 1]);
                            assert(c@.subrange(start - 1, sp as int) =~= seq![c@[start - 1]] + c@.subrange(start as int, sp as int));
                            assert(last_component(t) == last_component(c@.take(start - 1)).push(c@[start - 1]));
                        }
                        start = start - 1;
                    }
                    proof {
                        if start > 0 {
                            let t = c@.take(start as int);
                            assert(t.last() == c@[start - 1]);
                            assert(last_component(t) == Seq::<char>::empty());
                        } else {
                            assert(c@.take(0) == Seq::<char>::empty());
                        }
                    }
                    let mut r = crate::text::string_of_range(&c, start, sp);
                    crate::text::push_str_chars(&mut r, " ...");
                    assert(Seq::<char>::empty() + c@.subrange(start as int, sp as int) == c@.subrange(start as int, sp as int));
                    r
                },
                None => String::from_str(cmd),
            }
        } else {
            String::from_str(cmd)
        }
    }
}

/// `first_slot` finds the first slot satisfying the predicate.
pub proof fn lemma_first_slot(slots: Seq<SlotView>, p: spec_fn(SlotView) -> bool)
    ensures
        match first_slot(slots, p) {
            Some(x) => 0 <= x < slots.len() && p(slots[x]) && forall|j: int| 0 <= j < x ==> !p(slots[j]),
            None => forall|j: int| 0 <= j < slots.len() ==> !p(slots[j]),
        },
    decreases slots.len(),
{
    if slots.len() > 0 {
        let d = slots.drop_last();
        lemma_first_slot(d, p);
        assert forall|j: int| 0 <= j < d.len() implies d[j] == slots[j] by {}
    }
}

} // verus!
