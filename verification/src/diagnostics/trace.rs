//! Trace IDs: one per workflow run, carried by every event of the run.

use vstd::prelude::*;

use crate::text::push_char;

verus! {

/// A lower-case hexadecimal digit.
pub open spec fn hex_digit(d: nat) -> char {
    if d < 10 {
        ((d + 48) as u8) as char
    } else {
        ((d - 10 + 97) as u8) as char
    }
}

/// The last `count` hexadecimal digits of `n`, zero-padded.
pub open spec fn hex_fixed(n: nat, count: nat) -> Seq<char>
    decreases count,
{
    if count == 0 {
        Seq::empty()
    } else {
        hex_fixed(n / 16, (count - 1) as nat).push(hex_digit(n % 16))
    }
}

/// An identifier of one workflow run.
#[derive(Debug, Clone, Copy, PartialEq, Eq, Hash, Structural)]
pub struct TraceId(u64);

impl TraceId {
    /// The number of the run.
    pub closed spec fn value(&self) -> u64 {
        self.0
    }

    /// The trace ID with the given number.
    pub fn new(n: u64) -> (r: Self)
        ensures
            r.value() == n,
    {
        TraceId(n)
    }

    /// The number of the run.
    pub fn get(&self) -> (n: u64)
        ensures
            n == self.value(),
    {
        self.0
    }

    /// The ID as text: `trace-` and 16 lower-case hexadecimal digits.
    pub fn display_text(&self) -> (s: String)
        ensures
            s@ == seq!['t', 'r', 'a', 'c', 'e', '-'] + hex_fixed(self.value() as nat, 16),
    {
        let mut s = String::new();
        push_char(&mut s, 't');
        push_char(&mut s, 'r');
        push_char(&mut s, 'a');
        push_char(&mut s, 'c');
        push_char(&mut s, 'e');
        push_char(&mut s, '-');
        let digits = hex_string(self.0, 16);
        crate::text::push_str_chars(&mut s, digits.as_str());
        assert(s@ =~= seq!['t', 'r', 'a', 'c', 'e', '-'] + hex_fixed(self.value() as nat, 16));
        s
    }
}

/// The last `count` hexadecimal digits of `n`, zero-padded.
fn hex_string(n: u64, count: u8) -> (s: String)
    ensures
        s@ == hex_fixed(n as nat, count as nat),
    decreases count,
{
    if count == 0 {
        String::new()
    } else {
        let mut s = hex_string(n / 16, count - 1);
        let d = n % 16;
        let c: char = if d < 10 {
            ((d + 48) as u8) as char
        } else {
            ((d - 10 + 97) as u8) as char
        };
        push_char(&mut s, c);
        s
    }
}

} // verus!
