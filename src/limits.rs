//! Bounds on a text that keep yaml_rust's recursive tree building, and the
//! conversion of its result, within a thread's stack.
//!
//! yaml_rust nests one call per open collection. A block collection opens at
//! a column greater than that of the one around it (a sequence written at its
//! key's column adds at most one more per level), so lines of at most
//! `MAX_LINE_CHARS` characters bound the block nesting to about twice that;
//! each flow collection opens at a `[` or `{`. A copy made for an alias needs an anchor (`&`) and
//! an alias (`*`), and a text without one of the two makes none.

use vstd::prelude::*;

verus! {

pub const MAX_LINE_CHARS: usize = 120;

pub const MAX_FLOW_OPENERS: usize = 64;

/// How many characters follow the last line break of `s`.
pub open spec fn current_run(s: Seq<char>) -> nat
    decreases s.len(),
{
    if s.len() == 0 {
        0
    } else if s.last() == '\n' {
        0
    } else {
        current_run(s.drop_last()) + 1
    }
}

/// Whether no line of `s` is longer than `max` characters.
pub open spec fn lines_within(s: Seq<char>, max: nat) -> bool
    decreases s.len(),
{
    s.len() == 0 || (lines_within(s.drop_last(), max) && current_run(s) <= max)
}

/// How many times `c` occurs in `s`.
pub open spec fn count_char(s: Seq<char>, c: char) -> nat
    decreases s.len(),
{
    if s.len() == 0 {
        0
    } else {
        count_char(s.drop_last(), c) + if s.last() == c {
            1nat
        } else {
            0nat
        }
    }
}

/// Whether the parser may be given `text`.
pub open spec fn within_limits(text: Seq<char>) -> bool {
    &&& lines_within(text, MAX_LINE_CHARS as nat)
    &&& count_char(text, '[') + count_char(text, '{') <= MAX_FLOW_OPENERS
    &&& (count_char(text, '&') == 0 || count_char(text, '*') == 0)
}

spec fn capped(n: nat, cap: nat) -> nat {
    if n > cap {
        cap
    } else {
        n
    }
}

/// Decides `within_limits` in one pass over the characters.
pub fn fits_parser_limits(text: &str) -> (r: bool)
    ensures
        r == within_limits(text@),
{
    broadcast use vstd::string::axiom_spec_iter;

    let ghost mut seen: Seq<char> = Seq::empty();
    let mut run: usize = 0;
    let mut lines_ok = true;
    let mut flow: usize = 0;
    let mut anchors = false;
    let mut aliases = false;
    for c in it: text.chars()
        invariant
            seen == it.seq().take(it.index()),
            it.seq() == text@,
            run as nat == capped(current_run(seen), MAX_LINE_CHARS as nat + 1),
            lines_ok == lines_within(seen, MAX_LINE_CHARS as nat),
            flow as nat == capped(
                count_char(seen, '[') + count_char(seen, '{'),
                MAX_FLOW_OPENERS as nat + 1,
            ),
            anchors == (count_char(seen, '&') > 0),
            aliases == (count_char(seen, '*') > 0),
    {
        proof {
            let next = seen.push(c);
            assert(next.drop_last() =~= seen);
            seen = next;
        }
        if c == '\n' {
            run = 0;
        } else if run <= MAX_LINE_CHARS {
            run = run + 1;
        }
        lines_ok = lines_ok && run <= MAX_LINE_CHARS;
        if (c == '[' || c == '{') && flow <= MAX_FLOW_OPENERS {
            flow = flow + 1;
        }
        anchors = anchors || c == '&';
        aliases = aliases || c == '*';
    }
    assert(seen =~= text@);
    lines_ok && flow <= MAX_FLOW_OPENERS && !(anchors && aliases)
}

} // verus!
