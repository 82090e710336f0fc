//! The mathematical model of the jump resolver: a single left-to-right scan of
//! the program bytes that pairs matched brackets and records, for each bracket
//! offset, the offset execution continues at when the bracket is taken.
//!
//! The open bracket's target is the position one past its matching close
//! bracket, and the close bracket's target is the position one past its
//! matching open bracket; neither target is the partner offset itself, so that
//! an execution engine whose program counter has already advanced past the
//! dispatched bracket can overwrite the counter with the stored target
//! directly.

use vstd::prelude::*;

use crate::opcode::{JUMP_BCK, JUMP_FWD};

verus! {

/// Whether a byte is one of the two bracket instructions.
pub open spec fn is_bracket(b: u8) -> bool {
    b == JUMP_FWD || b == JUMP_BCK
}

/// The state of the resolver's scan after reading the first `n` bytes of
/// `code`: the stack of still-open bracket offsets and the jump entries
/// recorded so far, or `None` once a close bracket with no matching open has
/// been seen.
pub open spec fn scan(code: Seq<u8>, n: int) -> Option<(Seq<usize>, Map<usize, usize>)>
    decreases n,
{
    if n <= 0 {
        Some((Seq::empty(), Map::empty()))
    } else {
        match scan(code, n - 1) {
            None => None,
            Some(st) => {
                let stack = st.0;
                let m = st.1;
                let b = code[n - 1];
                if b == JUMP_FWD {
                    Some((stack.push((n - 1) as usize), m))
                } else if b == JUMP_BCK {
                    if stack.len() == 0 {
                        None
                    } else {
                        Some(
                            (
                                stack.drop_last(),
                                m.insert(stack.last(), n as usize).insert(
                                    (n - 1) as usize,
                                    (stack.last() + 1) as usize,
                                ),
                            ),
                        )
                    }
                } else {
                    Some((stack, m))
                }
            },
        }
    }
}

/// The complete jump mapping for the first `n` bytes of `code`, or `None` if
/// the brackets in that prefix are unbalanced (a close with no matching open,
/// or an open that is never closed).
pub open spec fn jump_map(code: Seq<u8>, n: int) -> Option<Map<usize, usize>> {
    match scan(code, n) {
        None => None,
        Some(st) => if st.0.len() == 0 {
            Some(st.1)
        } else {
            None
        },
    }
}

/// Whether `jumps` has an entry for every bracket instruction among the first
/// `n` bytes of `code`.
pub open spec fn covered(code: Seq<u8>, n: int, jumps: Map<usize, usize>) -> bool {
    forall|i: usize| i < n && is_bracket(code[i as int]) ==> #[trigger] jumps.dom().contains(i)
}

/// A failed scan stays failed: once a close bracket with no matching open has
/// been seen, no longer prefix resolves.
pub proof fn lemma_scan_none_persists(code: Seq<u8>, i: int, n: int)
    requires
        0 <= i <= n,
        scan(code, i) is None,
    ensures
        scan(code, n) is None,
    decreases n - i,
{
    if n > i {
        lemma_scan_none_persists(code, i, n - 1);
    }
}

/// Invariants of the resolver's scan: the stack holds offsets of open
/// brackets in the scanned prefix, every recorded entry is keyed by a bracket
/// offset in the prefix and targets a position within one past the prefix,
/// and every bracket offset in the prefix is either recorded or still on the
/// stack.
pub proof fn lemma_scan_props(code: Seq<u8>, n: int, stack: Seq<usize>, m: Map<usize, usize>)
    requires
        0 <= n <= code.len(),
        n <= usize::MAX,
        scan(code, n) == Some((stack, m)),
    ensures
        forall|j: int|
            0 <= j < stack.len() ==> (#[trigger] stack[j]) < n && code[stack[j] as int]
                == JUMP_FWD,
        forall|k: usize|
            #[trigger] m.dom().contains(k) ==> k < n && 1 <= m[k] <= n && is_bracket(
                code[k as int],
            ),
        forall|i: usize| i < n && is_bracket(code[i as int]) ==> m.dom().contains(i)
            || stack.contains(i),
    decreases n,
{
    if n > 0 {
        match scan(code, n - 1) {
            None => {
                assert(false);
            },
            Some(st) => {
                let stack0 = st.0;
                let m0 = st.1;
                lemma_scan_props(code, n - 1, stack0, m0);
                let b = code[n - 1];
                if b == JUMP_FWD {
                    assert(stack == stack0.push((n - 1) as usize));
                    assert forall|i: usize| i < n && is_bracket(code[i as int]) implies m
                        .dom()
                        .contains(i) || stack.contains(i) by {
                        if i < n - 1 {
                            if stack0.contains(i) {
                                let j = choose|j: int|
                                    0 <= j < stack0.len() && stack0[j] == i;
                                assert(stack[j] == i);
                            }
                        } else {
                            assert(stack[stack0.len() as int] == i);
                        }
                    }
                } else if b == JUMP_BCK {
                    assert(stack0.len() > 0);
                    let open = stack0.last();
                    assert(stack == stack0.drop_last());
                    assert(m == m0.insert(open, n as usize).insert(
                        (n - 1) as usize,
                        (open + 1) as usize,
                    ));
                    assert(stack0[stack0.len() - 1] == open);
                    assert(open < n - 1 && code[open as int] == JUMP_FWD);
                    assert forall|i: usize| i < n && is_bracket(code[i as int]) implies m
                        .dom()
                        .contains(i) || stack.contains(i) by {
                        if i < n - 1 {
                            if !m0.dom().contains(i) && stack0.contains(i) {
                                let j = choose|j: int|
                                    0 <= j < stack0.len() && stack0[j] == i;
                                if j < stack0.len() - 1 {
                                    assert(stack[j] == i);
                                } else {
                                    assert(i == open);
                                }
                            }
                        }
                    }
                } else {
                    assert(stack == stack0);
                    assert(m == m0);
                }
            },
        }
    }
}

/// A complete jump mapping covers every bracket in the resolved prefix, and
/// every entry is keyed by a bracket offset and targets a position within one
/// past the prefix.
pub proof fn lemma_jump_map_covers(code: Seq<u8>, n: int, m: Map<usize, usize>)
    requires
        0 <= n <= code.len(),
        n <= usize::MAX,
        jump_map(code, n) == Some(m),
    ensures
        covered(code, n, m),
        forall|k: usize|
            #[trigger] m.dom().contains(k) ==> k < n && 1 <= m[k] <= n && is_bracket(
                code[k as int],
            ),
{
    match scan(code, n) {
        None => {
            assert(false);
        },
        Some(st) => {
            lemma_scan_props(code, n, st.0, st.1);
            assert forall|i: usize| i < n && is_bracket(code[i as int]) implies m
                .dom()
                .contains(i) by {
                assert(m.dom().contains(i) || st.0.contains(i));
            }
        },
    }
}

/// The jump mapping is a pure function of the program bytes: re-deriving it
/// from equal programs yields identical mappings.
pub proof fn lemma_jump_map_deterministic(c1: Seq<u8>, c2: Seq<u8>, n: int)
    requires
        c1 == c2,
    ensures
        jump_map(c1, n) == jump_map(c2, n),
{
}

} // verus!
