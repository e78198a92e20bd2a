//! Loop nesting: what it means for brackets to match, and the single pass
//! that pairs them up.
//!
//! Everything is stated over the nesting depth, the number of loops opened
//! minus the number closed in a prefix of the code. A loop start matches the
//! first loop end after it that brings the depth back to where it stood.

use vstd::prelude::*;
use crate::instruction::RawInstruction;
use crate::token::{instructions, Token};

verus! {

/// What one instruction adds to the nesting depth.
pub open spec fn nesting_step(instruction: RawInstruction) -> int {
    match instruction {
        RawInstruction::StartLoop => 1,
        RawInstruction::EndLoop => -1,
        _ => 0,
    }
}

/// The nesting depth after the first `k` instructions.
pub open spec fn depth(code: Seq<RawInstruction>, k: int) -> int
    decreases k,
{
    if k <= 0 {
        0
    } else {
        depth(code, k - 1) + nesting_step(code[k - 1])
    }
}

/// No prefix of the first `k` instructions closes more loops than it opened.
pub open spec fn never_negative(code: Seq<RawInstruction>, k: int) -> bool {
    forall|h: int| 0 <= h <= k ==> depth(code, h) >= 0
}

/// Every loop end closes an open loop and no loop stays open.
pub open spec fn balanced(code: Seq<RawInstruction>) -> bool {
    &&& never_negative(code, code.len() as int)
    &&& depth(code, code.len() as int) == 0
}

/// The loop started at `open` is still open after the first `upto`
/// instructions.
pub open spec fn open_through(code: Seq<RawInstruction>, open: int, upto: int) -> bool {
    forall|k: int| open < k <= upto ==> depth(code, k) > depth(code, open)
}

/// The loop end at `close` is the one that closes the loop started at `open`.
pub open spec fn matched(code: Seq<RawInstruction>, open: int, close: int) -> bool {
    &&& 0 <= open < close < code.len()
    &&& code[open] == RawInstruction::StartLoop
    &&& code[close] == RawInstruction::EndLoop
    &&& open_through(code, open, close)
    &&& depth(code, close + 1) == depth(code, open)
}

/// The loop end at `at` has no loop to close, and it is the first such.
pub open spec fn stray_close(code: Seq<RawInstruction>, at: int) -> bool {
    &&& 0 <= at < code.len()
    &&& code[at] == RawInstruction::EndLoop
    &&& depth(code, at) == 0
    &&& never_negative(code, at)
}

/// The loop started at `at` is never closed.
pub open spec fn unclosed(code: Seq<RawInstruction>, at: int) -> bool {
    &&& 0 <= at < code.len()
    &&& code[at] == RawInstruction::StartLoop
    &&& open_through(code, at, code.len() as int)
}

/// No loop end is stray, and the loop started at `at` is the earliest that
/// is never closed.
pub open spec fn first_unclosed(code: Seq<RawInstruction>, at: int) -> bool {
    &&& never_negative(code, code.len() as int)
    &&& unclosed(code, at)
    &&& forall|h: int| 0 <= h < at ==> !unclosed(code, h)
}

/// The instruction at `at` is the one to report for unbalanced code: the
/// first stray loop end, or else the earliest loop start left unclosed.
pub open spec fn is_offender(code: Seq<RawInstruction>, at: int) -> bool {
    stray_close(code, at) || first_unclosed(code, at)
}

/// The index of the instruction to report for unbalanced code.
pub open spec fn offender(code: Seq<RawInstruction>) -> int {
    choose|at: int| is_offender(code, at)
}

/// Entry `i` of `jumps` is right for balanced code: a loop instruction is
/// linked to its partner, any other to itself.
pub open spec fn linked(code: Seq<RawInstruction>, jumps: Seq<usize>, i: int) -> bool {
    match code[i] {
        RawInstruction::StartLoop => matched(code, i, jumps[i] as int),
        RawInstruction::EndLoop => matched(code, jumps[i] as int, i),
        _ => jumps[i] == i,
    }
}

/// `jumps` links every loop instruction of `code` to its partner.
pub open spec fn resolves(code: Seq<RawInstruction>, jumps: Seq<usize>) -> bool {
    &&& jumps.len() == code.len()
    &&& forall|i: int| 0 <= i < code.len() ==> #[trigger] linked(code, jumps, i)
}

/// Entry `a` of `jumps` is right for as much as the first `upto`
/// instructions can tell: a loop start may still be open.
spec fn settled(code: Seq<RawInstruction>, jumps: Seq<usize>, a: int, upto: int) -> bool {
    match code[a] {
        RawInstruction::StartLoop => matched(code, a, jumps[a] as int) || open_through(
            code,
            a,
            upto,
        ),
        RawInstruction::EndLoop => matched(code, jumps[a] as int, a),
        _ => jumps[a] == a,
    }
}

/// The pending loop starts, innermost last: entry `t` sits at depth `t` and
/// is still open after the first `upto` instructions.
spec fn pending(code: Seq<RawInstruction>, stack: Seq<usize>, upto: int) -> bool {
    forall|t: int|
        0 <= t < stack.len() ==> {
            &&& 0 <= (#[trigger] stack[t]) < upto
            &&& code[stack[t] as int] == RawInstruction::StartLoop
            &&& depth(code, stack[t] as int) == t
            &&& open_through(code, stack[t] as int, upto)
        }
}

/// A loop start has at most one matching loop end.
pub proof fn lemma_close_unique(code: Seq<RawInstruction>, open: int, c1: int, c2: int)
    requires
        matched(code, open, c1),
        matched(code, open, c2),
    ensures
        c1 == c2,
{
    if c1 < c2 {
        assert(depth(code, c1 + 1) > depth(code, open));
    } else if c2 < c1 {
        assert(depth(code, c2 + 1) > depth(code, open));
    }
}

/// A loop end has at most one matching loop start.
pub proof fn lemma_open_unique(code: Seq<RawInstruction>, o1: int, o2: int, close: int)
    requires
        matched(code, o1, close),
        matched(code, o2, close),
    ensures
        o1 == o2,
{
    if o1 < o2 {
        assert(depth(code, o2) > depth(code, o1));
    } else if o2 < o1 {
        assert(depth(code, o1) > depth(code, o2));
    }
}

/// Loops never overlap: one that starts inside another ends inside it.
pub proof fn lemma_well_nested(code: Seq<RawInstruction>, o1: int, c1: int, o2: int, c2: int)
    requires
        matched(code, o1, c1),
        matched(code, o2, c2),
        o1 < o2 < c1,
    ensures
        c2 < c1,
{
    if c2 > c1 {
        assert(depth(code, o2) > depth(code, o1));
        assert(depth(code, c1 + 1) > depth(code, o2));
    }
}

/// Unbalanced code has exactly one instruction to report.
pub proof fn lemma_offender_unique(code: Seq<RawInstruction>, a: int, b: int)
    requires
        is_offender(code, a),
        is_offender(code, b),
    ensures
        a == b,
        offender(code) == a,
{
    assert forall|x: int, y: int| is_offender(code, x) && is_offender(code, y) && x < y implies false by {
        if stray_close(code, x) {
            assert(depth(code, x + 1) == -1);
            if first_unclosed(code, y) {
                assert(depth(code, x + 1) >= 0);
            }
        } else {
            if stray_close(code, y) {
                assert(depth(code, y) > depth(code, x));
                assert(depth(code, x) >= 0);
            }
        }
    }
}

/// Code with an instruction to report is not balanced.
pub proof fn lemma_offender_unbalanced(code: Seq<RawInstruction>, at: int)
    requires
        is_offender(code, at),
    ensures
        !balanced(code),
{
    if stray_close(code, at) {
        assert(depth(code, at + 1) == -1);
    } else {
        assert(depth(code, code.len() as int) > depth(code, at));
        assert(depth(code, at) >= 0);
    }
}

/// In a jump table of balanced code every jump leads back: following it
/// twice returns to where one stood.
pub proof fn lemma_jumps_involution(code: Seq<RawInstruction>, jumps: Seq<usize>, i: int)
    requires
        resolves(code, jumps),
        0 <= i < code.len(),
    ensures
        0 <= jumps[i] < code.len(),
        jumps[jumps[i] as int] == i,
        code[i] == RawInstruction::StartLoop ==> code[jumps[i] as int] == RawInstruction::EndLoop
            && i < jumps[i],
        code[i] == RawInstruction::EndLoop ==> code[jumps[i] as int] == RawInstruction::StartLoop
            && jumps[i] < i,
{
    assert(linked(code, jumps, i));
    let j = jumps[i] as int;
    match code[i] {
        RawInstruction::StartLoop => {
            assert(linked(code, jumps, j));
            lemma_open_unique(code, i, jumps[j] as int, j);
        },
        RawInstruction::EndLoop => {
            assert(linked(code, jumps, j));
            lemma_close_unique(code, j, i, jumps[j] as int);
        },
        _ => {},
    }
}

/// Balanced code has exactly one jump table.
pub proof fn lemma_jumps_unique(code: Seq<RawInstruction>, j1: Seq<usize>, j2: Seq<usize>)
    requires
        resolves(code, j1),
        resolves(code, j2),
    ensures
        j1 == j2,
{
    assert forall|i: int| 0 <= i < code.len() implies j1[i] == j2[i] by {
        assert(linked(code, j1, i));
        assert(linked(code, j2, i));
        match code[i] {
            RawInstruction::StartLoop => {
                lemma_close_unique(code, i, j1[i] as int, j2[i] as int);
            },
            RawInstruction::EndLoop => {
                lemma_open_unique(code, j1[i] as int, j2[i] as int, i);
            },
            _ => {},
        }
    }
    assert(j1 =~= j2);
}

/// Pairs up the loop instructions of `tokens` in one pass with a stack of
/// pending loop starts.
///
/// For balanced code the result is the jump table: entry `i` holds the index
/// of the partner of loop instruction `i`, and `i` itself for any other
/// instruction. Otherwise it is the index of the token to report.
pub fn resolve_loops(tokens: &[Token]) -> (r: Result<Vec<usize>, usize>)
    ensures
        r is Ok <==> balanced(instructions(tokens@)),
        r matches Ok(jumps) ==> resolves(instructions(tokens@), jumps@),
        r matches Err(at) ==> is_offender(instructions(tokens@), at as int),
{
    let ghost code = instructions(tokens@);
    let n = tokens.len();
    let mut jumps: Vec<usize> = Vec::new();
    let mut stack: Vec<usize> = Vec::new();
    let mut i: usize = 0;
    while i < n
        invariant
            code == instructions(tokens@),
            n == tokens@.len(),
            i <= n,
            jumps@.len() == i,
            never_negative(code, i as int),
            depth(code, i as int) == stack@.len(),
            pending(code, stack@, i as int),
            forall|a: int| 0 <= a < i ==> #[trigger] settled(code, jumps@, a, i as int),
        decreases n - i,
    {
        let ghost before = jumps@;
        let ghost m = stack@.len() as int;
        match tokens[i].instruction {
            RawInstruction::StartLoop => {
                stack.push(i);
                jumps.push(i);
                proof {
                    assert forall|a: int| 0 <= a < i + 1 implies #[trigger] settled(
                        code,
                        jumps@,
                        a,
                        i + 1,
                    ) by {
                        if a < i {
                            assert(settled(code, before, a, i as int));
                        }
                    }
                }
            },
            RawInstruction::EndLoop => {
                match stack.pop() {
                    None => {
                        proof {
                            assert(stray_close(code, i as int));
                            lemma_offender_unbalanced(code, i as int);
                        }
                        return Err(i);
                    },
                    Some(open) => {
                        jumps.set(open, i);
                        jumps.push(open);
                        proof {
                            assert(depth(code, open as int) == m - 1);
                            assert(matched(code, open as int, i as int));
                            assert forall|a: int| 0 <= a < i + 1 implies #[trigger] settled(
                                code,
                                jumps@,
                                a,
                                i + 1,
                            ) by {
                                if a < i && a != open {
                                    assert(settled(code, before, a, i as int));
                                    if code[a] == RawInstruction::StartLoop && !matched(
                                        code,
                                        a,
                                        before[a] as int,
                                    ) {
                                        assert(depth(code, i as int) > depth(code, a));
                                        if a < open {
                                            assert(depth(code, open as int) > depth(code, a));
                                        } else {
                                            assert(depth(code, a) > depth(code, open as int));
                                        }
                                    }
                                }
                            }
                        }
                    },
                }
            },
            _ => {
                jumps.push(i);
                proof {
                    assert forall|a: int| 0 <= a < i + 1 implies #[trigger] settled(
                        code,
                        jumps@,
                        a,
                        i + 1,
                    ) by {
                        if a < i {
                            assert(settled(code, before, a, i as int));
                        }
                    }
                }
            },
        }
        i += 1;
    }
    if stack.len() > 0 {
        let first = stack[0];
        proof {
            assert(unclosed(code, first as int));
            assert forall|h: int| 0 <= h < first implies !unclosed(code, h) by {
                if unclosed(code, h) {
                    assert(depth(code, first as int) > depth(code, h));
                    assert(depth(code, h) >= 0);
                }
            }
            assert(first_unclosed(code, first as int));
            lemma_offender_unbalanced(code, first as int);
        }
        return Err(first);
    }
    proof {
        assert forall|a: int| 0 <= a < code.len() implies #[trigger] linked(code, jumps@, a) by {
            assert(settled(code, jumps@, a, n as int));
            if code[a] == RawInstruction::StartLoop && open_through(code, a, n as int) {
                assert(depth(code, n as int) > depth(code, a));
                assert(depth(code, a) >= 0);
            }
        }
    }
    Ok(jumps)
}

} // verus!
