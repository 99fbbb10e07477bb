//! Whether a body returns on every path: the checker's rule (any statement
//! of the block returns) and the code generator's (the last one does).

use vstd::prelude::*;
use crate::ast::{Block, BlockV, ExprV, Stmt, StmtKind, StmtKindV, StmtV, arms_v};
use crate::codegen_names::{block_always_returns_spec, lemma_arms_all, stmt_always_returns_spec};

verus! {

/// The checker's rule: some statement of the block returns.
pub open spec fn block_returns_spec(b: BlockV) -> bool
    decreases b, 2nat,
{
    stmts_return_spec(b.stmts)
}

pub open spec fn stmts_return_spec(s: Seq<StmtV>) -> bool
    decreases s, 1nat,
{
    if s.len() == 0 {
        false
    } else {
        stmts_return_spec(s.drop_last()) || stmt_returns_spec(s.last())
    }
}

/// A `return`, an `if` with an `else` whose every branch returns, or a scope that returns.
pub open spec fn stmt_returns_spec(s: StmtV) -> bool
    decreases s, 0nat,
{
    match s.kind {
        StmtKindV::Return(_) => true,
        StmtKindV::If { arms, else_block } => match else_block {
            Some(eb) => block_returns_spec(eb) && arms_return_spec(arms),
            None => false,
        },
        StmtKindV::Scope(b) => block_returns_spec(b),
        _ => false,
    }
}

pub open spec fn arms_return_spec(arms: Seq<(ExprV, BlockV)>) -> bool
    decreases arms, 0nat,
{
    if arms.len() == 0 {
        true
    } else {
        arms_return_spec(arms.drop_last()) && block_returns_spec(arms.last().1)
    }
}

/// Every arm returns exactly when each one does.
pub proof fn lemma_arms_return_all(arms: Seq<(ExprV, BlockV)>)
    ensures
        arms_return_spec(arms) <==> forall|j: int| 0 <= j < arms.len() ==> block_returns_spec(#[trigger] arms[j].1),
    decreases arms.len(),
{
    if arms.len() > 0 {
        lemma_arms_return_all(arms.drop_last());
        if arms_return_spec(arms) {
            assert forall|j: int| 0 <= j < arms.len() implies block_returns_spec(#[trigger] arms[j].1) by {
                if j < arms.len() - 1 {
                    assert(arms.drop_last()[j] == arms[j]);
                }
            }
        }
        if forall|j: int| 0 <= j < arms.len() ==> block_returns_spec(#[trigger] arms[j].1) {
            assert forall|j: int| 0 <= j < arms.drop_last().len() implies block_returns_spec(#[trigger] arms.drop_last()[j].1) by {
                assert(arms.drop_last()[j] == arms[j]);
            }
        }
    }
}

/// A statement list returns exactly when one of its statements does.
pub proof fn lemma_stmts_return_any(s: Seq<StmtV>)
    ensures
        stmts_return_spec(s) <==> exists|j: int| 0 <= j < s.len() && stmt_returns_spec(#[trigger] s[j]),
    decreases s.len(),
{
    if s.len() > 0 {
        lemma_stmts_return_any(s.drop_last());
        if stmts_return_spec(s.drop_last()) {
            let j = choose|j: int| 0 <= j < s.drop_last().len() && stmt_returns_spec(#[trigger] s.drop_last()[j]);
            assert(s[j] == s.drop_last()[j]);
        }
        if exists|j: int| 0 <= j < s.len() && stmt_returns_spec(#[trigger] s[j]) {
            let j = choose|j: int| 0 <= j < s.len() && stmt_returns_spec(#[trigger] s[j]);
            if j < s.len() - 1 {
                assert(s.drop_last()[j] == s[j]);
            }
        }
    }
}

/// Does the body return on every path (some statement certainly returns)?
pub fn block_returns(block: &Block) -> (r: bool)
    ensures
        r == block_returns_spec(block@),
    decreases block, 1nat,
{
    let mut i: usize = 0;
    while i < block.stmts.len()
        invariant
            i <= block.stmts@.len(),
            block@.stmts == crate::ast::stmts_v(block.stmts@),
            forall|j: int| 0 <= j < i ==> !stmt_returns_spec(#[trigger] block@.stmts[j]),
        decreases block.stmts@.len() - i,
    {
        assert(block@.stmts[i as int] == block.stmts@[i as int]@);
        if stmt_returns(&block.stmts[i]) {
            proof {
                lemma_stmts_return_any(block@.stmts);
            }
            return true;
        }
        i += 1;
    }
    proof {
        lemma_stmts_return_any(block@.stmts);
    }
    false
}

#[verifier::loop_isolation(false)]
pub fn stmt_returns(stmt: &Stmt) -> (r: bool)
    ensures
        r == stmt_returns_spec(stmt@),
    decreases stmt, 0nat,
{
    match &stmt.kind {
        StmtKind::Return(_) => true,
        StmtKind::If { arms, else_block } => {
            match else_block {
                Some(eb) => {
                    if !block_returns(eb) {
                        return false;
                    }
                },
                None => return false,
            }
            proof {
                lemma_arms_return_all(arms_v(arms@));
            }
            let mut i: usize = 0;
            while i < arms.len()
                invariant
                    i <= arms@.len(),
                    forall|j: int| 0 <= j < i ==> block_returns_spec(#[trigger] arms_v(arms@)[j].1),
                decreases arms@.len() - i,
            {
                assert(arms_v(arms@)[i as int].1 == arms@[i as int].1@);
                if !block_returns(&arms[i].1) {
                    return false;
                }
                i += 1;
            }
            true
        },
        StmtKind::Scope(b) => block_returns(b),
        _ => false,
    }
}

/// Does the statement hold a `try` anywhere inside it?
pub open spec fn stmt_has_try(s: StmtV) -> bool
    decreases s, 0nat,
{
    match s.kind {
        StmtKindV::TryCatch { .. } => true,
        StmtKindV::Scope(b) => block_has_try(b),
        StmtKindV::If { arms, else_block } => arms_have_try(arms) || match else_block {
            Some(eb) => block_has_try(eb),
            None => false,
        },
        StmtKindV::While { body, .. } => block_has_try(body),
        StmtKindV::ForC { body, .. } => block_has_try(body),
        StmtKindV::ForIn { body, .. } => block_has_try(body),
        _ => false,
    }
}

pub open spec fn block_has_try(b: BlockV) -> bool
    decreases b, 2nat,
{
    stmts_have_try(b.stmts)
}

pub open spec fn stmts_have_try(s: Seq<StmtV>) -> bool
    decreases s, 1nat,
{
    if s.len() == 0 { false } else { stmts_have_try(s.drop_last()) || stmt_has_try(s.last()) }
}

pub open spec fn arms_have_try(arms: Seq<(ExprV, BlockV)>) -> bool
    decreases arms, 0nat,
{
    if arms.len() == 0 { false } else { arms_have_try(arms.drop_last()) || block_has_try(arms.last().1) }
}

/// The code generator omits the trailing implicit return only where the
/// checker agrees the body returns: a try-free block that certainly returns
/// (its last statement does) returns by the checker's rule too.
pub proof fn lemma_always_returns_implies_returns(b: BlockV)
    requires
        !block_has_try(b),
        block_always_returns_spec(b),
    ensures
        block_returns_spec(b),
    decreases b, 2nat,
{
    let s = b.stmts;
    lemma_stmts_return_any(s);
    lemma_last_try_free(s);
    lemma_stmt_always_implies_returns(s.last());
    assert(stmt_returns_spec(s[s.len() - 1]));
}

proof fn lemma_last_try_free(s: Seq<StmtV>)
    requires
        s.len() > 0,
        !stmts_have_try(s),
    ensures
        !stmt_has_try(s.last()),
{
}

proof fn lemma_arms_try_free(arms: Seq<(ExprV, BlockV)>, j: int)
    requires
        0 <= j < arms.len(),
        !arms_have_try(arms),
    ensures
        !block_has_try(arms[j].1),
    decreases arms.len(),
{
    if j < arms.len() - 1 {
        assert(arms.drop_last()[j] == arms[j]);
        lemma_arms_try_free(arms.drop_last(), j);
    }
}

proof fn lemma_stmt_always_implies_returns(s: StmtV)
    requires
        !stmt_has_try(s),
        stmt_always_returns_spec(s),
    ensures
        stmt_returns_spec(s),
    decreases s, 1nat,
{
    match s.kind {
        StmtKindV::Scope(b) => {
            lemma_always_returns_implies_returns(b);
        },
        StmtKindV::If { arms, else_block } => {
            let eb = else_block->Some_0;
            lemma_always_returns_implies_returns(eb);
            lemma_arms_all(arms);
            lemma_arms_return_all(arms);
            assert forall|j: int| 0 <= j < arms.len() implies block_returns_spec(#[trigger] arms[j].1) by {
                lemma_arms_try_free(arms, j);
                assert(block_always_returns_spec(arms[j].1));
                lemma_always_returns_implies_returns(arms[j].1);
            }
        },
        _ => {},
    }
}

} // verus!
