//! Outcomes of the Datalog evaluation stage: aggregation of failed checks,
//! first-match-wins policy resolution, resource limits, and the reserved-tag
//! rules for facts and rules. The engine's fixpoint computation is an
//! external collaborator; this module fixes what its outcomes must report.

use vstd::prelude::*;

use crate::errors::FailedBlockCheck;
use crate::errors::FailedCheck;
use crate::errors::FailedVerifierCheck;
use crate::errors::Logic;
use crate::errors::RunLimit;
use crate::errors::Token;

verus! {

/// The evaluated outcome of one declared check: whether it held against the
/// final fact set, and the pretty print of its rule for diagnosis.
#[derive(Clone, Debug, PartialEq, Eq)]
pub struct CheckOutcome {
    /// Whether the check produced at least one result.
    pub holds: bool,
    /// pretty print of the check's rule
    pub rule: String,
}

/// The checks of a list of blocks, each block's checks in declared order.
pub open spec fn check_matrix(blocks: Seq<Vec<CheckOutcome>>) -> Seq<Seq<CheckOutcome>> {
    blocks.map_values(|b: Vec<CheckOutcome>| b@)
}

/// The failures among one block's checks, in declared order, each tagged
/// with the block's position and its own.
pub open spec fn failures_in_block(block_id: int, checks: Seq<CheckOutcome>) -> Seq<FailedCheck>
    decreases checks.len(),
{
    if checks.len() == 0 {
        Seq::empty()
    } else {
        failures_in_block(block_id, checks.drop_last()) + (if checks.last().holds {
            Seq::<FailedCheck>::empty()
        } else {
            seq![
                FailedCheck::Block(
                    FailedBlockCheck {
                        block_id: block_id as u32,
                        check_id: (checks.len() - 1) as u32,
                        rule: checks.last().rule,
                    },
                ),
            ]
        })
    }
}

/// The failures among all blocks' checks, in block order.
pub open spec fn block_failures(blocks: Seq<Seq<CheckOutcome>>) -> Seq<FailedCheck>
    decreases blocks.len(),
{
    if blocks.len() == 0 {
        Seq::empty()
    } else {
        block_failures(blocks.drop_last()) + failures_in_block(
            blocks.len() - 1,
            blocks.last(),
        )
    }
}

/// The failures among the verifier's own checks, in declared order.
pub open spec fn verifier_failures(checks: Seq<CheckOutcome>) -> Seq<FailedCheck>
    decreases checks.len(),
{
    if checks.len() == 0 {
        Seq::empty()
    } else {
        verifier_failures(checks.drop_last()) + (if checks.last().holds {
            Seq::<FailedCheck>::empty()
        } else {
            seq![
                FailedCheck::Verifier(
                    FailedVerifierCheck {
                        check_id: (checks.len() - 1) as u32,
                        rule: checks.last().rule,
                    },
                ),
            ]
        })
    }
}

/// Every failing check of an evaluation, block checks first in block order,
/// then the verifier's, each list in declared order.
pub open spec fn all_check_failures(
    blocks: Seq<Seq<CheckOutcome>>,
    verifier: Seq<CheckOutcome>,
) -> Seq<FailedCheck> {
    block_failures(blocks) + verifier_failures(verifier)
}

proof fn lemma_failures_in_block_take_step(block_id: int, checks: Seq<CheckOutcome>, n: int)
    requires
        0 <= n < checks.len(),
    ensures
        failures_in_block(block_id, checks.take(n + 1)) == failures_in_block(
            block_id,
            checks.take(n),
        ) + (if checks[n].holds {
            Seq::<FailedCheck>::empty()
        } else {
            seq![
                FailedCheck::Block(
                    FailedBlockCheck {
                        block_id: block_id as u32,
                        check_id: n as u32,
                        rule: checks[n].rule,
                    },
                ),
            ]
        }),
{
    assert(checks.take(n + 1).drop_last() =~= checks.take(n));
    assert(checks.take(n + 1).last() == checks[n]);
}

proof fn lemma_block_failures_take_step(blocks: Seq<Seq<CheckOutcome>>, n: int)
    requires
        0 <= n < blocks.len(),
    ensures
        block_failures(blocks.take(n + 1)) == block_failures(blocks.take(n)) + failures_in_block(
            n,
            blocks[n],
        ),
{
    assert(blocks.take(n + 1).drop_last() =~= blocks.take(n));
    assert(blocks.take(n + 1).last() == blocks[n]);
}

proof fn lemma_verifier_failures_take_step(checks: Seq<CheckOutcome>, n: int)
    requires
        0 <= n < checks.len(),
    ensures
        verifier_failures(checks.take(n + 1)) == verifier_failures(checks.take(n)) + (if checks[
            n
        ].holds {
            Seq::<FailedCheck>::empty()
        } else {
            seq![
                FailedCheck::Verifier(
                    (FailedVerifierCheck { check_id: n as u32, rule: checks[n].rule }),
                ),
            ]
        }),
{
    assert(checks.take(n + 1).drop_last() =~= checks.take(n));
    assert(checks.take(n + 1).last() == checks[n]);
}

/// Every entry of a block's failure report is a block check of that block,
/// at a position within the declared list.
proof fn lemma_failures_in_block_elements(block_id: int, checks: Seq<CheckOutcome>, k: int)
    requires
        0 <= k < failures_in_block(block_id, checks).len(),
    ensures
        failures_in_block(block_id, checks)[k] matches FailedCheck::Block(c) && c.block_id
            == block_id as u32 && c.check_id < checks.len(),
        checks.len() <= u32::MAX ==> (failures_in_block(block_id, checks)[k]
            matches FailedCheck::Block(c) && !checks[c.check_id as int].holds),
    decreases checks.len(),
{
    let prefix = failures_in_block(block_id, checks.drop_last());
    if k < prefix.len() {
        lemma_failures_in_block_elements(block_id, checks.drop_last(), k);
    }
}

/// Failed checks keep declared order: within one block's failure report,
/// check positions strictly increase — the list is never reordered.
pub proof fn lemma_failures_in_block_ordered(
    block_id: int,
    checks: Seq<CheckOutcome>,
    i: int,
    j: int,
)
    requires
        checks.len() <= u32::MAX,
        0 <= i < j < failures_in_block(block_id, checks).len(),
    ensures
        failures_in_block(block_id, checks)[i].spec_check_id() < failures_in_block(
            block_id,
            checks,
        )[j].spec_check_id(),
    decreases checks.len(),
{
    let prefix = failures_in_block(block_id, checks.drop_last());
    if j < prefix.len() {
        lemma_failures_in_block_ordered(block_id, checks.drop_last(), i, j);
    } else {
        lemma_failures_in_block_elements(block_id, checks.drop_last(), i);
    }
}

/// Every entry of the blocks' failure report is a block check of one of the
/// blocks, at a position within that block's declared list.
proof fn lemma_block_failures_elements(blocks: Seq<Seq<CheckOutcome>>, k: int)
    requires
        blocks.len() <= u32::MAX,
        0 <= k < block_failures(blocks).len(),
    ensures
        block_failures(blocks)[k] matches FailedCheck::Block(c) && c.block_id < blocks.len()
            && c.check_id < blocks[c.block_id as int].len(),
    decreases blocks.len(),
{
    let prefix = block_failures(blocks.drop_last());
    if k < prefix.len() {
        lemma_block_failures_elements(blocks.drop_last(), k);
        let c = block_failures(blocks)[k]->Block_0;
        assert(blocks.drop_last()[c.block_id as int] == blocks[c.block_id as int]);
    } else {
        lemma_failures_in_block_elements(blocks.len() - 1, blocks.last(), k - prefix.len());
    }
}

/// Failed checks keep declared order across the whole token: in the blocks'
/// failure report, block positions never decrease, and within one block the
/// check positions strictly increase — the list is never reordered.
pub proof fn lemma_block_failures_ordered(blocks: Seq<Seq<CheckOutcome>>, i: int, j: int)
    requires
        blocks.len() <= u32::MAX,
        forall|b: int| 0 <= b < blocks.len() ==> (#[trigger] blocks[b]).len() <= u32::MAX,
        0 <= i < j < block_failures(blocks).len(),
    ensures
        block_failures(blocks)[i] matches FailedCheck::Block(a) && (block_failures(blocks)[j]
            matches FailedCheck::Block(b) && (a.block_id < b.block_id || (a.block_id == b.block_id
            && a.check_id < b.check_id))),
    decreases blocks.len(),
{
    let prefix = block_failures(blocks.drop_last());
    let last_id = blocks.len() - 1;
    let suffix = failures_in_block(last_id, blocks.last());
    assert(block_failures(blocks) == prefix + suffix);
    if j < prefix.len() {
        assert(forall|b: int|
            0 <= b < blocks.drop_last().len() ==> (#[trigger] blocks.drop_last()[b]) == blocks[b]);
        lemma_block_failures_ordered(blocks.drop_last(), i, j);
        assert(block_failures(blocks)[i] == prefix[i]);
        assert(block_failures(blocks)[j] == prefix[j]);
    } else if i < prefix.len() {
        lemma_block_failures_elements(blocks.drop_last(), i);
        assert(block_failures(blocks)[i] == prefix[i]);
        assert(block_failures(blocks)[j] == suffix[j - prefix.len()]);
        let a = block_failures(blocks)[i]->Block_0;
        assert(a.block_id < last_id);
        lemma_failures_in_block_elements(last_id, blocks.last(), j - prefix.len());
    } else {
        assert(block_failures(blocks)[i] == suffix[i - prefix.len()]);
        assert(block_failures(blocks)[j] == suffix[j - prefix.len()]);
        lemma_failures_in_block_elements(last_id, blocks.last(), i - prefix.len());
        lemma_failures_in_block_elements(last_id, blocks.last(), j - prefix.len());
        lemma_failures_in_block_ordered(last_id, blocks.last(), i - prefix.len(), j - prefix.len());
    }
}

/// Evaluate every declared check of a run: the blocks' checks in block
/// order, then the verifier's, in declared order within each list. The one
/// deliberate exception to fail-fast: all failures are collected in a single
/// pass, never just the first, and never reordered. A run with no failure
/// succeeds; otherwise the non-empty failure list is reported.
pub fn evaluate_checks(
    block_checks: &Vec<Vec<CheckOutcome>>,
    verifier_checks: &Vec<CheckOutcome>,
) -> (r: Result<(), Token>)
    requires
        block_checks@.len() <= u32::MAX,
        forall|b: int|
            0 <= b < block_checks@.len() ==> (#[trigger] block_checks@[b])@.len() <= u32::MAX,
        verifier_checks@.len() <= u32::MAX,
    ensures
        r is Ok <==> all_check_failures(check_matrix(block_checks@), verifier_checks@).len() == 0,
        r matches Err(e) ==> (e matches Token::FailedLogic(l) && l matches Logic::FailedChecks(v)
            && v@ == all_check_failures(check_matrix(block_checks@), verifier_checks@) && l.wf()),
{
    let ghost matrix = check_matrix(block_checks@);
    let mut failures: Vec<FailedCheck> = Vec::new();
    let mut bi: usize = 0;
    proof {
        assert(matrix.take(0) =~= Seq::<Seq<CheckOutcome>>::empty());
    }
    while bi < block_checks.len()
        invariant
            0 <= bi <= block_checks@.len(),
            block_checks@.len() <= u32::MAX,
            forall|b: int|
                0 <= b < block_checks@.len() ==> (#[trigger] block_checks@[b])@.len() <= u32::MAX,
            matrix == check_matrix(block_checks@),
            failures@ == block_failures(matrix.take(bi as int)),
        decreases block_checks@.len() - bi,
    {
        let mut ci: usize = 0;
        proof {
            assert(matrix[bi as int] == block_checks@[bi as int]@);
            assert(matrix[bi as int].take(0) =~= Seq::<CheckOutcome>::empty());
        }
        while ci < block_checks[bi].len()
            invariant
                0 <= bi < block_checks@.len(),
                0 <= ci <= matrix[bi as int].len(),
                block_checks@.len() <= u32::MAX,
                matrix[bi as int].len() <= u32::MAX,
                matrix == check_matrix(block_checks@),
                matrix[bi as int] == block_checks@[bi as int]@,
                failures@ == block_failures(matrix.take(bi as int)) + failures_in_block(
                    bi as int,
                    matrix[bi as int].take(ci as int),
                ),
            decreases matrix[bi as int].len() - ci,
        {
            let outcome = &block_checks[bi][ci];
            if !outcome.holds {
                failures.push(
                    FailedCheck::Block(
                        FailedBlockCheck {
                            block_id: bi as u32,
                            check_id: ci as u32,
                            rule: outcome.rule.clone(),
                        },
                    ),
                );
            }
            proof {
                lemma_failures_in_block_take_step(bi as int, matrix[bi as int], ci as int);
                assert(failures@ =~= block_failures(matrix.take(bi as int)) + failures_in_block(
                    bi as int,
                    matrix[bi as int].take(ci as int + 1),
                ));
            }
            ci = ci + 1;
        }
        proof {
            assert(matrix[bi as int].take(ci as int) =~= matrix[bi as int]);
            lemma_block_failures_take_step(matrix, bi as int);
        }
        bi = bi + 1;
    }
    proof {
        assert(matrix.take(bi as int) =~= matrix);
    }
    let mut vi: usize = 0;
    proof {
        assert(verifier_checks@.take(0) =~= Seq::<CheckOutcome>::empty());
        assert(failures@ =~= block_failures(matrix) + verifier_failures(verifier_checks@.take(0)));
    }
    while vi < verifier_checks.len()
        invariant
            0 <= vi <= verifier_checks@.len(),
            verifier_checks@.len() <= u32::MAX,
            matrix == check_matrix(block_checks@),
            failures@ == block_failures(matrix) + verifier_failures(
                verifier_checks@.take(vi as int),
            ),
        decreases verifier_checks@.len() - vi,
    {
        let outcome = &verifier_checks[vi];
        if !outcome.holds {
            failures.push(
                FailedCheck::Verifier(
                    FailedVerifierCheck { check_id: vi as u32, rule: outcome.rule.clone() },
                ),
            );
        }
        proof {
            lemma_verifier_failures_take_step(verifier_checks@, vi as int);
            assert(failures@ =~= block_failures(matrix) + verifier_failures(
                verifier_checks@.take(vi as int + 1),
            ));
        }
        vi = vi + 1;
    }
    proof {
        assert(verifier_checks@.take(vi as int) =~= verifier_checks@);
    }
    if failures.len() == 0 {
        Ok(())
    } else {
        Err(Token::FailedLogic(Logic::FailedChecks(failures)))
    }
}

/// Whether a policy allows or denies the request when it matches.
#[derive(Clone, Copy, Debug, PartialEq, Eq)]
pub enum PolicyKind {
    Allow,
    Deny,
}

/// The evaluated outcome of one policy: whether one of its queries matched
/// the final fact set, and which decision it carries.
#[derive(Clone, Copy, Debug, PartialEq, Eq)]
pub struct PolicyOutcome {
    /// Whether one of the policy's queries matched.
    pub matched: bool,
    /// The decision the policy carries when it matches.
    pub kind: PolicyKind,
}

/// The position of the first matching policy, if any.
pub open spec fn first_match(policies: Seq<PolicyOutcome>) -> Option<int>
    decreases policies.len(),
{
    if policies.len() == 0 {
        None
    } else if policies[0].matched {
        Some(0)
    } else {
        match first_match(policies.drop_first()) {
            Some(i) => Some(i + 1),
            None => None,
        }
    }
}

/// First-match-wins: the first matching policy's position is returned, no
/// earlier policy matches, and the absence of a match means no policy
/// matched at all.
pub proof fn lemma_first_match_is_first(policies: Seq<PolicyOutcome>)
    ensures
        match first_match(policies) {
            Some(i) => 0 <= i < policies.len() && policies[i].matched && (forall|k: int|
                0 <= k < i ==> !(#[trigger] policies[k]).matched),
            None => forall|k: int| 0 <= k < policies.len() ==> !(#[trigger] policies[k]).matched,
        },
    decreases policies.len(),
{
    if policies.len() == 0 {
    } else if policies[0].matched {
    } else {
        let rest = policies.drop_first();
        lemma_first_match_is_first(rest);
        match first_match(rest) {
            Some(i) => {
                assert(policies[i + 1] == rest[i]);
                assert forall|k: int| 0 <= k < i + 1 implies !(#[trigger] policies[k]).matched by {
                    if k > 0 {
                        assert(policies[k] == rest[k - 1]);
                    }
                }
            },
            None => {
                assert forall|k: int|
                    0 <= k < policies.len() implies !(#[trigger] policies[k]).matched by {
                    if k > 0 {
                        assert(policies[k] == rest[k - 1]);
                    }
                }
            },
        }
    }
}

/// The position of the first matching policy is exactly the position with a
/// match that no match precedes.
pub proof fn lemma_first_match_unique(policies: Seq<PolicyOutcome>, i: int)
    requires
        0 <= i < policies.len(),
        policies[i].matched,
        forall|k: int| 0 <= k < i ==> !(#[trigger] policies[k]).matched,
    ensures
        first_match(policies) == Some(i),
    decreases i,
{
    if i == 0 {
    } else {
        assert(policies.drop_first()[i - 1] == policies[i]);
        assert(forall|k: int|
            0 <= k < i - 1 ==> (#[trigger] policies.drop_first()[k]) == policies[k + 1]);
        lemma_first_match_unique(policies.drop_first(), i - 1);
    }
}

/// Resolve the ordered policy list: policies are evaluated in declared
/// order and the first matching one wins. A matching allow policy's
/// position is returned; a matching deny policy yields `Deny` with its
/// position; an exhausted list yields `NoMatchingPolicy`.
pub fn resolve_policies(policies: &Vec<PolicyOutcome>) -> (r: Result<usize, Token>)
    ensures
        match first_match(policies@) {
            Some(i) => (match policies@[i].kind {
                PolicyKind::Allow => r == Ok::<usize, Token>(i as usize),
                PolicyKind::Deny => r == Err::<usize, Token>(
                    Token::FailedLogic(Logic::Deny(i as usize)),
                ),
            }),
            None => r == Err::<usize, Token>(Token::FailedLogic(Logic::NoMatchingPolicy)),
        },
{
    let mut i: usize = 0;
    while i < policies.len()
        invariant
            0 <= i <= policies@.len(),
            forall|k: int| 0 <= k < i ==> !(#[trigger] policies@[k]).matched,
        decreases policies@.len() - i,
    {
        if policies[i].matched {
            proof {
                lemma_first_match_unique(policies@, i as int);
            }
            match policies[i].kind {
                PolicyKind::Allow => {
                    return Ok(i);
                },
                PolicyKind::Deny => {
                    return Err(Token::FailedLogic(Logic::Deny(i)));
                },
            }
        }
        i = i + 1;
    }
    proof {
        lemma_first_match_is_first(policies@);
    }
    Err(Token::FailedLogic(Logic::NoMatchingPolicy))
}

/// The ceilings the evaluation engine's resource governor enforces,
/// independent of logical correctness.
#[derive(Clone, Copy, Debug, PartialEq, Eq)]
pub struct RunLimits {
    /// Ceiling on the number of generated facts.
    pub max_facts: u64,
    /// Ceiling on the number of fixpoint iterations.
    pub max_iterations: u64,
    /// Ceiling on the wall-clock time spent, in microseconds.
    pub max_time_micros: u64,
}

/// What an evaluation run consumed, as observed by the resource governor.
#[derive(Clone, Copy, Debug, PartialEq, Eq)]
pub struct RunMeasure {
    /// The number of facts generated so far.
    pub facts: u64,
    /// The number of fixpoint iterations performed so far.
    pub iterations: u64,
    /// The wall-clock time spent so far, in microseconds.
    pub elapsed_micros: u64,
}

/// The limit a run breaches, if any: fact count first, then iterations,
/// then wall clock.
pub open spec fn limit_breach(limits: RunLimits, run: RunMeasure) -> Option<RunLimit> {
    if run.facts > limits.max_facts {
        Some(RunLimit::TooManyFacts)
    } else if run.iterations > limits.max_iterations {
        Some(RunLimit::TooManyIterations)
    } else if run.elapsed_micros > limits.max_time_micros {
        Some(RunLimit::Timeout)
    } else {
        None
    }
}

/// Check a run against the governor's ceilings. A breached ceiling stops
/// the evaluation: the run limit is reported in place of any partial
/// logical result.
pub fn check_run_limits(limits: &RunLimits, run: &RunMeasure) -> (r: Result<(), Token>)
    ensures
        r is Ok <==> limit_breach(*limits, *run) is None,
        r matches Err(e) ==> (limit_breach(*limits, *run) matches Some(l) && e == Token::RunLimit(
            l,
        )),
{
    if run.facts > limits.max_facts {
        Err(Token::RunLimit(RunLimit::TooManyFacts))
    } else if run.iterations > limits.max_iterations {
        Err(Token::RunLimit(RunLimit::TooManyIterations))
    } else if run.elapsed_micros > limits.max_time_micros {
        Err(Token::RunLimit(RunLimit::Timeout))
    } else {
        Ok(())
    }
}

/// A run past the iteration ceiling is inconclusive: it is reported as
/// `TooManyIterations`, a run-limit abort, never as any logic outcome such
/// as failed checks — the logical answer is unknown.
pub proof fn lemma_iteration_ceiling_is_inconclusive(limits: RunLimits, run: RunMeasure)
    requires
        run.iterations > limits.max_iterations,
        run.facts <= limits.max_facts,
    ensures
        limit_breach(limits, run) == Some(RunLimit::TooManyIterations),
        forall|blocks: Seq<Seq<CheckOutcome>>, verifier: Seq<CheckOutcome>, policies: Seq<
            PolicyOutcome,
        >|
            #[trigger] authorization_outcome(limits, run, blocks, verifier, policies)
                == AuthorizationOutcome::LimitReached(RunLimit::TooManyIterations),
{
}

/// The abstract outcome of an authorization run, decided in this order: a
/// breached resource ceiling aborts the run; otherwise failing checks deny
/// it with their full list; otherwise the first matching policy decides;
/// otherwise no policy matched.
pub enum AuthorizationOutcome {
    /// The governor stopped the run; no logical answer is known.
    LimitReached(RunLimit),
    /// These checks failed, in declared order.
    ChecksFailed(Seq<FailedCheck>),
    /// The policy at this position matched and allows the request.
    Allowed(int),
    /// The policy at this position matched and denies the request.
    Denied(int),
    /// Evaluation completed but no policy matched.
    NoMatch,
}

/// The outcome an authorization run must report.
pub open spec fn authorization_outcome(
    limits: RunLimits,
    run: RunMeasure,
    blocks: Seq<Seq<CheckOutcome>>,
    verifier: Seq<CheckOutcome>,
    policies: Seq<PolicyOutcome>,
) -> AuthorizationOutcome {
    match limit_breach(limits, run) {
        Some(l) => AuthorizationOutcome::LimitReached(l),
        None => {
            let failures = all_check_failures(blocks, verifier);
            if failures.len() > 0 {
                AuthorizationOutcome::ChecksFailed(failures)
            } else {
                match first_match(policies) {
                    Some(i) => (match policies[i].kind {
                        PolicyKind::Allow => AuthorizationOutcome::Allowed(i),
                        PolicyKind::Deny => AuthorizationOutcome::Denied(i),
                    }),
                    None => AuthorizationOutcome::NoMatch,
                }
            }
        },
    }
}

/// Authorize a run: enforce the resource ceilings, then evaluate every
/// declared check, then resolve the policies in declared order. On success
/// the position of the allowing policy is returned; every failure is the
/// exact error the breached stage reports.
pub fn authorize(
    limits: &RunLimits,
    run: &RunMeasure,
    block_checks: &Vec<Vec<CheckOutcome>>,
    verifier_checks: &Vec<CheckOutcome>,
    policies: &Vec<PolicyOutcome>,
) -> (r: Result<usize, Token>)
    requires
        block_checks@.len() <= u32::MAX,
        forall|b: int|
            0 <= b < block_checks@.len() ==> (#[trigger] block_checks@[b])@.len() <= u32::MAX,
        verifier_checks@.len() <= u32::MAX,
    ensures
        match authorization_outcome(
            *limits,
            *run,
            check_matrix(block_checks@),
            verifier_checks@,
            policies@,
        ) {
            AuthorizationOutcome::LimitReached(l) => r == Err::<usize, Token>(Token::RunLimit(l)),
            AuthorizationOutcome::ChecksFailed(failures) => (r matches Err(e) && e
                matches Token::FailedLogic(l) && l matches Logic::FailedChecks(v) && v@ == failures
                && l.wf()),
            AuthorizationOutcome::Allowed(i) => r == Ok::<usize, Token>(i as usize),
            AuthorizationOutcome::Denied(i) => r == Err::<usize, Token>(
                Token::FailedLogic(Logic::Deny(i as usize)),
            ),
            AuthorizationOutcome::NoMatch => r == Err::<usize, Token>(
                Token::FailedLogic(Logic::NoMatchingPolicy),
            ),
        },
{
    match check_run_limits(limits, run) {
        Ok(()) => (),
        Err(e) => {
            return Err(e);
        },
    }
    match evaluate_checks(block_checks, verifier_checks) {
        Ok(()) => (),
        Err(e) => {
            return Err(e);
        },
    }
    resolve_policies(policies)
}

/// Where a fact or rule originates: the reserved tags are exclusive to
/// their origin.
#[derive(Clone, Copy, Debug, PartialEq, Eq)]
pub enum FactOrigin {
    /// The token's first block.
    Authority,
    /// The relying party, at check time.
    Verifier,
    /// Any other block, by its position.
    Block(u32),
}

/// A fact as the tag rules see it: which reserved tags it carries, and its
/// pretty print for diagnosis.
#[derive(Clone, Debug, PartialEq, Eq)]
pub struct Fact {
    /// Whether the fact carries the reserved "authority" tag.
    pub has_authority_tag: bool,
    /// Whether the fact carries the reserved "ambient" tag.
    pub has_ambient_tag: bool,
    /// pretty print of the fact
    pub text: String,
}

/// The protocol's tag rule: authority facts carry exactly the authority
/// tag, verifier facts exactly the ambient tag, and facts of any other
/// block neither reserved tag.
pub open spec fn fact_tags_valid(origin: FactOrigin, fact: Fact) -> bool {
    match origin {
        FactOrigin::Authority => fact.has_authority_tag && !fact.has_ambient_tag,
        FactOrigin::Verifier => fact.has_ambient_tag && !fact.has_authority_tag,
        FactOrigin::Block(_) => !fact.has_authority_tag && !fact.has_ambient_tag,
    }
}

/// The error a tag violation is reported as, carrying the fact's pretty
/// print and, for a block fact, the block's position.
pub open spec fn fact_tag_error(origin: FactOrigin, fact: Fact) -> Token {
    match origin {
        FactOrigin::Authority => Token::FailedLogic(Logic::InvalidAuthorityFact(fact.text)),
        FactOrigin::Verifier => Token::FailedLogic(Logic::InvalidAmbientFact(fact.text)),
        FactOrigin::Block(i) => Token::FailedLogic(Logic::InvalidBlockFact(i, fact.text)),
    }
}

/// Check a fact against the reserved-tag rule of its origin; a violation is
/// reported with the fact's pretty print for diagnosis.
pub fn validate_fact(origin: &FactOrigin, fact: &Fact) -> (r: Result<(), Token>)
    ensures
        r is Ok <==> fact_tags_valid(*origin, *fact),
        !fact_tags_valid(*origin, *fact) ==> r == Err::<(), Token>(fact_tag_error(*origin, *fact)),
{
    let valid = match origin {
        FactOrigin::Authority => fact.has_authority_tag && !fact.has_ambient_tag,
        FactOrigin::Verifier => fact.has_ambient_tag && !fact.has_authority_tag,
        FactOrigin::Block(_) => !fact.has_authority_tag && !fact.has_ambient_tag,
    };
    if valid {
        Ok(())
    } else {
        match origin {
            FactOrigin::Authority => Err(
                Token::FailedLogic(Logic::InvalidAuthorityFact(fact.text.clone())),
            ),
            FactOrigin::Verifier => Err(
                Token::FailedLogic(Logic::InvalidAmbientFact(fact.text.clone())),
            ),
            FactOrigin::Block(i) => Err(
                Token::FailedLogic(Logic::InvalidBlockFact(*i, fact.text.clone())),
            ),
        }
    }
}

/// A rule of an ordinary block as the tag rules see it: whether its head
/// would generate facts carrying a reserved tag, whether all its head
/// variables are bound by its body, and its pretty print.
#[derive(Clone, Debug, PartialEq, Eq)]
pub struct BlockRule {
    /// Whether the rule's head generates facts carrying the authority tag.
    pub generates_authority_tag: bool,
    /// Whether the rule's head generates facts carrying the ambient tag.
    pub generates_ambient_tag: bool,
    /// Whether every head variable is used in the rule's body.
    pub head_bound_by_body: bool,
    /// pretty print of the rule
    pub text: String,
}

/// A block's rule is valid when it generates no reserved tag and all its
/// head variables are bound by its body.
pub open spec fn block_rule_valid(rule: BlockRule) -> bool {
    !rule.generates_authority_tag && !rule.generates_ambient_tag && rule.head_bound_by_body
}

/// Check a rule of an ordinary block: one that generates facts carrying a
/// reserved tag, or whose head variables are not bound by its body, is
/// reported with the block's position and the rule's pretty print.
pub fn validate_block_rule(block_id: u32, rule: &BlockRule) -> (r: Result<(), Token>)
    ensures
        r is Ok <==> block_rule_valid(*rule),
        !block_rule_valid(*rule) ==> r == Err::<(), Token>(
            Token::FailedLogic(Logic::InvalidBlockRule(block_id, rule.text)),
        ),
{
    if !rule.generates_authority_tag && !rule.generates_ambient_tag && rule.head_bound_by_body {
        Ok(())
    } else {
        Err(Token::FailedLogic(Logic::InvalidBlockRule(block_id, rule.text.clone())))
    }
}

/// Authorization must start from an empty ambient context: a verifier that
/// already holds a token cannot take another.
pub fn check_verifier_empty(holds_token: bool) -> (r: Result<(), Token>)
    ensures
        r is Ok <==> !holds_token,
        holds_token ==> r == Err::<(), Token>(Token::FailedLogic(Logic::VerifierNotEmpty)),
{
    if holds_token {
        Err(Token::FailedLogic(Logic::VerifierNotEmpty))
    } else {
        Ok(())
    }
}

} // verus!
