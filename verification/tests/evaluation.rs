use biscuit_errors::evaluation::authorize;
use biscuit_errors::evaluation::check_run_limits;
use biscuit_errors::evaluation::check_verifier_empty;
use biscuit_errors::evaluation::evaluate_checks;
use biscuit_errors::evaluation::resolve_policies;
use biscuit_errors::evaluation::validate_block_rule;
use biscuit_errors::evaluation::validate_fact;
use biscuit_errors::evaluation::BlockRule;
use biscuit_errors::evaluation::CheckOutcome;
use biscuit_errors::evaluation::Fact;
use biscuit_errors::evaluation::FactOrigin;
use biscuit_errors::evaluation::PolicyKind;
use biscuit_errors::evaluation::PolicyOutcome;
use biscuit_errors::evaluation::RunLimits;
use biscuit_errors::evaluation::RunMeasure;
use biscuit_errors::term::term_to_boolean;
use biscuit_errors::term::term_to_integer;
use biscuit_errors::term::Term;
use biscuit_errors::FailedBlockCheck;
use biscuit_errors::FailedCheck;
use biscuit_errors::FailedVerifierCheck;
use biscuit_errors::Logic;
use biscuit_errors::RunLimit;
use biscuit_errors::Token;

fn check(holds: bool, rule: &str) -> CheckOutcome {
    CheckOutcome {
        holds,
        rule: rule.to_string(),
    }
}

fn policy(matched: bool, kind: PolicyKind) -> PolicyOutcome {
    PolicyOutcome { matched, kind }
}

fn within(_limits: &RunLimits) -> RunMeasure {
    RunMeasure {
        facts: 0,
        iterations: 0,
        elapsed_micros: 0,
    }
}

const LIMITS: RunLimits = RunLimits {
    max_facts: 1000,
    max_iterations: 100,
    max_time_micros: 1_000_000,
};

#[test]
fn all_failing_checks_are_collected_in_declared_order() {
    let blocks = vec![vec![
        check(false, "c1"),
        check(true, "c2"),
        check(false, "c3"),
    ]];
    let result = evaluate_checks(&blocks, &Vec::new());
    assert_eq!(
        result,
        Err(Token::FailedLogic(Logic::FailedChecks(vec![
            FailedCheck::Block(FailedBlockCheck {
                block_id: 0,
                check_id: 0,
                rule: "c1".to_string(),
            }),
            FailedCheck::Block(FailedBlockCheck {
                block_id: 0,
                check_id: 2,
                rule: "c3".to_string(),
            }),
        ])))
    );
}

#[test]
fn block_failures_come_before_verifier_failures() {
    let blocks = vec![vec![check(true, "b0c0")], vec![check(false, "b1c0")]];
    let verifier = vec![check(false, "v0")];
    let result = evaluate_checks(&blocks, &verifier);
    assert_eq!(
        result,
        Err(Token::FailedLogic(Logic::FailedChecks(vec![
            FailedCheck::Block(FailedBlockCheck {
                block_id: 1,
                check_id: 0,
                rule: "b1c0".to_string(),
            }),
            FailedCheck::Verifier(FailedVerifierCheck {
                check_id: 0,
                rule: "v0".to_string(),
            }),
        ])))
    );
}

#[test]
fn passing_checks_succeed() {
    let blocks = vec![vec![check(true, "c1")], Vec::new()];
    assert_eq!(evaluate_checks(&blocks, &vec![check(true, "v")]), Ok(()));
    assert_eq!(evaluate_checks(&Vec::new(), &Vec::new()), Ok(()));
}

#[test]
fn first_matching_policy_wins() {
    let policies = vec![
        policy(false, PolicyKind::Allow),
        policy(true, PolicyKind::Deny),
        policy(true, PolicyKind::Allow),
    ];
    assert_eq!(
        resolve_policies(&policies),
        Err(Token::FailedLogic(Logic::Deny(1)))
    );
}

#[test]
fn exhausted_policy_list_yields_no_matching_policy() {
    assert_eq!(
        resolve_policies(&Vec::new()),
        Err(Token::FailedLogic(Logic::NoMatchingPolicy))
    );
    let policies = vec![policy(false, PolicyKind::Allow), policy(false, PolicyKind::Deny)];
    assert_eq!(
        resolve_policies(&policies),
        Err(Token::FailedLogic(Logic::NoMatchingPolicy))
    );
}

#[test]
fn matching_allow_returns_its_position() {
    let policies = vec![policy(false, PolicyKind::Deny), policy(true, PolicyKind::Allow)];
    assert_eq!(resolve_policies(&policies), Ok(1));
}

#[test]
fn each_ceiling_has_its_own_limit_error() {
    let run = within(&LIMITS);
    assert_eq!(check_run_limits(&LIMITS, &run), Ok(()));
    let too_many_facts = RunMeasure { facts: 1001, ..run };
    assert_eq!(
        check_run_limits(&LIMITS, &too_many_facts),
        Err(Token::RunLimit(RunLimit::TooManyFacts))
    );
    let too_many_iterations = RunMeasure {
        iterations: 101,
        ..run
    };
    assert_eq!(
        check_run_limits(&LIMITS, &too_many_iterations),
        Err(Token::RunLimit(RunLimit::TooManyIterations))
    );
    let too_slow = RunMeasure {
        elapsed_micros: 1_000_001,
        ..run
    };
    assert_eq!(
        check_run_limits(&LIMITS, &too_slow),
        Err(Token::RunLimit(RunLimit::Timeout))
    );
}

#[test]
fn a_run_past_the_iteration_ceiling_never_reports_failed_checks() {
    let run = RunMeasure {
        facts: 0,
        iterations: 101,
        elapsed_micros: 0,
    };
    let failing_blocks = vec![vec![check(false, "would fail")]];
    let policies = vec![policy(true, PolicyKind::Allow)];
    assert_eq!(
        authorize(&LIMITS, &run, &failing_blocks, &Vec::new(), &policies),
        Err(Token::RunLimit(RunLimit::TooManyIterations))
    );
}

#[test]
fn authorize_composes_the_stages() {
    let run = within(&LIMITS);
    let passing = vec![vec![check(true, "ok")]];
    let policies = vec![policy(true, PolicyKind::Allow)];
    assert_eq!(
        authorize(&LIMITS, &run, &passing, &Vec::new(), &policies),
        Ok(0)
    );
    let failing = vec![vec![check(false, "bad")]];
    assert_eq!(
        authorize(&LIMITS, &run, &failing, &Vec::new(), &policies),
        Err(Token::FailedLogic(Logic::FailedChecks(vec![
            FailedCheck::Block(FailedBlockCheck {
                block_id: 0,
                check_id: 0,
                rule: "bad".to_string(),
            }),
        ])))
    );
    assert_eq!(
        authorize(&LIMITS, &run, &passing, &Vec::new(), &Vec::new()),
        Err(Token::FailedLogic(Logic::NoMatchingPolicy))
    );
}

#[test]
fn reserved_tags_are_exclusive_to_their_origin() {
    let untagged = Fact {
        has_authority_tag: false,
        has_ambient_tag: false,
        text: "right(#read)".to_string(),
    };
    assert_eq!(
        validate_fact(&FactOrigin::Authority, &untagged),
        Err(Token::FailedLogic(Logic::InvalidAuthorityFact(
            "right(#read)".to_string()
        )))
    );
    assert_eq!(
        validate_fact(&FactOrigin::Verifier, &untagged),
        Err(Token::FailedLogic(Logic::InvalidAmbientFact(
            "right(#read)".to_string()
        )))
    );
    assert_eq!(validate_fact(&FactOrigin::Block(3), &untagged), Ok(()));
    let authority_tagged = Fact {
        has_authority_tag: true,
        has_ambient_tag: false,
        text: "right(#authority, #read)".to_string(),
    };
    assert_eq!(
        validate_fact(&FactOrigin::Authority, &authority_tagged),
        Ok(())
    );
    assert_eq!(
        validate_fact(&FactOrigin::Block(3), &authority_tagged),
        Err(Token::FailedLogic(Logic::InvalidBlockFact(
            3,
            "right(#authority, #read)".to_string()
        )))
    );
}

#[test]
fn a_block_rule_generating_reserved_tags_is_rejected() {
    let bad = BlockRule {
        generates_authority_tag: true,
        generates_ambient_tag: false,
        head_bound_by_body: true,
        text: "right(#authority, $0) <- resource($0)".to_string(),
    };
    assert_eq!(
        validate_block_rule(2, &bad),
        Err(Token::FailedLogic(Logic::InvalidBlockRule(
            2,
            "right(#authority, $0) <- resource($0)".to_string()
        )))
    );
    let unbound = BlockRule {
        generates_authority_tag: false,
        generates_ambient_tag: false,
        head_bound_by_body: false,
        text: "right($1) <- resource($0)".to_string(),
    };
    assert!(validate_block_rule(2, &unbound).is_err());
    let good = BlockRule {
        generates_authority_tag: false,
        generates_ambient_tag: false,
        head_bound_by_body: true,
        text: "right($0) <- resource($0)".to_string(),
    };
    assert_eq!(validate_block_rule(2, &good), Ok(()));
}

#[test]
fn authorization_requires_an_empty_verifier() {
    assert_eq!(
        check_verifier_empty(true),
        Err(Token::FailedLogic(Logic::VerifierNotEmpty))
    );
    assert_eq!(check_verifier_empty(false), Ok(()));
}

#[test]
fn term_conversion_to_the_wrong_shape_fails() {
    assert_eq!(term_to_integer(&Term::Integer(42)), Ok(42));
    match term_to_integer(&Term::Text("x".to_string())).unwrap_err() {
        Token::ConversionError(_) => {}
        other => panic!("expected a conversion failure, got {:?}", other),
    }
    assert_eq!(term_to_boolean(&Term::Boolean(true)), Ok(true));
    match term_to_boolean(&Term::Integer(1)).unwrap_err() {
        Token::ConversionError(_) => {}
        other => panic!("expected a conversion failure, got {:?}", other),
    }
}
