use scip_exact::codes::{
    check_result_code, scip_bool, ConshdlrResult, Status, RESULT_BRANCHED, RESULT_CONSADDED,
    RESULT_CUTOFF, RESULT_FEASIBLE, RESULT_INFEASIBLE, RESULT_REDUCEDDOM, RESULT_SEPARATED,
    RESULT_SOLVELP,
};

#[test]
fn status_codes_decode() {
    let expected = [
        (0, Status::Unknown),
        (1, Status::Optimal),
        (2, Status::Infeasible),
        (3, Status::Unbounded),
        (4, Status::Inforunbd),
        (10, Status::UserInterrupt),
        (11, Status::Terminate),
        (20, Status::NodeLimit),
        (21, Status::TotalNodeLimit),
        (22, Status::StallNodeLimit),
        (23, Status::TimeLimit),
        (24, Status::MemoryLimit),
        (25, Status::GapLimit),
        (26, Status::PrimalLimit),
        (27, Status::DualLimit),
        (28, Status::SolutionLimit),
        (29, Status::BestSolutionLimit),
        (30, Status::RestartLimit),
    ];
    for (code, status) in expected {
        assert!(Status::is_code(code));
        assert_eq!(Status::from_code(code), status);
    }
}

#[test]
fn codes_naming_no_status_are_recognised() {
    for code in [5u32, 9, 12, 19, 31, 1000, u32::MAX] {
        assert!(!Status::is_code(code));
    }
}

#[test]
fn enforcement_results_have_their_codes() {
    assert_eq!(ConshdlrResult::Feasible.code(), RESULT_FEASIBLE);
    assert_eq!(ConshdlrResult::CutOff.code(), RESULT_CUTOFF);
    assert_eq!(ConshdlrResult::ConsAdded.code(), RESULT_CONSADDED);
    assert_eq!(ConshdlrResult::ReducedDom.code(), RESULT_REDUCEDDOM);
    assert_eq!(ConshdlrResult::Separated.code(), RESULT_SEPARATED);
    assert_eq!(ConshdlrResult::SolveLP.code(), RESULT_SOLVELP);
    assert_eq!(ConshdlrResult::Branched.code(), RESULT_BRANCHED);
    assert_eq!(RESULT_FEASIBLE, 4);
    assert_eq!(RESULT_CUTOFF, 7);
    assert_eq!(RESULT_BRANCHED, 13);
}

#[test]
fn enforcement_codes_are_distinct() {
    let all = [
        ConshdlrResult::Feasible,
        ConshdlrResult::CutOff,
        ConshdlrResult::ConsAdded,
        ConshdlrResult::ReducedDom,
        ConshdlrResult::Separated,
        ConshdlrResult::SolveLP,
        ConshdlrResult::Branched,
    ];
    for a in all {
        assert_ne!(a.code(), RESULT_INFEASIBLE);
        for b in all {
            assert_eq!(a.code() == b.code(), a == b);
        }
    }
}

#[test]
fn check_answers_feasible_or_infeasible() {
    assert_eq!(check_result_code(true), RESULT_FEASIBLE);
    assert_eq!(check_result_code(false), RESULT_INFEASIBLE);
    assert_eq!(check_result_code(true), ConshdlrResult::Feasible.code());
}

#[test]
fn bools_are_one_and_zero() {
    assert_eq!(scip_bool(true), 1);
    assert_eq!(scip_bool(false), 0);
}
