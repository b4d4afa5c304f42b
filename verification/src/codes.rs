use vstd::prelude::*;

verus! {

// The numbering of SCIP's `SCIP_Status` C enum.
pub const STATUS_UNKNOWN: u32 = 0;
pub const STATUS_OPTIMAL: u32 = 1;
pub const STATUS_INFEASIBLE: u32 = 2;
pub const STATUS_UNBOUNDED: u32 = 3;
pub const STATUS_INFORUNBD: u32 = 4;
pub const STATUS_USERINTERRUPT: u32 = 10;
pub const STATUS_TERMINATE: u32 = 11;
pub const STATUS_NODELIMIT: u32 = 20;
pub const STATUS_TOTALNODELIMIT: u32 = 21;
pub const STATUS_STALLNODELIMIT: u32 = 22;
pub const STATUS_TIMELIMIT: u32 = 23;
pub const STATUS_MEMLIMIT: u32 = 24;
pub const STATUS_GAPLIMIT: u32 = 25;
pub const STATUS_PRIMALLIMIT: u32 = 26;
pub const STATUS_DUALLIMIT: u32 = 27;
pub const STATUS_SOLLIMIT: u32 = 28;
pub const STATUS_BESTSOLLIMIT: u32 = 29;
pub const STATUS_RESTARTLIMIT: u32 = 30;

// The members of SCIP's `SCIP_Result` C enum that a constraint handler reports.
pub const RESULT_FEASIBLE: u32 = 4;
pub const RESULT_INFEASIBLE: u32 = 5;
pub const RESULT_CUTOFF: u32 = 7;
pub const RESULT_SEPARATED: u32 = 8;
pub const RESULT_REDUCEDDOM: u32 = 10;
pub const RESULT_CONSADDED: u32 = 11;
pub const RESULT_BRANCHED: u32 = 13;
pub const RESULT_SOLVELP: u32 = 14;

// SCIP's `SCIP_Bool` values.
pub const SCIP_FALSE: u32 = 0;
pub const SCIP_TRUE: u32 = 1;

/// The state the solver reports for a problem.
#[derive(Debug, PartialEq, Eq, Clone, Copy, Structural)]
pub enum Status {
    Unknown,
    UserInterrupt,
    NodeLimit,
    TotalNodeLimit,
    StallNodeLimit,
    TimeLimit,
    MemoryLimit,
    GapLimit,
    PrimalLimit,
    DualLimit,
    SolutionLimit,
    BestSolutionLimit,
    RestartLimit,
    Optimal,
    Infeasible,
    Unbounded,
    Inforunbd,
    Terminate,
}

/// The `SCIP_Status` code by which the solver reports `s`.
pub open spec fn status_code(s: Status) -> u32 {
    match s {
        Status::Unknown => STATUS_UNKNOWN,
        Status::UserInterrupt => STATUS_USERINTERRUPT,
        Status::NodeLimit => STATUS_NODELIMIT,
        Status::TotalNodeLimit => STATUS_TOTALNODELIMIT,
        Status::StallNodeLimit => STATUS_STALLNODELIMIT,
        Status::TimeLimit => STATUS_TIMELIMIT,
        Status::MemoryLimit => STATUS_MEMLIMIT,
        Status::GapLimit => STATUS_GAPLIMIT,
        Status::PrimalLimit => STATUS_PRIMALLIMIT,
        Status::DualLimit => STATUS_DUALLIMIT,
        Status::SolutionLimit => STATUS_SOLLIMIT,
        Status::BestSolutionLimit => STATUS_BESTSOLLIMIT,
        Status::RestartLimit => STATUS_RESTARTLIMIT,
        Status::Optimal => STATUS_OPTIMAL,
        Status::Infeasible => STATUS_INFEASIBLE,
        Status::Unbounded => STATUS_UNBOUNDED,
        Status::Inforunbd => STATUS_INFORUNBD,
        Status::Terminate => STATUS_TERMINATE,
    }
}

/// `code` is the code of some status.
pub open spec fn is_status_code(code: u32) -> bool {
    exists|s: Status| status_code(s) == code
}

impl Status {
    /// Whether `code` is the `SCIP_Status` code of some status.
    pub fn is_code(code: u32) -> (b: bool)
        ensures
            b == is_status_code(code),
    {
        let b = code == STATUS_UNKNOWN || code == STATUS_OPTIMAL || code == STATUS_INFEASIBLE
            || code == STATUS_UNBOUNDED || code == STATUS_INFORUNBD || code
            == STATUS_USERINTERRUPT || code == STATUS_TERMINATE || code == STATUS_NODELIMIT
            || code == STATUS_TOTALNODELIMIT || code == STATUS_STALLNODELIMIT || code
            == STATUS_TIMELIMIT || code == STATUS_MEMLIMIT || code == STATUS_GAPLIMIT || code
            == STATUS_PRIMALLIMIT || code == STATUS_DUALLIMIT || code == STATUS_SOLLIMIT || code
            == STATUS_BESTSOLLIMIT || code == STATUS_RESTARTLIMIT;
        proof {
            if b {
                if code == STATUS_UNKNOWN {
                    assert(status_code(Status::Unknown) == code);
                } else if code == STATUS_OPTIMAL {
                    assert(status_code(Status::Optimal) == code);
                } else if code == STATUS_INFEASIBLE {
                    assert(status_code(Status::Infeasible) == code);
                } else if code == STATUS_UNBOUNDED {
                    assert(status_code(Status::Unbounded) == code);
                } else if code == STATUS_INFORUNBD {
                    assert(status_code(Status::Inforunbd) == code);
                } else if code == STATUS_USERINTERRUPT {
                    assert(status_code(Status::UserInterrupt) == code);
                } else if code == STATUS_TERMINATE {
                    assert(status_code(Status::Terminate) == code);
                } else if code == STATUS_NODELIMIT {
                    assert(status_code(Status::NodeLimit) == code);
                } else if code == STATUS_TOTALNODELIMIT {
                    assert(status_code(Status::TotalNodeLimit) == code);
                } else if code == STATUS_STALLNODELIMIT {
                    assert(status_code(Status::StallNodeLimit) == code);
                } else if code == STATUS_TIMELIMIT {
                    assert(status_code(Status::TimeLimit) == code);
                } else if code == STATUS_MEMLIMIT {
                    assert(status_code(Status::MemoryLimit) == code);
                } else if code == STATUS_GAPLIMIT {
                    assert(status_code(Status::GapLimit) == code);
                } else if code == STATUS_PRIMALLIMIT {
                    assert(status_code(Status::PrimalLimit) == code);
                } else if code == STATUS_DUALLIMIT {
                    assert(status_code(Status::DualLimit) == code);
                } else if code == STATUS_SOLLIMIT {
                    assert(status_code(Status::SolutionLimit) == code);
                } else if code == STATUS_BESTSOLLIMIT {
                    assert(status_code(Status::BestSolutionLimit) == code);
                } else {
                    assert(status_code(Status::RestartLimit) == code);
                }
            }
        }
        b
    }

    /// Decodes a `SCIP_Status` code into the status whose code it is. A code
    /// that names no status is outside the domain.
    pub fn from_code(code: u32) -> (s: Status)
        requires
            is_status_code(code),
        ensures
            status_code(s) == code,
    {
        match code {
            STATUS_UNKNOWN => Status::Unknown,
            STATUS_USERINTERRUPT => Status::UserInterrupt,
            STATUS_NODELIMIT => Status::NodeLimit,
            STATUS_TOTALNODELIMIT => Status::TotalNodeLimit,
            STATUS_STALLNODELIMIT => Status::StallNodeLimit,
            STATUS_TIMELIMIT => Status::TimeLimit,
            STATUS_MEMLIMIT => Status::MemoryLimit,
            STATUS_GAPLIMIT => Status::GapLimit,
            STATUS_PRIMALLIMIT => Status::PrimalLimit,
            STATUS_DUALLIMIT => Status::DualLimit,
            STATUS_SOLLIMIT => Status::SolutionLimit,
            STATUS_BESTSOLLIMIT => Status::BestSolutionLimit,
            STATUS_RESTARTLIMIT => Status::RestartLimit,
            STATUS_OPTIMAL => Status::Optimal,
            STATUS_INFEASIBLE => Status::Infeasible,
            STATUS_UNBOUNDED => Status::Unbounded,
            STATUS_INFORUNBD => Status::Inforunbd,
            _ => {
                proof {
                    let s = choose|s: Status| status_code(s) == code;
                    assert(code == STATUS_TERMINATE) by {
                        match s {
                            Status::Terminate => {},
                            _ => {},
                        }
                    }
                }
                Status::Terminate
            },
        }
    }
}

/// No two statuses share a code, so decoding a status's code gives the
/// status back.
pub proof fn lemma_status_code_injective(a: Status, b: Status)
    ensures
        status_code(a) == status_code(b) ==> a == b,
{
}

/// What a constraint handler's enforcement reports back to the solver.
#[derive(Debug, PartialEq, Eq, Clone, Copy, Structural)]
pub enum ConshdlrResult {
    /// States that the problem is feasible.
    Feasible,
    /// States that the problem is infeasible.
    CutOff,
    /// Added another constraint that resolves the infeasibility.
    ConsAdded,
    /// Reduced the domain of a variable.
    ReducedDom,
    /// Added a cutting plane that separates the lp solution.
    Separated,
    /// Request to resolve the LP.
    SolveLP,
    /// Created a branching.
    Branched,
}

/// The `SCIP_Result` code that reports `r`.
pub open spec fn result_code(r: ConshdlrResult) -> u32 {
    match r {
        ConshdlrResult::Feasible => RESULT_FEASIBLE,
        ConshdlrResult::CutOff => RESULT_CUTOFF,
        ConshdlrResult::ConsAdded => RESULT_CONSADDED,
        ConshdlrResult::ReducedDom => RESULT_REDUCEDDOM,
        ConshdlrResult::Separated => RESULT_SEPARATED,
        ConshdlrResult::SolveLP => RESULT_SOLVELP,
        ConshdlrResult::Branched => RESULT_BRANCHED,
    }
}

impl ConshdlrResult {
    /// The `SCIP_Result` code that reports this result.
    pub fn code(self) -> (c: u32)
        ensures
            c == result_code(self),
    {
        match self {
            ConshdlrResult::Feasible => RESULT_FEASIBLE,
            ConshdlrResult::CutOff => RESULT_CUTOFF,
            ConshdlrResult::ConsAdded => RESULT_CONSADDED,
            ConshdlrResult::ReducedDom => RESULT_REDUCEDDOM,
            ConshdlrResult::Separated => RESULT_SEPARATED,
            ConshdlrResult::SolveLP => RESULT_SOLVELP,
            ConshdlrResult::Branched => RESULT_BRANCHED,
        }
    }
}

/// The `SCIP_Result` code with which a feasibility check answers.
pub fn check_result_code(feasible: bool) -> (c: u32)
    ensures
        c == (if feasible {
            RESULT_FEASIBLE
        } else {
            RESULT_INFEASIBLE
        }),
{
    if feasible {
        RESULT_FEASIBLE
    } else {
        RESULT_INFEASIBLE
    }
}

/// The `SCIP_Bool` for `value`.
pub fn scip_bool(value: bool) -> (b: u32)
    ensures
        b == (if value {
            SCIP_TRUE
        } else {
            SCIP_FALSE
        }),
{
    if value {
        SCIP_TRUE
    } else {
        SCIP_FALSE
    }
}

/// Distinct enforcement results reach the solver as distinct codes; none of
/// them is the code a failed check answers with, and a feasible enforcement
/// is reported with the same code as a passed check.
pub proof fn lemma_result_codes(a: ConshdlrResult, b: ConshdlrResult)
    ensures
        result_code(a) == result_code(b) ==> a == b,
        result_code(a) != RESULT_INFEASIBLE,
        result_code(ConshdlrResult::Feasible) == RESULT_FEASIBLE,
{
}

} // verus!
