//! What a parser reports of its readiness for production: a stage, two
//! flags, and the diagnostic checks behind them.

use vstd::prelude::*;

verus! {

/// How far a parser has come towards production.
#[derive(Clone, Copy, Debug, PartialEq, Eq, Structural)]
pub enum ParserReadinessStage {
    DiagnosticOnly,
    RolloutReady,
    Production,
}

/// How a diagnostic check came out.
#[derive(Clone, Copy, Debug, PartialEq, Eq, Structural)]
pub enum DiagnosticSeverity {
    Info,
    Pass,
    Warn,
    Fail,
}

/// One diagnostic check: a stable code, its outcome, and what it found.
#[derive(Debug)]
pub struct ParserDiagnosticCheck {
    pub code: String,
    pub severity: DiagnosticSeverity,
    pub message: String,
}

/// A check as plain values.
pub struct CheckView {
    pub code: Seq<char>,
    pub severity: DiagnosticSeverity,
    pub message: Seq<char>,
}

impl View for ParserDiagnosticCheck {
    type V = CheckView;

    open spec fn view(&self) -> CheckView {
        CheckView { code: self.code@, severity: self.severity, message: self.message@ }
    }
}

/// A parser's readiness snapshot.
#[derive(Debug)]
pub struct ParserReadiness {
    pub stage: ParserReadinessStage,
    pub production_enabled: bool,
    pub self_check_available: bool,
    pub checks: Vec<ParserDiagnosticCheck>,
}

/// A readiness snapshot as plain values.
pub struct ReadinessView {
    pub stage: ParserReadinessStage,
    pub production_enabled: bool,
    pub self_check_available: bool,
    pub checks: Seq<CheckView>,
}

/// The views of a list of checks.
pub open spec fn check_views(s: Seq<ParserDiagnosticCheck>) -> Seq<CheckView> {
    s.map_values(|c: ParserDiagnosticCheck| c@)
}

impl View for ParserReadiness {
    type V = ReadinessView;

    open spec fn view(&self) -> ReadinessView {
        ReadinessView {
            stage: self.stage,
            production_enabled: self.production_enabled,
            self_check_available: self.self_check_available,
            checks: check_views(self.checks@),
        }
    }
}

/// The view of an optional snapshot.
pub open spec fn readiness_opt_view(r: Option<ParserReadiness>) -> Option<ReadinessView> {
    match r {
        Some(x) => Some(x@),
        None => None,
    }
}

/// A check with these parts.
pub open spec fn check_of(code: &str, severity: DiagnosticSeverity, message: &str) -> CheckView {
    CheckView { code: code@, severity, message: message@ }
}

/// The check with these parts.
pub fn check(code: &str, severity: DiagnosticSeverity, message: &str) -> (r: ParserDiagnosticCheck)
    ensures
        r@ == check_of(code, severity, message),
{
    ParserDiagnosticCheck { code: code.to_owned(), severity, message: message.to_owned() }
}

/// A copy of a check.
pub fn duplicate_check(c: &ParserDiagnosticCheck) -> (r: ParserDiagnosticCheck)
    ensures
        r@ == c@,
{
    ParserDiagnosticCheck { code: c.code.clone(), severity: c.severity, message: c.message.clone() }
}

/// A copy of a list of checks.
pub fn duplicate_checks(cs: &Vec<ParserDiagnosticCheck>) -> (r: Vec<ParserDiagnosticCheck>)
    ensures
        check_views(r@) == check_views(cs@),
{
    let mut out: Vec<ParserDiagnosticCheck> = Vec::new();
    let mut i: usize = 0;
    while i < cs.len()
        invariant
            i <= cs@.len(),
            check_views(out@) == check_views(cs@.take(i as int)),
        decreases cs@.len() - i,
    {
        let c = duplicate_check(&cs[i]);
        let ghost before = out@;
        out.push(c);
        assert(check_views(out@) =~= check_views(before).push(c@));
        assert(check_views(cs@.take(i + 1)) =~= check_views(cs@.take(i as int)).push(cs@[i as int]@));
        i = i + 1;
    }
    assert(cs@.take(cs@.len() as int) =~= cs@);
    out
}

/// A copy of a snapshot.
pub fn duplicate_readiness(r: &ParserReadiness) -> (c: ParserReadiness)
    ensures
        c@ == r@,
{
    ParserReadiness {
        stage: r.stage,
        production_enabled: r.production_enabled,
        self_check_available: r.self_check_available,
        checks: duplicate_checks(&r.checks),
    }
}

/// Whether some check of `r` has the code `code`.
pub open spec fn has_check(r: ReadinessView, code: Seq<char>) -> bool {
    exists|i: int| 0 <= i < r.checks.len() && r.checks[i].code == code
}

} // verus!
