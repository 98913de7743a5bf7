//! The pre-flight compatibility report: findings of a toolpath against machine capabilities, and
//! whether any of them rules the toolpath out.
use vstd::prelude::*;

verus! {

/// Severity of a compatibility finding.
#[derive(Debug, Clone, Copy, PartialEq, Eq, Structural)]
pub enum Severity {
    Warning,
    Error,
}

/// A specific capability violation finding.
#[derive(Debug, Clone)]
pub struct CompatibilityFinding {
    pub severity: Severity,
    pub code: String,
    pub message: String,
    pub segment_index: Option<usize>,
}

/// The report resulting from running the pre-flight compatibility engine.
#[derive(Debug, Clone)]
pub struct CompatibilityReport {
    pub compatible: bool,
    pub findings: Vec<CompatibilityFinding>,
}

/// Whether `fs` holds an `Error` finding.
pub open spec fn has_error_finding(fs: Seq<CompatibilityFinding>) -> bool {
    exists|i: int| 0 <= i < fs.len() && (#[trigger] fs[i]).severity == Severity::Error
}

impl CompatibilityReport {
    /// The verdict agrees with the findings: compatible exactly when no finding is an error.
    pub open spec fn consistent(&self) -> bool {
        self.compatible == !has_error_finding(self.findings@)
    }

    pub fn new() -> (r: CompatibilityReport)
        ensures
            r.compatible,
            r.findings@.len() == 0,
            r.consistent(),
    {
        CompatibilityReport { compatible: true, findings: Vec::new() }
    }

    /// Records a finding; an `Error` finding makes the toolpath incompatible.
    pub fn add_finding(&mut self, finding: CompatibilityFinding)
        ensures
            final(self).findings@ == old(self).findings@.push(finding),
            final(self).compatible == (old(self).compatible && finding.severity != Severity::Error),
            old(self).consistent() ==> final(self).consistent(),
    {
        let ghost f = finding;
        if finding.severity == Severity::Error {
            self.compatible = false;
        }
        self.findings.push(finding);
        proof {
            let fs0 = old(self).findings@;
            let fs1 = self.findings@;
            if has_error_finding(fs0) {
                let i = choose|i: int| 0 <= i < fs0.len() && (#[trigger] fs0[i]).severity == Severity::Error;
                assert(fs1[i] == fs0[i]);
            }
            if f.severity == Severity::Error {
                assert(fs1[fs0.len() as int] == f);
            }
            if has_error_finding(fs1) && f.severity != Severity::Error {
                let i = choose|i: int| 0 <= i < fs1.len() && (#[trigger] fs1[i]).severity == Severity::Error;
                assert(fs0[i] == fs1[i]);
            }
        }
    }
}

impl Default for CompatibilityReport {
    /// The all-default report: not (yet) compatible, with no findings.
    fn default() -> (r: CompatibilityReport)
        ensures
            !r.compatible,
            r.findings@.len() == 0,
    {
        CompatibilityReport { compatible: false, findings: Vec::new() }
    }
}

/// Law: a report built from `new()` by any sequence of `add_finding` calls is compatible exactly
/// when none of its findings is an error. Stated as the invariant the two operations keep.
pub proof fn law_compatible_iff_no_error_finding(r: CompatibilityReport, f: CompatibilityFinding)
    requires
        r.consistent(),
    ensures
        (CompatibilityReport {
            compatible: r.compatible && f.severity != Severity::Error,
            findings: r.findings,
        }).compatible == !has_error_finding(r.findings@.push(f)),
{
    let fs0 = r.findings@;
    let fs1 = fs0.push(f);
    if has_error_finding(fs0) {
        let i = choose|i: int| 0 <= i < fs0.len() && (#[trigger] fs0[i]).severity == Severity::Error;
        assert(fs1[i] == fs0[i]);
    }
    if f.severity == Severity::Error {
        assert(fs1[fs0.len() as int] == f);
    }
    if has_error_finding(fs1) && f.severity != Severity::Error {
        let i = choose|i: int| 0 <= i < fs1.len() && (#[trigger] fs1[i]).severity == Severity::Error;
        assert(fs0[i] == fs1[i]);
    }
}

} // verus!
