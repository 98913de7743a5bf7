//! Typed report envelopes for the review, batch-review and rewrite reports.
//!
//! The simulated metrics a report carries are floating-point quantities produced by the simulator, so
//! the envelopes hold them as an opaque payload `M`; everything the reports decide (counts, verdicts,
//! the per-rule roll-up) is decided here on plain values.
use crate::text::{
    chars_eq, chars_of, compare_chars, lemma_lex_total, lemma_lex_trans, lex_lt, push_str,
    string_from_str,
};
use crate::verify::{count_errors, Finding, Report, RuleId, Severity};
use vstd::prelude::*;

verus! {

/// A [`Finding`] resolved to its original source line (when the toolpath came from imported G-code).
#[derive(Debug, Clone)]
pub struct LocatedFinding {
    /// Stable kebab-case rule id (see [`RuleId`]).
    pub rule: String,
    pub severity: Severity,
    /// The offending segment index, if local to one move.
    pub segment: Option<usize>,
    /// The original source line, when the finding maps back to imported G-code.
    pub source_line: Option<usize>,
    /// Human-readable description.
    pub message: String,
}

/// `lf` carries the finding `f`, resolved to `source_line`.
pub open spec fn located_from(lf: LocatedFinding, f: Finding, source_line: Option<usize>) -> bool {
    &&& lf.rule@ == f.rule@
    &&& lf.severity == f.severity
    &&& lf.segment == f.segment
    &&& lf.source_line == source_line
    &&& lf.message@ == f.message@
}

impl LocatedFinding {
    /// Resolve a finding to a source line.
    pub fn new(finding: &Finding, source_line: Option<usize>) -> (lf: LocatedFinding)
        ensures
            located_from(lf, *finding, source_line),
    {
        LocatedFinding {
            rule: finding.rule.clone(),
            severity: finding.severity,
            segment: finding.segment,
            source_line,
            message: finding.message.clone(),
        }
    }
}

/// Which licensing mode produced a report, stamped onto the report envelopes by the caller.
///
/// Passive data only: the engine never verifies, reads or sets a licence.
#[derive(Debug, Clone)]
pub struct LicenseStamp {
    /// `"licensed"` or `"evaluation"`.
    pub mode: String,
    /// The licensee, when running licensed.
    pub licensee: Option<String>,
    /// The licence tier, when running licensed.
    pub tier: Option<String>,
}

/// A G-code command the importer preserved but the verifier does not model.
#[derive(Debug, Clone)]
pub struct UnmodeledCommand {
    /// The command word, e.g. `M84`.
    pub command: String,
    /// The raw source text of the line.
    pub raw: String,
    /// The 1-based source line.
    pub source_line: usize,
}

/// The review report: metrics plus located safety findings for an imported G-code file.
#[derive(Debug, Clone)]
pub struct ReviewReport<M> {
    /// Source file label (when reviewing a file).
    pub file: Option<String>,
    /// Profile label, when a profile was supplied.
    pub profile: Option<String>,
    /// Number of segments in the imported toolpath.
    pub segments: usize,
    /// The simulated metrics of the toolpath.
    pub metrics: M,
    pub findings: Vec<LocatedFinding>,
    /// Number of `error`-severity findings (warnings are not counted).
    pub error_count: usize,
    /// How many segments the verify pass actually looked at. Zero means it proved nothing.
    pub segments_inspected: usize,
    /// The wire ids of every rule that was in force, in catalog order.
    pub rules_evaluated: Vec<String>,
    /// The licensing mode this report was produced under, when the caller stamped one.
    pub license: Option<LicenseStamp>,
}

/// Two string sequences hold the same texts.
pub open spec fn same_texts(a: Seq<String>, b: Seq<String>) -> bool {
    a.len() == b.len() && forall|i: int| 0 <= i < a.len() ==> (#[trigger] a[i])@ == b[i]@
}

fn clone_strings(v: &Vec<String>) -> (r: Vec<String>)
    ensures
        same_texts(r@, v@),
{
    let mut r: Vec<String> = Vec::new();
    let mut i: usize = 0;
    while i < v.len()
        invariant
            i <= v@.len(),
            r@.len() == i,
            forall|k: int| 0 <= k < i ==> (#[trigger] r@[k])@ == v@[k]@,
        decreases v@.len() - i,
    {
        r.push(v[i].clone());
        i = i + 1;
    }
    r
}

impl<M> ReviewReport<M> {
    /// Build a review report from a verify [`Report`], resolving each finding's source line through
    /// `source_line_for_segment`; a finding that is not local to a segment has no source line.
    pub fn build<C, F: Fn(usize) -> Option<usize>>(
        file: Option<String>,
        profile: Option<String>,
        segments: usize,
        metrics: M,
        report: &Report<C>,
        source_line_for_segment: F,
    ) -> (r: ReviewReport<M>)
        requires
            forall|s: usize| source_line_for_segment.requires((s,)),
        ensures
            r.file == file,
            r.profile == profile,
            r.segments == segments,
            r.metrics == metrics,
            r.findings@.len() == report.findings@.len(),
            forall|i: int|
                #![trigger r.findings@[i]]
                0 <= i < r.findings@.len() ==> {
                    &&& located_from(r.findings@[i], report.findings@[i], r.findings@[i].source_line)
                    &&& match report.findings@[i].segment {
                        None => r.findings@[i].source_line is None,
                        Some(s) => source_line_for_segment.ensures((s,), r.findings@[i].source_line),
                    }
                },
            r.error_count == count_errors(report.findings@),
            r.segments_inspected == report.segments_inspected,
            same_texts(r.rules_evaluated@, report.rules_evaluated@),
            r.license is None,
    {
        let mut findings: Vec<LocatedFinding> = Vec::new();
        let mut i: usize = 0;
        while i < report.findings.len()
            invariant
                i <= report.findings@.len(),
                findings@.len() == i,
                forall|s: usize| source_line_for_segment.requires((s,)),
                forall|k: int|
                    #![trigger findings@[k]]
                    0 <= k < i ==> {
                        &&& located_from(findings@[k], report.findings@[k], findings@[k].source_line)
                        &&& match report.findings@[k].segment {
                            None => findings@[k].source_line is None,
                            Some(s) => source_line_for_segment.ensures((s,), findings@[k].source_line),
                        }
                    },
            decreases report.findings@.len() - i,
        {
            let f = &report.findings[i];
            let source_line = match f.segment {
                Some(s) => source_line_for_segment(s),
                None => None,
            };
            findings.push(LocatedFinding::new(f, source_line));
            i = i + 1;
        }
        ReviewReport {
            file,
            profile,
            segments,
            metrics,
            findings,
            error_count: report.error_count(),
            segments_inspected: report.segments_inspected,
            rules_evaluated: clone_strings(&report.rules_evaluated),
            license: None,
        }
    }

    /// Add source-located warnings for commands preserved by the G-code importer but not modelled
    /// by the verifier. They are non-fatal for review; machine-start workflows may still fail closed
    /// on any warning.
    pub fn add_unmodeled_gcode(&mut self, unmodeled_commands: &Vec<UnmodeledCommand>)
        ensures
            final(self).findings@.len() == old(self).findings@.len() + unmodeled_commands@.len(),
            final(self).findings@.take(old(self).findings@.len() as int) == old(self).findings@,
            forall|k: int|
                0 <= k < unmodeled_commands@.len() ==> {
                    let lf = #[trigger] final(self).findings@[old(self).findings@.len() + k];
                    let c = unmodeled_commands@[k];
                    &&& lf.rule@ == "unmodeled-gcode"@
                    &&& lf.severity == Severity::Warning
                    &&& lf.segment is None
                    &&& lf.source_line == Some(c.source_line)
                    &&& lf.message@ == c.command@ + " is preserved but not semantically verified: "@
                        + c.raw@
                },
            final(self).file == old(self).file,
            final(self).profile == old(self).profile,
            final(self).segments == old(self).segments,
            final(self).metrics == old(self).metrics,
            final(self).error_count == old(self).error_count,
            final(self).segments_inspected == old(self).segments_inspected,
            final(self).rules_evaluated == old(self).rules_evaluated,
            final(self).license == old(self).license,
    {
        let ghost n0 = self.findings@.len();
        let mut i: usize = 0;
        while i < unmodeled_commands.len()
            invariant
                i <= unmodeled_commands@.len(),
                self.findings@.len() == n0 + i,
                self.findings@.take(n0 as int) == old(self).findings@,
                n0 == old(self).findings@.len(),
                forall|k: int|
                    0 <= k < i ==> {
                        let lf = #[trigger] self.findings@[n0 + k];
                        let c = unmodeled_commands@[k];
                        &&& lf.rule@ == "unmodeled-gcode"@
                        &&& lf.severity == Severity::Warning
                        &&& lf.segment is None
                        &&& lf.source_line == Some(c.source_line)
                        &&& lf.message@ == c.command@
                            + " is preserved but not semantically verified: "@ + c.raw@
                    },
                self.file == old(self).file,
                self.profile == old(self).profile,
                self.segments == old(self).segments,
                self.metrics == old(self).metrics,
                self.error_count == old(self).error_count,
                self.segments_inspected == old(self).segments_inspected,
                self.rules_evaluated == old(self).rules_evaluated,
                self.license == old(self).license,
            decreases unmodeled_commands@.len() - i,
        {
            let c = &unmodeled_commands[i];
            let mut message = c.command.clone();
            push_str(&mut message, " is preserved but not semantically verified: ");
            push_str(&mut message, c.raw.as_str());
            let rule = RuleId::UnmodeledGcode;
            let lf = LocatedFinding {
                rule: string_from_str(rule.as_str()),
                severity: rule.default_severity(),
                segment: None,
                source_line: Some(c.source_line),
                message,
            };
            let ghost before = self.findings@;
            self.findings.push(lf);
            assert(self.findings@.take(n0 as int) =~= before.take(n0 as int));
            assert forall|k: int| 0 <= k < i + 1 implies {
                let lf = #[trigger] self.findings@[n0 + k];
                let c = unmodeled_commands@[k];
                &&& lf.rule@ == "unmodeled-gcode"@
                &&& lf.severity == Severity::Warning
                &&& lf.segment is None
                &&& lf.source_line == Some(c.source_line)
                &&& lf.message@ == c.command@ + " is preserved but not semantically verified: "@
                    + c.raw@
            } by {
                if k < i {
                    assert(self.findings@[n0 + k] == before[n0 + k]);
                }
            }
            i = i + 1;
        }
    }
}

/// The outcome of one file in a batch review.
///
/// `Passed` is inspected with no error finding (warnings do not fail a file); `Errored` is a file
/// that could not be inspected at all, a distinct verdict rather than a failure.
#[derive(Debug, Clone, Copy, PartialEq, Eq, Structural)]
pub enum BatchStatus {
    Passed,
    Failed,
    Errored,
}

/// One file's entry in a [`ReviewBatch`]: either the [`ReviewReport`] it produced, or why it
/// produced none. Exactly one of `review` / `error` is `Some`.
#[derive(Debug, Clone)]
pub struct BatchFileResult<M> {
    pub file: String,
    pub status: BatchStatus,
    /// Present iff the file was inspected.
    pub review: Option<ReviewReport<M>>,
    /// Present iff the file was not inspected: the read/import error's own message.
    pub error: Option<String>,
}

impl<M> BatchFileResult<M> {
    /// An inspected file. The status follows from the report's `error_count`.
    pub fn inspected(file: String, review: ReviewReport<M>) -> (r: BatchFileResult<M>)
        ensures
            r.file == file,
            r.status == (if review.error_count > 0 {
                BatchStatus::Failed
            } else {
                BatchStatus::Passed
            }),
            r.review == Some(review),
            r.error is None,
    {
        let status = if review.error_count > 0 {
            BatchStatus::Failed
        } else {
            BatchStatus::Passed
        };
        BatchFileResult { file, status, review: Some(review), error: None }
    }

    /// A file that could not be read or imported: recorded, never fatal to the batch.
    pub fn errored(file: String, error: String) -> (r: BatchFileResult<M>)
        ensures
            r.file == file,
            r.status == BatchStatus::Errored,
            r.review is None,
            r.error == Some(error),
    {
        BatchFileResult { file, status: BatchStatus::Errored, review: None, error: Some(error) }
    }
}

/// Per-rule roll-up across a batch.
#[derive(Debug, Clone)]
pub struct RuleTally {
    /// Stable kebab-case rule id (see [`RuleId`]).
    pub rule: String,
    /// Total `error`-severity findings for this rule across the batch.
    pub errors: usize,
    /// Total `warning`-severity findings for this rule across the batch.
    pub warnings: usize,
    /// How many files carry at least one finding for this rule.
    pub files: usize,
}

/// The batch-review report: one envelope over N files, each nesting an unmodified [`ReviewReport`].
#[derive(Debug, Clone)]
pub struct ReviewBatch<M> {
    pub files_total: usize,
    pub files_passed: usize,
    pub files_failed: usize,
    pub files_errored: usize,
    /// Profile label, once for the batch.
    pub profile: Option<String>,
    /// Per-rule roll-up, strictly ascending by rule id.
    pub findings_by_rule: Vec<RuleTally>,
    /// One entry per input path, in input order. No dedup: a path listed twice is reviewed twice.
    pub results: Vec<BatchFileResult<M>>,
    /// The licensing mode this report was produced under, when the caller stamped one.
    pub license: Option<LicenseStamp>,
}

/// The findings a batch entry contributes: its review's findings, or none when it was not inspected.
pub open spec fn findings_of<M>(r: BatchFileResult<M>) -> Seq<LocatedFinding> {
    match r.review {
        Some(review) => review.findings@,
        None => Seq::empty(),
    }
}

/// How many findings of `fs` carry `rule` at `severity`.
pub open spec fn file_count(fs: Seq<LocatedFinding>, rule: Seq<char>, severity: Severity) -> nat
    decreases fs.len(),
{
    if fs.len() == 0 {
        0
    } else {
        file_count(fs.drop_last(), rule, severity) + if fs.last().rule@ == rule
            && fs.last().severity == severity {
            1nat
        } else {
            0nat
        }
    }
}

/// Whether some finding of `fs` carries `rule`.
pub open spec fn file_has(fs: Seq<LocatedFinding>, rule: Seq<char>) -> bool {
    exists|j: int| 0 <= j < fs.len() && (#[trigger] fs[j]).rule@ == rule
}

/// How many findings across the batch carry `rule` at `severity`.
pub open spec fn batch_count<M>(rs: Seq<BatchFileResult<M>>, rule: Seq<char>, severity: Severity) -> nat
    decreases rs.len(),
{
    if rs.len() == 0 {
        0
    } else {
        batch_count(rs.drop_last(), rule, severity) + file_count(findings_of(rs.last()), rule, severity)
    }
}

/// How many files of the batch carry at least one finding for `rule`.
pub open spec fn batch_files<M>(rs: Seq<BatchFileResult<M>>, rule: Seq<char>) -> nat
    decreases rs.len(),
{
    if rs.len() == 0 {
        0
    } else {
        batch_files(rs.drop_last(), rule) + if file_has(findings_of(rs.last()), rule) {
            1nat
        } else {
            0nat
        }
    }
}

/// Whether any file of the batch carries a finding for `rule`.
pub open spec fn batch_has<M>(rs: Seq<BatchFileResult<M>>, rule: Seq<char>) -> bool {
    exists|i: int| 0 <= i < rs.len() && file_has(findings_of(#[trigger] rs[i]), rule)
}

/// How many entries of the batch have `status`.
pub open spec fn status_count<M>(rs: Seq<BatchFileResult<M>>, status: BatchStatus) -> nat
    decreases rs.len(),
{
    if rs.len() == 0 {
        0
    } else {
        status_count(rs.drop_last(), status) + if rs.last().status == status {
            1nat
        } else {
            0nat
        }
    }
}

/// The total number of findings across the batch.
pub open spec fn total_findings<M>(rs: Seq<BatchFileResult<M>>) -> nat
    decreases rs.len(),
{
    if rs.len() == 0 {
        0
    } else {
        total_findings(rs.drop_last()) + findings_of(rs.last()).len()
    }
}

/// The tallies are strictly ascending by rule id.
pub open spec fn tallies_sorted(t: Seq<RuleTally>) -> bool {
    forall|i: int, j: int| 0 <= i < j < t.len() ==> lex_lt(#[trigger] t[i].rule@, #[trigger] t[j].rule@)
}

/// `t` is the per-rule roll-up of the batch entries `rs` followed by the partial file `fs`.
pub open spec fn tallies_of<M>(t: Seq<RuleTally>, rs: Seq<BatchFileResult<M>>, fs: Seq<LocatedFinding>) -> bool {
    &&& tallies_sorted(t)
    &&& forall|i: int|
        #![trigger t[i]]
        0 <= i < t.len() ==> {
            &&& batch_has(rs, t[i].rule@) || file_has(fs, t[i].rule@)
            &&& t[i].errors == batch_count(rs, t[i].rule@, Severity::Error) + file_count(
                fs,
                t[i].rule@,
                Severity::Error,
            )
            &&& t[i].warnings == batch_count(rs, t[i].rule@, Severity::Warning) + file_count(
                fs,
                t[i].rule@,
                Severity::Warning,
            )
            &&& t[i].files == batch_files(rs, t[i].rule@) + if file_has(fs, t[i].rule@) {
                1nat
            } else {
                0nat
            }
        }
    &&& forall|rule: Seq<char>|
        #![trigger batch_has(rs, rule)]
        #![trigger file_has(fs, rule)]
        batch_has(rs, rule) || file_has(fs, rule) ==> exists|i: int|
            0 <= i < t.len() && (#[trigger] t[i]).rule@ == rule
}

proof fn lemma_file_count_push(fs: Seq<LocatedFinding>, f: LocatedFinding, rule: Seq<char>, severity: Severity)
    ensures
        file_count(fs.push(f), rule, severity) == file_count(fs, rule, severity) + if f.rule@ == rule
            && f.severity == severity {
            1nat
        } else {
            0nat
        },
        file_has(fs.push(f), rule) == (file_has(fs, rule) || f.rule@ == rule),
{
    assert(fs.push(f).drop_last() =~= fs);
    if file_has(fs, rule) {
        let j = choose|j: int| 0 <= j < fs.len() && (#[trigger] fs[j]).rule@ == rule;
        assert(fs.push(f)[j] == fs[j]);
    }
    if f.rule@ == rule {
        assert(fs.push(f)[fs.len() as int] == f);
    }
    if file_has(fs.push(f), rule) && f.rule@ != rule {
        let j = choose|j: int| 0 <= j < fs.push(f).len() && (#[trigger] fs.push(f)[j]).rule@ == rule;
        assert(fs[j] == fs.push(f)[j]);
    }
}

proof fn lemma_file_absent(fs: Seq<LocatedFinding>, rule: Seq<char>, severity: Severity)
    requires
        !file_has(fs, rule),
    ensures
        file_count(fs, rule, severity) == 0,
    decreases fs.len(),
{
    if fs.len() > 0 {
        assert(fs[fs.len() - 1] == fs.last());
        if file_has(fs.drop_last(), rule) {
            let j = choose|j: int| 0 <= j < fs.drop_last().len() && (#[trigger] fs.drop_last()[j]).rule@ == rule;
            assert(fs[j] == fs.drop_last()[j]);
        }
        lemma_file_absent(fs.drop_last(), rule, severity);
    }
}

proof fn lemma_file_count_bound(fs: Seq<LocatedFinding>, rule: Seq<char>, severity: Severity)
    ensures
        file_count(fs, rule, severity) <= fs.len(),
    decreases fs.len(),
{
    if fs.len() > 0 {
        lemma_file_count_bound(fs.drop_last(), rule, severity);
    }
}

proof fn lemma_batch_absent<M>(rs: Seq<BatchFileResult<M>>, rule: Seq<char>)
    requires
        !batch_has(rs, rule),
    ensures
        batch_count(rs, rule, Severity::Error) == 0,
        batch_count(rs, rule, Severity::Warning) == 0,
        batch_files(rs, rule) == 0,
    decreases rs.len(),
{
    if rs.len() > 0 {
        let last = rs.last();
        assert(rs[rs.len() - 1] == last);
        assert(!file_has(findings_of(last), rule));
        lemma_file_absent(findings_of(last), rule, Severity::Error);
        lemma_file_absent(findings_of(last), rule, Severity::Warning);
        if batch_has(rs.drop_last(), rule) {
            let i = choose|i: int| 0 <= i < rs.drop_last().len() && file_has(findings_of(#[trigger] rs.drop_last()[i]), rule);
            assert(rs[i] == rs.drop_last()[i]);
        }
        lemma_batch_absent(rs.drop_last(), rule);
    }
}

proof fn lemma_batch_bounds<M>(rs: Seq<BatchFileResult<M>>, rule: Seq<char>)
    ensures
        batch_count(rs, rule, Severity::Error) + batch_count(rs, rule, Severity::Warning)
            <= total_findings(rs),
        batch_files(rs, rule) <= rs.len(),
    decreases rs.len(),
{
    if rs.len() > 0 {
        lemma_batch_bounds(rs.drop_last(), rule);
        lemma_file_count_sum_bound(findings_of(rs.last()), rule);
    }
}

proof fn lemma_file_count_sum_bound(fs: Seq<LocatedFinding>, rule: Seq<char>)
    ensures
        file_count(fs, rule, Severity::Error) + file_count(fs, rule, Severity::Warning) <= fs.len(),
    decreases fs.len(),
{
    if fs.len() > 0 {
        lemma_file_count_sum_bound(fs.drop_last(), rule);
    }
}

/// Extends the batch prefix `rs` by the finished entry `r`.
proof fn lemma_batch_push<M>(rs: Seq<BatchFileResult<M>>, r: BatchFileResult<M>, rule: Seq<char>)
    ensures
        batch_count(rs.push(r), rule, Severity::Error) == batch_count(rs, rule, Severity::Error)
            + file_count(findings_of(r), rule, Severity::Error),
        batch_count(rs.push(r), rule, Severity::Warning) == batch_count(rs, rule, Severity::Warning)
            + file_count(findings_of(r), rule, Severity::Warning),
        batch_files(rs.push(r), rule) == batch_files(rs, rule) + if file_has(findings_of(r), rule) {
            1nat
        } else {
            0nat
        },
        batch_has(rs.push(r), rule) == (batch_has(rs, rule) || file_has(findings_of(r), rule)),
        total_findings(rs.push(r)) == total_findings(rs) + findings_of(r).len(),
{
    assert(rs.push(r).drop_last() =~= rs);
    if batch_has(rs, rule) {
        let i = choose|i: int| 0 <= i < rs.len() && file_has(findings_of(#[trigger] rs[i]), rule);
        assert(rs.push(r)[i] == rs[i]);
    }
    if file_has(findings_of(r), rule) {
        assert(rs.push(r)[rs.len() as int] == r);
    }
    if batch_has(rs.push(r), rule) && !file_has(findings_of(r), rule) {
        let i = choose|i: int| 0 <= i < rs.push(r).len() && file_has(findings_of(#[trigger] rs.push(r)[i]), rule);
        assert(rs[i] == rs.push(r)[i]);
    }
}

/// Whether the tally at `p` sorts strictly before `rule`.
fn rule_sorts_before(t: &Vec<RuleTally>, p: usize, rule: &Vec<char>) -> (b: bool)
    requires
        p < t@.len(),
    ensures
        b == lex_lt(t@[p as int].rule@, rule@),
{
    let other = chars_of(t[p].rule.as_str());
    compare_chars(&other, rule) < 0
}

/// Whether the tally at `p` is for `rule`.
fn rule_is(t: &Vec<RuleTally>, p: usize, rule: &Vec<char>) -> (b: bool)
    requires
        p < t@.len(),
    ensures
        b == (t@[p as int].rule@ == rule@),
{
    let other = chars_of(t[p].rule.as_str());
    chars_eq(&other, rule)
}

/// Whether some finding of `fs[..j]` carries the rule `rule`.
fn seen_before(fs: &Vec<LocatedFinding>, j: usize, rule: &Vec<char>) -> (b: bool)
    requires
        j <= fs@.len(),
    ensures
        b == file_has(fs@.take(j as int), rule@),
{
    let mut k: usize = 0;
    while k < j
        invariant
            k <= j <= fs@.len(),
            forall|m: int| 0 <= m < k ==> (#[trigger] fs@[m]).rule@ != rule@,
        decreases j - k,
    {
        let other = chars_of(fs[k].rule.as_str());
        if chars_eq(&other, rule) {
            assert(fs@.take(j as int)[k as int] == fs@[k as int]);
            return true;
        }
        k = k + 1;
    }
    assert forall|m: int| 0 <= m < j implies (#[trigger] fs@.take(j as int)[m]).rule@ != rule@ by {
        assert(fs@.take(j as int)[m] == fs@[m]);
    }
    false
}

/// Counts the finding `f` into the roll-up `t` of the batch prefix `rs` and partial file `fs`.
fn tally_finding<M>(
    t: &mut Vec<RuleTally>,
    Ghost(rs): Ghost<Seq<BatchFileResult<M>>>,
    Ghost(fs): Ghost<Seq<LocatedFinding>>,
    f: &LocatedFinding,
    first_in_file: bool,
    Ghost(bound): Ghost<nat>,
)
    requires
        tallies_of(old(t)@, rs, fs),
        first_in_file == !file_has(fs, f.rule@),
        total_findings(rs) + fs.len() + 1 <= bound,
        bound <= usize::MAX,
        rs.len() + 1 <= usize::MAX,
    ensures
        tallies_of(final(t)@, rs, fs.push(*f)),
{
    let rule = chars_of(f.rule.as_str());
    let ghost r = rule@;
    let ghost fs2 = fs.push(*f);
    proof {
        lemma_file_count_push(fs, *f, r, Severity::Error);
        lemma_file_count_push(fs, *f, r, Severity::Warning);
        assert forall|rule2: Seq<char>| rule2 != r implies {
            &&& file_count(fs2, rule2, Severity::Error) == file_count(fs, rule2, Severity::Error)
            &&& file_count(fs2, rule2, Severity::Warning) == file_count(fs, rule2, Severity::Warning)
            &&& file_has(fs2, rule2) == file_has(fs, rule2)
        } by {
            lemma_file_count_push(fs, *f, rule2, Severity::Error);
            lemma_file_count_push(fs, *f, rule2, Severity::Warning);
        }
        lemma_batch_bounds(rs, r);
        lemma_file_count_sum_bound(fs, r);
    }
    // find the first tally that does not sort before the rule
    let mut p: usize = 0;
    while p < t.len() && rule_sorts_before(t, p, &rule)
        invariant
            p <= t@.len(),
            forall|k: int| 0 <= k < p ==> lex_lt((#[trigger] t@[k]).rule@, r),
            rule@ == r,
        decreases t@.len() - p,
    {
        p = p + 1;
    }
    let found = p < t.len() && rule_is(t, p, &rule);
    let ghost t0 = t@;
    proof {
        if p < t0.len() && !found {
            lemma_lex_total(t0[p as int].rule@, r);
            assert(lex_lt(r, t0[p as int].rule@));
        }
        assert forall|k: int| 0 <= k < t0.len() && k != p implies (#[trigger] t0[k]).rule@ != r by {
            lemma_lex_total(t0[k].rule@, r);
            lemma_lex_total(r, r);
            if k > p {
                assert(lex_lt(t0[p as int].rule@, t0[k].rule@));
                if !found {
                    lemma_lex_trans(r, t0[p as int].rule@, t0[k].rule@);
                }
            }
        }
    }
    if found {
        // the rule already has a tally: count the finding into it
        let ghost e = t0[p as int];
        assert(e.rule@ == r);
        let is_error = f.severity == Severity::Error;
        let entry = RuleTally {
            rule: t[p].rule.clone(),
            errors: if is_error { t[p].errors + 1 } else { t[p].errors },
            warnings: if is_error { t[p].warnings } else { t[p].warnings + 1 },
            files: if first_in_file { t[p].files + 1 } else { t[p].files },
        };
        t.set(p, entry);
        proof {
            let t1 = t@;
            assert forall|i: int| 0 <= i < t1.len() && i != p implies #[trigger] t1[i] == t0[i] by {}
            assert forall|i: int| #![trigger t1[i]] 0 <= i < t1.len() implies {
                &&& batch_has(rs, t1[i].rule@) || file_has(fs2, t1[i].rule@)
                &&& t1[i].errors == batch_count(rs, t1[i].rule@, Severity::Error) + file_count(
                    fs2,
                    t1[i].rule@,
                    Severity::Error,
                )
                &&& t1[i].warnings == batch_count(rs, t1[i].rule@, Severity::Warning) + file_count(
                    fs2,
                    t1[i].rule@,
                    Severity::Warning,
                )
                &&& t1[i].files == batch_files(rs, t1[i].rule@) + if file_has(fs2, t1[i].rule@) {
                    1nat
                } else {
                    0nat
                }
            } by {
                if i != p {
                    assert(t1[i] == t0[i]);
                    assert(t0[i].rule@ != r);
                    lemma_file_count_push(fs, *f, t0[i].rule@, Severity::Error);
                    lemma_file_count_push(fs, *f, t0[i].rule@, Severity::Warning);
                    assert(batch_has(rs, t0[i].rule@) || file_has(fs, t0[i].rule@));
                }
            }
            assert(tallies_sorted(t1)) by {
                assert forall|i: int, j: int| 0 <= i < j < t1.len() implies lex_lt(
                    #[trigger] t1[i].rule@,
                    #[trigger] t1[j].rule@,
                ) by {
                    assert(t1[i].rule@ == t0[i].rule@);
                    assert(t1[j].rule@ == t0[j].rule@);
                }
            }
            assert forall|rule2: Seq<char>|
                batch_has(rs, rule2) || file_has(fs2, rule2) implies exists|i: int|
                0 <= i < t1.len() && (#[trigger] t1[i]).rule@ == rule2 by {
                if rule2 == r {
                    assert(t1[p as int].rule@ == rule2);
                } else {
                    lemma_file_count_push(fs, *f, rule2, Severity::Error);
                    assert(batch_has(rs, rule2) || file_has(fs, rule2));
                    let i = choose|i: int| 0 <= i < t0.len() && (#[trigger] t0[i]).rule@ == rule2;
                    if i == p {
                        assert(t0[i].rule@ == r);
                    }
                    assert(t1[i].rule@ == rule2);
                }
            }
        }
    } else {
        // a rule seen for the first time: insert its tally where it sorts
        proof {
            assert forall|k: int| 0 <= k < t0.len() implies (#[trigger] t0[k]).rule@ != r by {
            }
            if batch_has(rs, r) || file_has(fs, r) {
                let i = choose|i: int| 0 <= i < t0.len() && (#[trigger] t0[i]).rule@ == r;
            }
            lemma_batch_absent(rs, r);
            lemma_file_absent(fs, r, Severity::Error);
            lemma_file_absent(fs, r, Severity::Warning);
            if p < t0.len() {
                assert(lex_lt(r, t0[p as int].rule@));
            }
        }
        let is_error = f.severity == Severity::Error;
        let entry = RuleTally {
            rule: f.rule.clone(),
            errors: if is_error { 1 } else { 0 },
            warnings: if is_error { 0 } else { 1 },
            files: 1,
        };
        t.insert(p, entry);
        proof {
            let t1 = t@;
            assert(t1 == t0.insert(p as int, entry));
            assert forall|k: int| 0 <= k < t0.len() implies lex_lt(r, (#[trigger] t0[k]).rule@)
                || k < p by {
                if k > p {
                    assert(lex_lt(t0[p as int].rule@, t0[k].rule@));
                    lemma_lex_trans(r, t0[p as int].rule@, t0[k].rule@);
                }
            }
            assert(tallies_sorted(t1)) by {
                assert forall|i: int, j: int| 0 <= i < j < t1.len() implies lex_lt(
                    #[trigger] t1[i].rule@,
                    #[trigger] t1[j].rule@,
                ) by {
                    if j < p {
                        assert(t1[i] == t0[i] && t1[j] == t0[j]);
                    } else if j == p {
                        assert(t1[i] == t0[i]);
                    } else if i < p {
                        assert(t1[i] == t0[i] && t1[j] == t0[j - 1]);
                        assert(lex_lt(r, t0[j - 1].rule@));
                        lemma_lex_trans(t0[i].rule@, r, t0[j - 1].rule@);
                    } else if i == p {
                        assert(t1[j] == t0[j - 1]);
                    } else {
                        assert(t1[i] == t0[i - 1] && t1[j] == t0[j - 1]);
                    }
                }
            }
            assert forall|i: int| #![trigger t1[i]] 0 <= i < t1.len() && i != p implies {
                &&& (i < p ==> t1[i] == t0[i])
                &&& (i > p ==> t1[i] == t0[i - 1])
                &&& t1[i].rule@ != r
            } by {
                if i < p {
                    assert(t1[i] == t0[i]);
                } else {
                    assert(t1[i] == t0[i - 1]);
                }
            }
            assert forall|rule2: Seq<char>|
                batch_has(rs, rule2) || file_has(fs2, rule2) implies exists|i: int|
                0 <= i < t1.len() && (#[trigger] t1[i]).rule@ == rule2 by {
                if rule2 == r {
                    assert(t1[p as int].rule@ == rule2);
                } else {
                    lemma_file_count_push(fs, *f, rule2, Severity::Error);
                    assert(batch_has(rs, rule2) || file_has(fs, rule2));
                    let k = choose|k: int| 0 <= k < t0.len() && (#[trigger] t0[k]).rule@ == rule2;
                    if k < p {
                        assert(t1[k].rule@ == rule2);
                    } else {
                        assert(t1[k + 1].rule@ == rule2);
                    }
                }
            }
        }
    }
}

impl<M> ReviewBatch<M> {
    /// Aggregate per-file outcomes into the batch envelope. Pure: the caller does the I/O.
    pub fn build(profile: Option<String>, results: Vec<BatchFileResult<M>>) -> (b: ReviewBatch<M>)
        requires
            total_findings(results@) <= usize::MAX,
        ensures
            b.files_total == results@.len(),
            b.files_passed == status_count(results@, BatchStatus::Passed),
            b.files_failed == status_count(results@, BatchStatus::Failed),
            b.files_errored == status_count(results@, BatchStatus::Errored),
            b.profile == profile,
            b.results@ == results@,
            b.license is None,
            tallies_of(b.findings_by_rule@, results@, Seq::empty()),
    {
        let n = results.len();
        let mut passed: usize = 0;
        let mut failed: usize = 0;
        let mut errored: usize = 0;
        let mut tallies: Vec<RuleTally> = Vec::new();
        let mut i: usize = 0;
        proof {
            assert(results@.take(0) =~= Seq::<BatchFileResult<M>>::empty());
            assert forall|rule: Seq<char>| !batch_has(results@.take(0), rule) && !file_has(Seq::<LocatedFinding>::empty(), rule) by {}
        }
        while i < n
            invariant
                i <= n,
                n == results@.len(),
                total_findings(results@) <= usize::MAX,
                passed == status_count(results@.take(i as int), BatchStatus::Passed),
                failed == status_count(results@.take(i as int), BatchStatus::Failed),
                errored == status_count(results@.take(i as int), BatchStatus::Errored),
                passed <= i,
                failed <= i,
                errored <= i,
                tallies_of(tallies@, results@.take(i as int), Seq::empty()),
            decreases n - i,
        {
            let r = &results[i];
            let ghost rs = results@.take(i as int);
            proof {
                assert(results@.take(i + 1).drop_last() =~= rs);
                assert(results@.take(i + 1) =~= rs.push(*r));
                lemma_total_prefix(results@, i as int);
            }
            match r.status {
                BatchStatus::Passed => {
                    passed = passed + 1;
                },
                BatchStatus::Failed => {
                    failed = failed + 1;
                },
                BatchStatus::Errored => {
                    errored = errored + 1;
                },
            }
            match &r.review {
                Some(review) => {
                    let fs = &review.findings;
                    let mut j: usize = 0;
                    proof {
                        assert(fs@.take(0) =~= Seq::<LocatedFinding>::empty());
                        assert(findings_of(*r) == fs@);
                    }
                    while j < fs.len()
                        invariant
                            j <= fs@.len(),
                            fs@ == findings_of(*r),
                            rs.len() == i,
                            i < n,
                            n == results@.len(),
                            total_findings(rs) + fs@.len() <= total_findings(results@),
                            total_findings(results@) <= usize::MAX,
                            tallies_of(tallies@, rs, fs@.take(j as int)),
                        decreases fs@.len() - j,
                    {
                        let rule = chars_of(fs[j].rule.as_str());
                        let first = !seen_before(fs, j, &rule);
                        tally_finding::<M>(
                            &mut tallies,
                            Ghost(rs),
                            Ghost(fs@.take(j as int)),
                            &fs[j],
                            first,
                            Ghost(total_findings(results@)),
                        );
                        proof {
                            assert(fs@.take(j as int).push(fs@[j as int]) =~= fs@.take(j + 1));
                        }
                        j = j + 1;
                    }
                    proof {
                        assert(fs@.take(j as int) =~= fs@);
                    }
                },
                None => {
                    proof {
                        assert(findings_of(*r) =~= Seq::<LocatedFinding>::empty());
                    }
                },
            }
            proof {
                lemma_tallies_close(tallies@, rs, *r);
            }
            i = i + 1;
        }
        proof {
            assert(results@.take(n as int) =~= results@);
        }
        ReviewBatch {
            files_total: n,
            files_passed: passed,
            files_failed: failed,
            files_errored: errored,
            profile,
            findings_by_rule: tallies,
            results,
            license: None,
        }
    }
}

/// The entry `rs[i]` adds its findings to those of the entries before it, within the batch total.
proof fn lemma_total_prefix<M>(rs: Seq<BatchFileResult<M>>, i: int)
    requires
        0 <= i < rs.len(),
    ensures
        total_findings(rs.take(i)) + findings_of(rs[i]).len() <= total_findings(rs),
    decreases rs.len() - i,
{
    assert(rs.take(i + 1).drop_last() =~= rs.take(i));
    assert(rs.take(i + 1).last() == rs[i]);
    if i + 1 == rs.len() {
        assert(rs.take(i + 1) =~= rs);
    } else {
        lemma_total_prefix(rs, i + 1);
    }
}

/// Finishing the partial file `findings_of(r)` turns it into the finished entry `r`.
proof fn lemma_tallies_close<M>(t: Seq<RuleTally>, rs: Seq<BatchFileResult<M>>, r: BatchFileResult<M>)
    requires
        tallies_of(t, rs, findings_of(r)),
    ensures
        tallies_of(t, rs.push(r), Seq::empty()),
{
    let e = Seq::<LocatedFinding>::empty();
    assert forall|rule: Seq<char>| #![trigger batch_has(rs.push(r), rule)] true implies {
        &&& batch_count(rs.push(r), rule, Severity::Error) == batch_count(rs, rule, Severity::Error)
            + file_count(findings_of(r), rule, Severity::Error)
        &&& batch_count(rs.push(r), rule, Severity::Warning) == batch_count(rs, rule, Severity::Warning)
            + file_count(findings_of(r), rule, Severity::Warning)
        &&& batch_files(rs.push(r), rule) == batch_files(rs, rule) + if file_has(findings_of(r), rule) {
            1nat
        } else {
            0nat
        }
        &&& batch_has(rs.push(r), rule) == (batch_has(rs, rule) || file_has(findings_of(r), rule))
        &&& !file_has(e, rule)
        &&& file_count(e, rule, Severity::Error) == 0
        &&& file_count(e, rule, Severity::Warning) == 0
    } by {
        lemma_batch_push(rs, r, rule);
    }
    assert forall|i: int| #![trigger t[i]] 0 <= i < t.len() implies {
        &&& batch_has(rs.push(r), t[i].rule@) || file_has(e, t[i].rule@)
        &&& t[i].errors == batch_count(rs.push(r), t[i].rule@, Severity::Error) + file_count(
            e,
            t[i].rule@,
            Severity::Error,
        )
        &&& t[i].warnings == batch_count(rs.push(r), t[i].rule@, Severity::Warning) + file_count(
            e,
            t[i].rule@,
            Severity::Warning,
        )
        &&& t[i].files == batch_files(rs.push(r), t[i].rule@) + if file_has(e, t[i].rule@) {
            1nat
        } else {
            0nat
        }
    } by {
        assert(batch_has(rs.push(r), t[i].rule@) || true);
    }
    assert forall|rule: Seq<char>|
        batch_has(rs.push(r), rule) || file_has(e, rule) implies exists|i: int|
        0 <= i < t.len() && (#[trigger] t[i]).rule@ == rule by {
        assert(batch_has(rs.push(r), rule) || true);
    }
}


/// Law: every batch entry has exactly one of the three verdicts, so the three counts add up to the
/// number of files.
pub proof fn law_batch_verdicts_partition<M>(rs: Seq<BatchFileResult<M>>)
    ensures
        status_count(rs, BatchStatus::Passed) + status_count(rs, BatchStatus::Failed) + status_count(
            rs,
            BatchStatus::Errored,
        ) == rs.len(),
    decreases rs.len(),
{
    if rs.len() > 0 {
        law_batch_verdicts_partition(rs.drop_last());
    }
}

/// Law: a batch roll-up names a rule exactly when some inspected file carries a finding for it, and
/// then counts it in at least one file.
pub proof fn law_tally_names_exactly_the_found_rules<M>(
    t: Seq<RuleTally>,
    rs: Seq<BatchFileResult<M>>,
    rule: Seq<char>,
)
    requires
        tallies_of(t, rs, Seq::empty()),
    ensures
        batch_has(rs, rule) <==> exists|i: int| 0 <= i < t.len() && (#[trigger] t[i]).rule@ == rule,
        forall|i: int| 0 <= i < t.len() ==> (#[trigger] t[i]).files >= 1,
{
    let e = Seq::<LocatedFinding>::empty();
    assert(!file_has(e, rule));
    if exists|i: int| 0 <= i < t.len() && (#[trigger] t[i]).rule@ == rule {
        let i = choose|i: int| 0 <= i < t.len() && (#[trigger] t[i]).rule@ == rule;
        assert(batch_has(rs, t[i].rule@) || file_has(e, t[i].rule@));
    }
    assert forall|i: int| 0 <= i < t.len() implies (#[trigger] t[i]).files >= 1 by {
        assert(batch_has(rs, t[i].rule@) || file_has(e, t[i].rule@));
        lemma_batch_files_positive(rs, t[i].rule@);
    }
}

/// The rule ids of the tallies, in order.
pub open spec fn tally_rules(t: Seq<RuleTally>) -> Seq<Seq<char>> {
    t.map_values(|x: RuleTally| x.rule@)
}

/// The findings the tallies count in all: the sum of their error and warning counts.
pub open spec fn tally_sum(t: Seq<RuleTally>) -> nat
    decreases t.len(),
{
    if t.len() == 0 {
        0
    } else {
        tally_sum(t.drop_last()) + t.last().errors as nat + t.last().warnings as nat
    }
}

/// How many findings of `fs` carry a rule listed in `rules`.
pub open spec fn count_listed(fs: Seq<LocatedFinding>, rules: Seq<Seq<char>>) -> nat
    decreases fs.len(),
{
    if fs.len() == 0 {
        0
    } else {
        count_listed(fs.drop_last(), rules) + if rules.contains(fs.last().rule@) {
            1nat
        } else {
            0nat
        }
    }
}

/// How many findings across the batch carry a rule listed in `rules`.
pub open spec fn batch_listed<M>(rs: Seq<BatchFileResult<M>>, rules: Seq<Seq<char>>) -> nat
    decreases rs.len(),
{
    if rs.len() == 0 {
        0
    } else {
        batch_listed(rs.drop_last(), rules) + count_listed(findings_of(rs.last()), rules)
    }
}

proof fn lemma_count_listed_push(fs: Seq<LocatedFinding>, rules: Seq<Seq<char>>, r: Seq<char>)
    requires
        !rules.contains(r),
    ensures
        count_listed(fs, rules.push(r)) == count_listed(fs, rules) + file_count(fs, r, Severity::Error)
            + file_count(fs, r, Severity::Warning),
    decreases fs.len(),
{
    if fs.len() > 0 {
        lemma_count_listed_push(fs.drop_last(), rules, r);
        let x = fs.last().rule@;
        if rules.push(r).contains(x) && x != r {
            let k = choose|k: int| 0 <= k < rules.push(r).len() && rules.push(r)[k] == x;
            assert(rules[k] == x);
        }
        if rules.contains(x) {
            let k = choose|k: int| 0 <= k < rules.len() && rules[k] == x;
            assert(rules.push(r)[k] == x);
        }
        if x == r {
            assert(rules.push(r)[rules.len() as int] == r);
        }
    }
}

proof fn lemma_batch_listed_push<M>(rs: Seq<BatchFileResult<M>>, rules: Seq<Seq<char>>, r: Seq<char>)
    requires
        !rules.contains(r),
    ensures
        batch_listed(rs, rules.push(r)) == batch_listed(rs, rules) + batch_count(rs, r, Severity::Error)
            + batch_count(rs, r, Severity::Warning),
    decreases rs.len(),
{
    if rs.len() > 0 {
        lemma_batch_listed_push(rs.drop_last(), rules, r);
        lemma_count_listed_push(findings_of(rs.last()), rules, r);
    }
}

proof fn lemma_count_listed_all(fs: Seq<LocatedFinding>, rules: Seq<Seq<char>>)
    requires
        forall|j: int| 0 <= j < fs.len() ==> rules.contains((#[trigger] fs[j]).rule@),
    ensures
        count_listed(fs, rules) == fs.len(),
    decreases fs.len(),
{
    if fs.len() > 0 {
        assert forall|j: int| 0 <= j < fs.drop_last().len() implies rules.contains((#[trigger] fs.drop_last()[j]).rule@) by {
            assert(fs.drop_last()[j] == fs[j]);
        }
        lemma_count_listed_all(fs.drop_last(), rules);
        assert(rules.contains(fs[fs.len() - 1].rule@));
    }
}

proof fn lemma_batch_listed_all<M>(rs: Seq<BatchFileResult<M>>, rules: Seq<Seq<char>>)
    requires
        forall|rule: Seq<char>| #[trigger] batch_has(rs, rule) ==> rules.contains(rule),
    ensures
        batch_listed(rs, rules) == total_findings(rs),
    decreases rs.len(),
{
    if rs.len() > 0 {
        let d = rs.drop_last();
        assert forall|rule: Seq<char>| #[trigger] batch_has(d, rule) implies rules.contains(rule) by {
            let i = choose|i: int| 0 <= i < d.len() && file_has(findings_of(#[trigger] d[i]), rule);
            assert(rs[i] == d[i]);
            assert(batch_has(rs, rule));
        }
        lemma_batch_listed_all(d, rules);
        let fs = findings_of(rs.last());
        assert forall|j: int| 0 <= j < fs.len() implies rules.contains((#[trigger] fs[j]).rule@) by {
            assert(file_has(fs, fs[j].rule@));
            assert(rs[rs.len() - 1] == rs.last());
            assert(batch_has(rs, fs[j].rule@));
        }
        lemma_count_listed_all(fs, rules);
    }
}

proof fn lemma_tally_sum_listed<M>(t: Seq<RuleTally>, rs: Seq<BatchFileResult<M>>)
    requires
        tallies_sorted(t),
        forall|i: int|
            #![trigger t[i]]
            0 <= i < t.len() ==> {
                &&& t[i].errors == batch_count(rs, t[i].rule@, Severity::Error)
                &&& t[i].warnings == batch_count(rs, t[i].rule@, Severity::Warning)
            },
    ensures
        tally_sum(t) == batch_listed(rs, tally_rules(t)),
    decreases t.len(),
{
    if t.len() == 0 {
        lemma_batch_listed_none(rs, tally_rules(t));
    } else {
        let d = t.drop_last();
        assert forall|i: int, j: int| 0 <= i < j < d.len() implies lex_lt(#[trigger] d[i].rule@, #[trigger] d[j].rule@) by {
            assert(d[i] == t[i] && d[j] == t[j]);
        }
        assert forall|i: int| #![trigger d[i]] 0 <= i < d.len() implies {
            &&& d[i].errors == batch_count(rs, d[i].rule@, Severity::Error)
            &&& d[i].warnings == batch_count(rs, d[i].rule@, Severity::Warning)
        } by {
            assert(d[i] == t[i]);
        }
        lemma_tally_sum_listed(d, rs);
        let x = t.last();
        assert(tally_rules(t) =~= tally_rules(d).push(x.rule@));
        assert(!tally_rules(d).contains(x.rule@)) by {
            if tally_rules(d).contains(x.rule@) {
                let k = choose|k: int| 0 <= k < tally_rules(d).len() && tally_rules(d)[k] == x.rule@;
                assert(d[k] == t[k]);
                assert(lex_lt(t[k].rule@, t[t.len() - 1].rule@));
                crate::text::lemma_lex_total(x.rule@, x.rule@);
            }
        }
        lemma_batch_listed_push(rs, tally_rules(d), x.rule@);
        assert(t[t.len() - 1] == x);
    }
}

proof fn lemma_batch_listed_none<M>(rs: Seq<BatchFileResult<M>>, rules: Seq<Seq<char>>)
    requires
        rules.len() == 0,
    ensures
        batch_listed(rs, rules) == 0,
    decreases rs.len(),
{
    if rs.len() > 0 {
        lemma_batch_listed_none(rs.drop_last(), rules);
        lemma_count_listed_none(findings_of(rs.last()), rules);
    }
}

proof fn lemma_count_listed_none(fs: Seq<LocatedFinding>, rules: Seq<Seq<char>>)
    requires
        rules.len() == 0,
    ensures
        count_listed(fs, rules) == 0,
    decreases fs.len(),
{
    if fs.len() > 0 {
        lemma_count_listed_none(fs.drop_last(), rules);
    }
}

/// Law: the per-rule tallies of a batch count every finding of its inspected files exactly once:
/// their error and warning counts add up to the number of findings.
pub proof fn law_tallies_count_every_finding<M>(t: Seq<RuleTally>, rs: Seq<BatchFileResult<M>>)
    requires
        tallies_of(t, rs, Seq::empty()),
    ensures
        tally_sum(t) == total_findings(rs),
{
    let e = Seq::<LocatedFinding>::empty();
    assert forall|i: int|
        #![trigger t[i]]
        0 <= i < t.len() implies {
            &&& t[i].errors == batch_count(rs, t[i].rule@, Severity::Error)
            &&& t[i].warnings == batch_count(rs, t[i].rule@, Severity::Warning)
        } by {
        assert(file_count(e, t[i].rule@, Severity::Error) == 0);
        assert(file_count(e, t[i].rule@, Severity::Warning) == 0);
    }
    lemma_tally_sum_listed(t, rs);
    assert forall|rule: Seq<char>| #[trigger] batch_has(rs, rule) implies tally_rules(t).contains(rule) by {
        assert(batch_has(rs, rule) || file_has(e, rule));
        let i = choose|i: int| 0 <= i < t.len() && (#[trigger] t[i]).rule@ == rule;
        assert(tally_rules(t)[i] == rule);
    }
    lemma_batch_listed_all(rs, tally_rules(t));
}

proof fn lemma_batch_files_positive<M>(rs: Seq<BatchFileResult<M>>, rule: Seq<char>)
    requires
        batch_has(rs, rule),
    ensures
        batch_files(rs, rule) >= 1,
    decreases rs.len(),
{
    let i = choose|i: int| 0 <= i < rs.len() && file_has(findings_of(#[trigger] rs[i]), rule);
    if i < rs.len() - 1 {
        assert(rs.drop_last()[i] == rs[i]);
        lemma_batch_files_positive(rs.drop_last(), rule);
    } else {
        assert(rs.last() == rs[i]);
    }
}

/// The per-span outcome of a gated safe-mode rewrite pass (one entry per source motion span).
#[derive(Debug, Clone)]
pub struct RewriteSpanResult {
    /// The span's index in source order (0-based).
    pub span_index: usize,
    /// Whether the rewrite was accepted for this span (rejected spans pass through verbatim).
    pub accepted: bool,
    /// Segment count of the span before the rewrite.
    pub segment_count_before: usize,
    /// Segment count of the span after the (accepted) rewrite, or unchanged when rejected.
    pub segment_count_after: usize,
    /// The error rule ids the rewrite would have introduced (empty when accepted).
    pub new_error_rules: Vec<String>,
}

/// The rewrite report: the per-span accept/reject ledger of a gated optimisation pass plus
/// whole-file before/after metrics.
#[derive(Debug, Clone)]
pub struct RewriteReport<M> {
    /// Source file label (when rewriting a file).
    pub file: Option<String>,
    /// Profile label, when a profile was supplied.
    pub profile: Option<String>,
    /// The optimisation mode used (e.g. `"safe"`).
    pub mode: String,
    /// Total number of source motion spans.
    pub spans_total: usize,
    /// Number of spans whose rewrite was accepted.
    pub spans_accepted: usize,
    /// Number of spans whose rewrite was rejected (and passed through verbatim).
    pub spans_rejected: usize,
    /// Total motion segment count before the rewrite.
    pub segment_count_before: usize,
    /// Total motion segment count after the rewrite.
    pub segment_count_after: usize,
    /// Simulated metrics of the whole motion before the rewrite.
    pub metrics_before: M,
    /// Simulated metrics of the whole motion after the (gated) rewrite.
    pub metrics_after: M,
    /// The per-span accept/reject ledger, in source order.
    pub spans: Vec<RewriteSpanResult>,
    /// The licensing mode this report was produced under, when the caller stamped one.
    pub license: Option<LicenseStamp>,
}

/// How many spans of `spans` were accepted.
pub open spec fn accepted_count(spans: Seq<RewriteSpanResult>) -> nat
    decreases spans.len(),
{
    if spans.len() == 0 {
        0
    } else {
        accepted_count(spans.drop_last()) + if spans.last().accepted {
            1nat
        } else {
            0nat
        }
    }
}

proof fn lemma_accepted_bound(spans: Seq<RewriteSpanResult>)
    ensures
        accepted_count(spans) <= spans.len(),
    decreases spans.len(),
{
    if spans.len() > 0 {
        lemma_accepted_bound(spans.drop_last());
    }
}

impl<M> RewriteReport<M> {
    /// Build a rewrite report from the before/after segment counts and simulated metrics of the whole
    /// motion and the per-span ledger.
    pub fn build(
        file: Option<String>,
        profile: Option<String>,
        mode: String,
        segment_count_before: usize,
        segment_count_after: usize,
        metrics_before: M,
        metrics_after: M,
        spans: Vec<RewriteSpanResult>,
    ) -> (r: RewriteReport<M>)
        ensures
            r.file == file,
            r.profile == profile,
            r.mode == mode,
            r.spans_total == spans@.len(),
            r.spans_accepted == accepted_count(spans@),
            r.spans_rejected == spans@.len() - accepted_count(spans@),
            r.segment_count_before == segment_count_before,
            r.segment_count_after == segment_count_after,
            r.metrics_before == metrics_before,
            r.metrics_after == metrics_after,
            r.spans@ == spans@,
            r.license is None,
    {
        let mut accepted: usize = 0;
        let mut i: usize = 0;
        while i < spans.len()
            invariant
                i <= spans@.len(),
                accepted == accepted_count(spans@.take(i as int)),
                accepted <= i,
            decreases spans@.len() - i,
        {
            proof {
                assert(spans@.take(i + 1).drop_last() =~= spans@.take(i as int));
            }
            if spans[i].accepted {
                accepted = accepted + 1;
            }
            i = i + 1;
        }
        proof {
            assert(spans@.take(i as int) =~= spans@);
        }
        let total = spans.len();
        RewriteReport {
            file,
            profile,
            mode,
            spans_total: total,
            spans_accepted: accepted,
            spans_rejected: total - accepted,
            segment_count_before,
            segment_count_after,
            metrics_before,
            metrics_after,
            spans,
            license: None,
        }
    }
}

} // verus!
