//! Optimisation modes a caller can opt into, and when an optimised span is kept: only when it
//! introduces no new error rule.
use crate::text::{chars_of, compare_chars, lemma_lex_total, lemma_lex_trans, lex_lt};
use crate::verify::{Finding, Severity};
use vstd::prelude::*;

verus! {

/// The optimisation aggressiveness a caller opts into. Every mode is gated against the verifier the
/// same way: a span's rewrite is kept only when it introduces no new error rule.
#[derive(Debug, Clone, Copy, PartialEq, Eq, Structural)]
pub enum OptimizeMode {
    /// Geometry canonicalisation only (`merge_collinear` then `arc_fit`), gated per span.
    Safe,
    /// `Safe` plus conservative adaptive speed shaping; no reordering, coasting or z-hop.
    Balanced,
    /// The full order-changing pipeline on top of `Balanced`: also coasting, travel reordering and
    /// z-hop.
    Max,
}


/// Whether `fs` holds an error finding of the rule `r`.
pub open spec fn has_error_rule(fs: Seq<Finding>, r: Seq<char>) -> bool {
    exists|i: int| 0 <= i < fs.len() && fs[i].severity == Severity::Error && (#[trigger] fs[i]).rule@ == r
}

/// The texts of `v` ascend strictly (so none occurs twice).
pub open spec fn strictly_sorted(v: Seq<String>) -> bool {
    forall|i: int, j: int| 0 <= i < j < v.len() ==> lex_lt((#[trigger] v[i])@, (#[trigger] v[j])@)
}

/// Whether `v` holds the text `r`.
pub open spec fn lists(v: Seq<String>, r: Seq<char>) -> bool {
    exists|i: int| 0 <= i < v.len() && (#[trigger] v[i])@ == r
}

/// Whether some error finding of `fs` is of the rule `rule`.
fn error_rule_in(fs: &Vec<Finding>, rule: &Vec<char>) -> (b: bool)
    ensures
        b == has_error_rule(fs@, rule@),
{
    let mut i: usize = 0;
    while i < fs.len()
        invariant
            i <= fs@.len(),
            forall|j: int| 0 <= j < i ==> !(fs@[j].severity == Severity::Error && (#[trigger] fs@[j]).rule@ == rule@),
        decreases fs@.len() - i,
    {
        if matches!(fs[i].severity, Severity::Error) {
            let r = chars_of(fs[i].rule.as_str());
            if compare_chars(&r, rule) == 0 {
                return true;
            }
        }
        i = i + 1;
    }
    false
}

/// Adds `s` to the strictly ascending texts `v`, where it is not already.
fn insert_sorted(v: &mut Vec<String>, s: String)
    requires
        strictly_sorted(old(v)@),
    ensures
        strictly_sorted(final(v)@),
        forall|x: Seq<char>| lists(final(v)@, x) <==> (lists(old(v)@, x) || x == s@),
{
    let sv = chars_of(s.as_str());
    let mut p: usize = 0;
    let mut stop = false;
    while p < v.len() && !stop
        invariant
            p <= v@.len(),
            sv@ == s@,
            strictly_sorted(v@),
            v@ == old(v)@,
            forall|j: int| 0 <= j < p ==> lex_lt((#[trigger] v@[j])@, s@),
            stop ==> p < v@.len() && lex_lt(s@, v@[p as int]@),
        decreases v@.len() - p + if stop { 0int } else { 1int },
    {
        let cur = chars_of(v[p].as_str());
        let c = compare_chars(&cur, &sv);
        if c == 0 {
            assert(v@[p as int]@ == s@);
            return;
        }
        if c > 0 {
            stop = true;
        } else {
            p = p + 1;
        }
    }
    let ghost before = v@;
    proof {
        lemma_lex_total(s@, s@);
        if p < before.len() {
            lemma_lex_total(before[p as int]@, s@);
        }
    }
    v.insert(p, s);
    proof {
        let after = v@;
        assert forall|i: int, j: int| 0 <= i < j < after.len() implies lex_lt((#[trigger] after[i])@, (#[trigger] after[j])@) by {
            if j < p {
                assert(after[i] == before[i] && after[j] == before[j]);
            } else if j == p {
                assert(after[i] == before[i]);
            } else if i > p {
                assert(after[i] == before[i - 1] && after[j] == before[j - 1]);
            } else if i == p {
                assert(after[j] == before[j - 1]);
                if j - 1 > p {
                    lemma_lex_trans(s@, before[p as int]@, before[j - 1]@);
                }
            } else {
                assert(after[i] == before[i]);
                assert(after[j] == before[j - 1]);
                lemma_lex_trans(before[i]@, s@, before[p as int]@);
                if j - 1 > p {
                    lemma_lex_trans(before[i]@, before[p as int]@, before[j - 1]@);
                }
            }
        }
        assert forall|x: Seq<char>| lists(after, x) <==> (lists(before, x) || x == s@) by {
            if lists(before, x) {
                let k = choose|k: int| 0 <= k < before.len() && (#[trigger] before[k])@ == x;
                if k < p {
                    assert(after[k] == before[k]);
                } else {
                    assert(after[k + 1] == before[k]);
                }
            }
            if x == s@ {
                assert(after[p as int] == s);
            }
            if lists(after, x) {
                let k = choose|k: int| 0 <= k < after.len() && (#[trigger] after[k])@ == x;
                if k < p {
                    assert(after[k] == before[k]);
                } else if k > p {
                    assert(after[k] == before[k - 1]);
                }
            }
        }
    }
}

/// The error rules of `after` that `before` does not have, ascending: the rules an optimisation
/// would introduce, given the findings on the span as it was and as optimised.
pub fn new_error_rules(before: &Vec<Finding>, after: &Vec<Finding>) -> (r: Vec<String>)
    ensures
        strictly_sorted(r@),
        forall|x: Seq<char>| lists(r@, x) <==> (has_error_rule(after@, x) && !has_error_rule(before@, x)),
{
    let mut out: Vec<String> = Vec::new();
    let mut i: usize = 0;
    while i < after.len()
        invariant
            i <= after@.len(),
            strictly_sorted(out@),
            forall|x: Seq<char>| lists(out@, x) <==> (has_error_rule(after@.take(i as int), x) && !has_error_rule(before@, x)),
        decreases after@.len() - i,
    {
        let ghost prev = out@;
        let f = &after[i];
        if matches!(f.severity, Severity::Error) {
            let rv = chars_of(f.rule.as_str());
            if !error_rule_in(before, &rv) {
                insert_sorted(&mut out, f.rule.clone());
            }
        }
        proof {
            let t0 = after@.take(i as int);
            let t1 = after@.take(i + 1);
            assert forall|x: Seq<char>| has_error_rule(t1, x) <==> (has_error_rule(t0, x) || (after@[i as int].severity == Severity::Error && after@[i as int].rule@ == x)) by {
                if has_error_rule(t0, x) {
                    let k = choose|k: int| 0 <= k < t0.len() && t0[k].severity == Severity::Error && (#[trigger] t0[k]).rule@ == x;
                    assert(t1[k] == t0[k]);
                }
                if after@[i as int].severity == Severity::Error && after@[i as int].rule@ == x {
                    assert(t1[i as int] == after@[i as int]);
                }
                if has_error_rule(t1, x) {
                    let k = choose|k: int| 0 <= k < t1.len() && t1[k].severity == Severity::Error && (#[trigger] t1[k]).rule@ == x;
                    if k < i {
                        assert(t0[k] == t1[k]);
                    }
                }
            }
        }
        i = i + 1;
    }
    assert(after@.take(after@.len() as int) =~= after@);
    out
}

/// Whether an optimised span is kept, given the findings on the span as it was (`before`) and as
/// optimised (`after`): it is accepted exactly when it introduces no new error rule, and otherwise
/// names the rules it would introduce. Pre-existing errors and new warnings do not block.
pub fn gate_rewrite(before: &Vec<Finding>, after: &Vec<Finding>) -> (r: (bool, Vec<String>))
    ensures
        strictly_sorted(r.1@),
        forall|x: Seq<char>| lists(r.1@, x) <==> (has_error_rule(after@, x) && !has_error_rule(before@, x)),
        r.0 <==> r.1@.len() == 0,
        r.0 <==> forall|x: Seq<char>| has_error_rule(after@, x) ==> has_error_rule(before@, x),
{
    let new_rules = new_error_rules(before, after);
    let accepted = new_rules.len() == 0;
    proof {
        if !accepted {
            let x = new_rules@[0]@;
            assert(lists(new_rules@, x));
        } else {
            assert forall|x: Seq<char>| has_error_rule(after@, x) implies has_error_rule(before@, x) by {
                if !has_error_rule(before@, x) {
                    assert(lists(new_rules@, x));
                }
            }
        }
    }
    (accepted, new_rules)
}

} // verus!
