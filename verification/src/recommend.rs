//! Recommendation schema: what a model recommends and which v1 contract fields an executable
//! recommendation may name.
use crate::optimize::OptimizeMode;
use crate::text::{
    chars_of, find_char, find_char_in, float_syntax, is_float_text, push_str, string_from_range, string_from_str, trim,
};
use vstd::prelude::*;

verus! {

/// The kind of change a recommendation proposes.
#[derive(Debug, Clone, PartialEq, Eq, Structural)]
pub enum ActionKind {
    Rewrite,
    Contract,
    Advisory,
}

/// One model recommendation.
#[derive(Debug, Clone)]
pub struct Recommendation {
    pub title: String,
    pub rationale: String,
    pub expected_effect: String,
    pub priority: i64,
    pub action_kind: ActionKind,
    pub mode: Option<String>,
    pub field: Option<String>,
    pub value: Option<String>,
}

/// The priority a recommendation takes when it names none.
pub fn default_priority() -> (p: i64)
    ensures
        p == 99,
{
    99
}

/// A verify-contract field that can be overridden and re-checked in v1.
#[derive(Debug, Clone, Copy, PartialEq, Eq, Structural)]
pub enum ContractField {
    MaxFlow,
    SpeedRange,
    MinTemp,
    MonotonicZ,
}

/// The rewrite mode a mode name selects: `safe`, `balanced` or `max`.
pub open spec fn spec_rewrite_mode(name: Seq<char>) -> Option<OptimizeMode> {
    if name == "safe"@ {
        Some(OptimizeMode::Safe)
    } else if name == "balanced"@ {
        Some(OptimizeMode::Balanced)
    } else if name == "max"@ {
        Some(OptimizeMode::Max)
    } else {
        None
    }
}

/// The rewrite mode a mode name selects, if it names one.
pub fn rewrite_mode(name: &str) -> (m: Option<OptimizeMode>)
    ensures
        m == spec_rewrite_mode(name@),
{
    if crate::text::str_eq(name, "safe") {
        Some(OptimizeMode::Safe)
    } else if crate::text::str_eq(name, "balanced") {
        Some(OptimizeMode::Balanced)
    } else if crate::text::str_eq(name, "max") {
        Some(OptimizeMode::Max)
    } else {
        None
    }
}

/// The v1 contract field a field name selects.
pub open spec fn spec_contract_field(name: Seq<char>) -> Option<ContractField> {
    if name == "max_flow"@ {
        Some(ContractField::MaxFlow)
    } else if name == "speed_range"@ {
        Some(ContractField::SpeedRange)
    } else if name == "min_temp"@ {
        Some(ContractField::MinTemp)
    } else if name == "monotonic_z"@ {
        Some(ContractField::MonotonicZ)
    } else {
        None
    }
}

/// The v1 contract field a field name selects, if it names one.
pub fn contract_field(name: &str) -> (f: Option<ContractField>)
    ensures
        f == spec_contract_field(name@),
{
    if crate::text::str_eq(name, "max_flow") {
        Some(ContractField::MaxFlow)
    } else if crate::text::str_eq(name, "speed_range") {
        Some(ContractField::SpeedRange)
    } else if crate::text::str_eq(name, "min_temp") {
        Some(ContractField::MinTemp)
    } else if crate::text::str_eq(name, "monotonic_z") {
        Some(ContractField::MonotonicZ)
    } else {
        None
    }
}

/// The flag a `monotonic_z` override value spells: `true`/`1`/`yes` or `false`/`0`/`no`.
pub open spec fn spec_flag_value(raw: Seq<char>) -> Option<bool> {
    if raw == "true"@ || raw == "1"@ || raw == "yes"@ {
        Some(true)
    } else if raw == "false"@ || raw == "0"@ || raw == "no"@ {
        Some(false)
    } else {
        None
    }
}

/// The flag a `monotonic_z` override value spells, if it spells one.
pub fn flag_value(raw: &str) -> (b: Option<bool>)
    ensures
        b == spec_flag_value(raw@),
{
    if crate::text::str_eq(raw, "true") || crate::text::str_eq(raw, "1") || crate::text::str_eq(raw, "yes") {
        Some(true)
    } else if crate::text::str_eq(raw, "false") || crate::text::str_eq(raw, "0") || crate::text::str_eq(raw, "no") {
        Some(false)
    } else {
        None
    }
}


/// A contract override value, as far as it can be decided on text: a number (whose syntax has been
/// checked) or a `min,max` pair (split, with both numbers' syntax checked) is kept as text for the
/// numeric conversion, a flag is already decided.
#[derive(Debug, Clone, PartialEq, Eq)]
pub enum OverrideText {
    /// The trimmed text of a scalar value (`max_flow`, `min_temp`).
    Number(String),
    /// A `min,max` range (`speed_range`): the trimmed value, and its two trimmed numbers.
    Range { raw: String, lo: String, hi: String },
    /// A decided flag (`monotonic_z`).
    Flag(bool),
}

/// A change that can actually be applied and re-verified.
#[derive(Debug, Clone, PartialEq, Eq)]
pub enum ExecutableAction {
    Rewrite { mode: OptimizeMode },
    Contract { field: ContractField, value: OverrideText },
}

/// The outcome of classifying a [`Recommendation`].
#[derive(Debug, Clone, PartialEq, Eq)]
pub enum Classified {
    Executable(ExecutableAction),
    /// Carries a short human reason it could not be executed.
    Advisory(String),
}

/// The two numbers of a `min,max` value: the value holds exactly one `,`, and the trimmed texts on
/// either side of it are in number syntax.
pub open spec fn range_parts(raw: Seq<char>) -> Option<(Seq<char>, Seq<char>)> {
    match find_char(raw, ',') {
        None => None,
        Some(p) => {
            let rest = raw.subrange(p + 1, raw.len() as int);
            let lo = trim(raw.subrange(0, p));
            let hi = trim(rest);
            if find_char(rest, ',') is None && float_syntax(lo) && float_syntax(hi) {
                Some((lo, hi))
            } else {
                None
            }
        },
    }
}

/// The reason a `speed_range` value is not executable.
pub open spec fn range_message(raw: Seq<char>) -> Seq<char> {
    "could not parse `"@ + raw + "` as `min,max`"@
}

/// `c` is the advisory verdict with reason `reason`.
pub open spec fn is_advisory(c: Classified, reason: Seq<char>) -> bool {
    c matches Classified::Advisory(r) && r@ == reason
}

/// The verdict a recommendation gets: executable exactly when it names a rewrite mode that exists, or
/// a v1 contract field with a value of the right shape; advisory, with the reason, otherwise.
pub open spec fn spec_classified(rec: Recommendation, c: Classified) -> bool {
    match rec.action_kind {
        ActionKind::Advisory => is_advisory(c, "model marked this advisory"@),
        ActionKind::Rewrite => match rec.mode {
            None => is_advisory(c, "rewrite recommendation has no mode"@),
            Some(m) => match spec_rewrite_mode(m@) {
                Some(mode) => c == Classified::Executable(ExecutableAction::Rewrite { mode }),
                None => is_advisory(c, "unknown rewrite mode `"@ + m@ + "`"@),
            },
        },
        ActionKind::Contract => match rec.field {
            None => is_advisory(c, "contract recommendation has no field"@),
            Some(f) => match spec_contract_field(f@) {
                None => is_advisory(c, "contract field `"@ + f@ + "` is not executable in v1"@),
                Some(field) => match rec.value {
                    None => is_advisory(c, "contract recommendation has no value"@),
                    Some(v) => {
                        let raw = trim(v@);
                        match field {
                            ContractField::MonotonicZ => match spec_flag_value(raw) {
                                Some(b) => c == Classified::Executable(
                                    ExecutableAction::Contract { field, value: OverrideText::Flag(b) },
                                ),
                                None => is_advisory(c, "could not parse `"@ + raw + "` as a bool"@),
                            },
                            ContractField::SpeedRange => match range_parts(raw) {
                                Some(parts) => c matches Classified::Executable(
                                    ExecutableAction::Contract {
                                        field: ContractField::SpeedRange,
                                        value: OverrideText::Range { raw: r, lo: a, hi: b },
                                    },
                                ) && r@ == raw && a@ == parts.0 && b@ == parts.1,
                                None => is_advisory(c, range_message(raw)),
                            },
                            _ => if float_syntax(raw) {
                                c matches Classified::Executable(
                                    ExecutableAction::Contract { field: g, value: OverrideText::Number(t) },
                                ) && g == field && t@ == raw
                            } else {
                                is_advisory(c, "could not parse `"@ + raw + "` as a number"@)
                            },
                        }
                    },
                },
            },
        },
    }
}

/// The two trimmed numbers of a `min,max` value (see `range_parts`).
pub fn split_range(raw: &str) -> (r: Option<(String, String)>)
    ensures
        match range_parts(raw@) {
            Some(parts) => r matches Some(t) && t.0@ == parts.0 && t.1@ == parts.1,
            None => r is None,
        },
{
    let v = chars_of(raw);
    let n = v.len();
    assert(v@.subrange(0, n as int) =~= v@);
    match find_char_in(&v, 0, n, ',') {
        None => None,
        Some(p) => {
            if find_char_in(&v, p + 1, n, ',').is_some() {
                return None;
            }
            let (a0, a1) = crate::text::trim_range(&v, 0, p);
            let (b0, b1) = crate::text::trim_range(&v, p + 1, n);
            let lo = string_from_range(&v, a0, a1);
            let hi = string_from_range(&v, b0, b1);
            if is_float_text(lo.as_str()) && is_float_text(hi.as_str()) {
                Some((lo, hi))
            } else {
                None
            }
        },
    }
}

/// What `settle_range` makes of `c` given the verdict `in_order` on its `speed_range` pair: an
/// executable range stays only when both numbers are finite and `min <= max`, and is otherwise
/// demoted with the reason the value could not be parsed as a pair; every other verdict stays.
pub open spec fn spec_settled(c: Classified, in_order: bool, r: Classified) -> bool {
    match c {
        Classified::Executable(ExecutableAction::Contract { field: ContractField::SpeedRange, value: OverrideText::Range { raw, lo, hi } }) => if in_order {
            r == c
        } else {
            is_advisory(r, range_message(raw@))
        },
        _ => r == c,
    }
}

/// Settles a `speed_range` verdict on the caller's finding `in_order`: whether both numbers of the
/// pair are finite and the first is not greater than the second.
pub fn settle_range(c: Classified, in_order: bool) -> (r: Classified)
    ensures
        spec_settled(c, in_order, r),
{
    match c {
        Classified::Executable(ExecutableAction::Contract { field: ContractField::SpeedRange, value: OverrideText::Range { raw, lo, hi } }) => {
            if in_order {
                Classified::Executable(ExecutableAction::Contract { field: ContractField::SpeedRange, value: OverrideText::Range { raw, lo, hi } })
            } else {
                advisory("could not parse `", raw.as_str(), "` as `min,max`")
            }
        },
        other => other,
    }
}

fn advisory1(a: &str) -> (r: Classified)
    ensures
        is_advisory(r, a@),
{
    Classified::Advisory(string_from_str(a))
}

fn advisory(a: &str, b: &str, c: &str) -> (r: Classified)
    ensures
        is_advisory(r, a@ + b@ + c@),
{
    let mut s = string_from_str(a);
    push_str(&mut s, b);
    push_str(&mut s, c);
    Classified::Advisory(s)
}

/// Map a model recommendation to an executable action, or demote it to advisory with a reason.
///
/// A `max_flow`/`min_temp` value is checked against the number syntax and handed on as its trimmed
/// text; a `speed_range` value must be two numbers separated by one comma, handed on as texts. Whether
/// a pair's numbers are finite and in order is a question about their floating-point values, which
/// `settle_range` takes from the caller.
pub fn classify(rec: &Recommendation) -> (c: Classified)
    ensures
        spec_classified(*rec, c),
{
    match rec.action_kind {
        ActionKind::Advisory => advisory1("model marked this advisory"),
        ActionKind::Rewrite => match &rec.mode {
            None => advisory1("rewrite recommendation has no mode"),
            Some(m) => match rewrite_mode(m.as_str()) {
                Some(mode) => Classified::Executable(ExecutableAction::Rewrite { mode }),
                None => advisory("unknown rewrite mode `", m.as_str(), "`"),
            },
        },
        ActionKind::Contract => match &rec.field {
            None => advisory1("contract recommendation has no field"),
            Some(f) => match contract_field(f.as_str()) {
                None => advisory("contract field `", f.as_str(), "` is not executable in v1"),
                Some(field) => match &rec.value {
                    None => advisory1("contract recommendation has no value"),
                    Some(v) => {
                        let chars = chars_of(v.as_str());
                        let (lo, hi) = crate::text::trim_range(&chars, 0, chars.len());
                        assert(chars@.subrange(0, chars@.len() as int) =~= chars@);
                        let raw = string_from_range(&chars, lo, hi);
                        match field {
                            ContractField::MonotonicZ => match flag_value(raw.as_str()) {
                                Some(b) => Classified::Executable(
                                    ExecutableAction::Contract { field, value: OverrideText::Flag(b) },
                                ),
                                None => advisory("could not parse `", raw.as_str(), "` as a bool"),
                            },
                            ContractField::SpeedRange => match split_range(raw.as_str()) {
                                Some((a, b)) => Classified::Executable(
                                    ExecutableAction::Contract {
                                        field,
                                        value: OverrideText::Range { raw, lo: a, hi: b },
                                    },
                                ),
                                None => advisory("could not parse `", raw.as_str(), "` as `min,max`"),
                            },
                            _ => if is_float_text(raw.as_str()) {
                                Classified::Executable(
                                    ExecutableAction::Contract { field, value: OverrideText::Number(raw) },
                                )
                            } else {
                                advisory("could not parse `", raw.as_str(), "` as a number")
                            },
                        }
                    },
                },
            },
        },
    }
}


/// The name a contract field goes by in a recommendation.
pub open spec fn field_name(f: ContractField) -> Seq<char> {
    match f {
        ContractField::MaxFlow => "max_flow"@,
        ContractField::SpeedRange => "speed_range"@,
        ContractField::MinTemp => "min_temp"@,
        ContractField::MonotonicZ => "monotonic_z"@,
    }
}

/// Law: a name selects a contract field exactly when it is that field's name, so distinct names
/// select distinct fields and every field is selected by its own name.
pub proof fn law_a_field_name_selects_that_field(n: Seq<char>, f: ContractField)
    ensures
        spec_contract_field(n) == Some(f) <==> n == field_name(f),
{
    reveal_strlit("max_flow");
    reveal_strlit("speed_range");
    reveal_strlit("min_temp");
    reveal_strlit("monotonic_z");
    assert(("max_flow"@)[1] != ("min_temp"@)[1]);
    assert(("speed_range"@)[0] != ("monotonic_z"@)[0]);
}

/// Law: an executable contract override changes the field the recommendation names.
pub proof fn law_an_override_changes_the_named_field(rec: Recommendation, c: Classified)
    requires
        spec_classified(rec, c),
    ensures
        c matches Classified::Executable(ExecutableAction::Contract { field, .. }) ==> rec.field matches Some(
            name,
        ) && name@ == field_name(field),
{
    if let Classified::Executable(ExecutableAction::Contract { field, .. }) = c {
        law_a_field_name_selects_that_field(rec.field->0@, field);
    }
}

/// The name a rewrite mode goes by.
pub open spec fn mode_name(m: OptimizeMode) -> Seq<char> {
    match m {
        OptimizeMode::Safe => "safe"@,
        OptimizeMode::Balanced => "balanced"@,
        OptimizeMode::Max => "max"@,
    }
}

/// Law: a name selects a rewrite mode exactly when it is that mode's name.
pub proof fn law_a_mode_name_selects_that_mode(n: Seq<char>, m: OptimizeMode)
    ensures
        spec_rewrite_mode(n) == Some(m) <==> n == mode_name(m),
{
    reveal_strlit("safe");
    reveal_strlit("balanced");
    reveal_strlit("max");
    assert("safe"@.len() != "balanced"@.len() && "safe"@.len() != "max"@.len() && "balanced"@.len() != "max"@.len());
    match m {
        OptimizeMode::Safe => {},
        OptimizeMode::Balanced => {},
        OptimizeMode::Max => {},
    }
}

/// Law: a `monotonic_z` override is `true` for exactly `true`, `1` and `yes`, and `false` for
/// exactly `false`, `0` and `no`.
pub proof fn law_flag_words(w: Seq<char>)
    ensures
        spec_flag_value(w) == Some(true) <==> (w == "true"@ || w == "1"@ || w == "yes"@),
        spec_flag_value(w) == Some(false) <==> (w == "false"@ || w == "0"@ || w == "no"@),
{
    reveal_strlit("true");
    reveal_strlit("1");
    reveal_strlit("yes");
    reveal_strlit("false");
    reveal_strlit("0");
    reveal_strlit("no");
    assert(("1"@)[0] != ("0"@)[0]);
    assert("false"@.len() == 5 && "true"@.len() == 4 && "yes"@.len() == 3 && "no"@.len() == 2);
    assert("1"@.len() == 1 && "0"@.len() == 1);
    if w == "0"@ {
        assert(w != "1"@);
    }
}

/// Law: an executable rewrite runs the mode the recommendation names.
pub proof fn law_a_rewrite_runs_the_named_mode(rec: Recommendation, c: Classified)
    requires
        spec_classified(rec, c),
    ensures
        c matches Classified::Executable(ExecutableAction::Rewrite { mode }) ==> rec.mode matches Some(name)
            && name@ == mode_name(mode),
{
    if let Classified::Executable(ExecutableAction::Rewrite { mode }) = c {
        law_a_mode_name_selects_that_mode(rec.mode->0@, mode);
    }
}

/// Law: a recommendation is executable only if it names a change that can be run and re-verified:
/// a rewrite in an existing mode, or an override of a v1 contract field carrying a value.
pub proof fn law_executable_only_for_runnable_changes(rec: Recommendation, c: Classified)
    requires
        spec_classified(rec, c),
    ensures
        c is Executable ==> {
            ||| rec.action_kind == ActionKind::Rewrite && rec.mode is Some && spec_rewrite_mode(rec.mode->0@) is Some
            ||| rec.action_kind == ActionKind::Contract && rec.field is Some && spec_contract_field(rec.field->0@) is Some
                && rec.value is Some
        },
        rec.action_kind == ActionKind::Advisory ==> c is Advisory,
{
}


/// Law: a `speed_range` recommendation ends executable exactly when its value is two numbers
/// separated by one comma and the caller found them finite and in order; otherwise it is advisory,
/// with the reason that the value could not be parsed as `min,max`.
pub proof fn law_speed_range_needs_an_ordered_pair(rec: Recommendation, c: Classified, in_order: bool, r: Classified)
    requires
        spec_classified(rec, c),
        spec_settled(c, in_order, r),
        rec.action_kind == ActionKind::Contract,
        rec.field matches Some(f) && spec_contract_field(f@) == Some(ContractField::SpeedRange),
        rec.value is Some,
    ensures
        r is Executable <==> (range_parts(trim(rec.value->0@)) is Some && in_order),
        !(r is Executable) ==> is_advisory(r, range_message(trim(rec.value->0@))),
{
}

} // verus!
