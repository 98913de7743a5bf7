//! Multi-head / IDEX machines: carriage modes and toolhead selection.
use crate::text::{dec, push_decimal, push_str, string_from_str};
use vstd::prelude::*;

verus! {

/// Operating mode for multi-carriage machines.
#[derive(Debug, Clone, Copy, PartialEq, Eq, Default, Structural)]
pub enum HeadMode {
    /// Carriages move independently under standard tool selection (Auto-Park).
    #[default]
    Independent,
    /// Second carriage duplicates the primary carriage at a fixed X offset.
    Duplication,
    /// Second carriage mirrors the primary carriage motion across the center.
    Mirrored,
    /// Carriages run sequentially with full parking retracts.
    Sequential,
}

/// The toolhead selection line for `head_index`: `T{n} ; Select Toolhead {n}`.
pub open spec fn spec_select_head(head_index: nat) -> Seq<char> {
    "T"@ + dec(head_index) + " ; Select Toolhead "@ + dec(head_index)
}

/// Emit toolhead selection G-code (e.g. `T0`, `T1`).
pub fn emit_select_head(head_index: u32) -> (line: String)
    ensures
        line@ == spec_select_head(head_index as nat),
{
    let mut line = String::new();
    push_str(&mut line, "T");
    push_decimal(&mut line, head_index as u64);
    push_str(&mut line, " ; Select Toolhead ");
    push_decimal(&mut line, head_index as u64);
    line
}


/// The IDEX carriage-mode lines (`M605`) for `mode`; in duplication mode the second carriage is
/// offset by `x_offset`, the offset as written in the line (three decimals).
pub open spec fn spec_idex_mode(mode: HeadMode, x_offset: Seq<char>) -> Seq<Seq<char>> {
    match mode {
        HeadMode::Independent => seq!["M605 S1 ; Set IDEX Mode: Auto-Park (Independent)"@],
        HeadMode::Duplication => seq![
            "M605 S2 X"@ + x_offset + " ; Set IDEX Mode: Duplication"@,
            "M605 W ; Activate Duplication"@,
        ],
        HeadMode::Mirrored => seq!["M605 S3 ; Set IDEX Mode: Mirrored"@],
        HeadMode::Sequential => seq!["M605 S0 ; Set IDEX Mode: Manual / Sequential"@],
    }
}

/// Emit IDEX carriage mode G-code (Marlin / RepRap / Klipper `M605` standard); `x_offset` is the
/// duplication offset as it is to be written.
pub fn emit_idex_mode(mode: HeadMode, x_offset: &str) -> (lines: Vec<String>)
    ensures
        lines@.len() == spec_idex_mode(mode, x_offset@).len(),
        forall|i: int| 0 <= i < lines@.len() ==> #[trigger] lines@[i]@ == spec_idex_mode(mode, x_offset@)[i],
{
    let mut lines: Vec<String> = Vec::new();
    match mode {
        HeadMode::Independent => {
            lines.push(string_from_str("M605 S1 ; Set IDEX Mode: Auto-Park (Independent)"));
        },
        HeadMode::Duplication => {
            let mut first = string_from_str("M605 S2 X");
            push_str(&mut first, x_offset);
            push_str(&mut first, " ; Set IDEX Mode: Duplication");
            lines.push(first);
            lines.push(string_from_str("M605 W ; Activate Duplication"));
        },
        HeadMode::Mirrored => {
            lines.push(string_from_str("M605 S3 ; Set IDEX Mode: Mirrored"));
        },
        HeadMode::Sequential => {
            lines.push(string_from_str("M605 S0 ; Set IDEX Mode: Manual / Sequential"));
        },
    }
    lines
}

} // verus!
