//! Dual-robot workcell synchronisation barriers (KUKA KRL and ABB RAPID).
use crate::text::{dec, join, push_decimal, push_str};
use vstd::prelude::*;

verus! {

/// The KRL barrier lines for a master (`is_master`) or slave robot on flag `flag_id`.
pub open spec fn spec_sync_krl(flag_id: nat, is_master: bool) -> Seq<Seq<char>> {
    let f = dec(flag_id);
    if is_master {
        seq![
            "; --- Sync Barrier (Master) Flag "@ + f + " ---"@,
            "$FLAG["@ + f + "] = TRUE"@,
            "WAIT FOR NOT $FLAG["@ + f + "]"@,
        ]
    } else {
        seq![
            "; --- Sync Barrier (Slave) Flag "@ + f + " ---"@,
            "WAIT FOR $FLAG["@ + f + "]"@,
            "$FLAG["@ + f + "] = FALSE"@,
        ]
    }
}

fn line3(a: &str, n: u32, b: &str) -> (s: String)
    ensures
        s@ == a@ + dec(n as nat) + b@,
{
    let mut s = String::new();
    push_str(&mut s, a);
    push_decimal(&mut s, n as u64);
    push_str(&mut s, b);
    assert(s@ =~= a@ + dec(n as nat) + b@);
    s
}

/// Generates KUKA KRL multi-channel synchronization commands for dual robots.
pub fn emit_dual_robot_sync_krl(flag_id: u32, is_master: bool) -> (lines: Vec<String>)
    ensures
        lines@.len() == 3,
        forall|i: int| 0 <= i < 3 ==> (#[trigger] lines@[i])@ == spec_sync_krl(flag_id as nat, is_master)[i],
{
    let mut lines: Vec<String> = Vec::new();
    if is_master {
        lines.push(line3("; --- Sync Barrier (Master) Flag ", flag_id, " ---"));
        lines.push(line3("$FLAG[", flag_id, "] = TRUE"));
        lines.push(line3("WAIT FOR NOT $FLAG[", flag_id, "]"));
    } else {
        lines.push(line3("; --- Sync Barrier (Slave) Flag ", flag_id, " ---"));
        lines.push(line3("WAIT FOR $FLAG[", flag_id, "]"));
        lines.push(line3("$FLAG[", flag_id, "] = FALSE"));
    }
    lines
}

/// The task list of a RAPID barrier: the tasks joined by `, `, or `tasks_all` when none is named.
pub open spec fn spec_task_ids(tasks: Seq<&str>) -> Seq<char> {
    if tasks.len() == 0 {
        "tasks_all"@
    } else {
        join(tasks.map_values(|t: &str| t@), ", "@)
    }
}

/// Joins the views of `parts` with `sep`.
fn join_strs(parts: &[&str], sep: &str) -> (s: String)
    ensures
        s@ == join(parts@.map_values(|t: &str| t@), sep@),
{
    let ghost all = parts@.map_values(|t: &str| t@);
    let mut s = String::new();
    let mut i: usize = 0;
    while i < parts.len()
        invariant
            i <= parts@.len(),
            all == parts@.map_values(|t: &str| t@),
            s@ == join(all.take(i as int), sep@),
        decreases parts@.len() - i,
    {
        let ghost before = all.take(i as int);
        if i > 0 {
            push_str(&mut s, sep);
        }
        push_str(&mut s, parts[i]);
        proof {
            let after = all.take(i + 1);
            assert(after.drop_last() =~= before);
            assert(after.last() == parts@[i as int]@);
            if i == 0 {
                assert(s@ =~= after[0]);
            }
        }
        i = i + 1;
    }
    assert(all.take(i as int) =~= all);
    s
}

/// Generates ABB RAPID MultiMove multi-task synchronization barrier commands.
pub fn emit_dual_robot_sync_rapid(sync_id: &str, task_list: &[&str]) -> (lines: Vec<String>)
    ensures
        lines@.len() == 2,
        lines@[0]@ == "! --- ABB MultiMove Sync Barrier \""@ + sync_id@ + "\" ---"@,
        lines@[1]@ == "WaitSyncTask "@ + sync_id@ + ", ["@ + spec_task_ids(task_list@) + "];"@,
{
    let task_ids = if task_list.len() == 0 {
        crate::text::string_from_str("tasks_all")
    } else {
        join_strs(task_list, ", ")
    };
    let mut first = String::new();
    push_str(&mut first, "! --- ABB MultiMove Sync Barrier \"");
    push_str(&mut first, sync_id);
    push_str(&mut first, "\" ---");
    let mut second = String::new();
    push_str(&mut second, "WaitSyncTask ");
    push_str(&mut second, sync_id);
    push_str(&mut second, ", [");
    push_str(&mut second, task_ids.as_str());
    push_str(&mut second, "];");
    let mut lines: Vec<String> = Vec::new();
    lines.push(first);
    lines.push(second);
    lines
}

} // verus!
