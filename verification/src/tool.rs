//! Tool library vocabulary, the RS-274 / Fanuc tool-change block, and the registry of a machine's
//! tools by id.
use crate::text::{dec_pad2, push_decimal_pad2, push_str};
use vstd::prelude::*;

verus! {

/// The physical tool category.
#[derive(Debug, Clone, Copy, PartialEq, Eq, Structural)]
pub enum ToolKind {
    EndMill,
    BallNose,
    ChamferMill,
    Drill,
    Laser,
    ExtruderNozzle,
    PlasmaTorch,
    WaterjetNozzle,
}

/// The tool-change block for tool slot `number` named `name`: `T{nn} M06 ; Tool Change: {name}`
/// then `G43 H{nn} ; Tool Length Offset`, with the slot zero-padded to two digits.
pub open spec fn spec_tool_change(number: nat, name: Seq<char>) -> Seq<Seq<char>> {
    seq![
        "T"@ + dec_pad2(number) + " M06 ; Tool Change: "@ + name,
        "G43 H"@ + dec_pad2(number) + " ; Tool Length Offset"@,
    ]
}

/// Emit standard RS-274 / Fanuc tool change G-code blocks (`T{n} M06` and `G43 H{n}`) for the tool in
/// slot `number` named `name`.
pub fn tool_change_blocks(number: u32, name: &str) -> (lines: Vec<String>)
    ensures
        lines@.len() == 2,
        lines@[0]@ == spec_tool_change(number as nat, name@)[0],
        lines@[1]@ == spec_tool_change(number as nat, name@)[1],
{
    let mut first = String::new();
    push_str(&mut first, "T");
    push_decimal_pad2(&mut first, number as u64);
    push_str(&mut first, " M06 ; Tool Change: ");
    push_str(&mut first, name);
    let mut second = String::new();
    push_str(&mut second, "G43 H");
    push_decimal_pad2(&mut second, number as u64);
    push_str(&mut second, " ; Tool Length Offset");
    let mut lines: Vec<String> = Vec::new();
    lines.push(first);
    lines.push(second);
    lines
}


/// A registered tool: its unique id, its controller slot number, and its definition.
#[derive(Debug, Clone)]
struct Registered<T> {
    id: String,
    number: u32,
    tool: T,
}

/// A registry / catalog of machine tools, keyed by their unique string id. The definitions are
/// carried as they were registered; the registry reads only their ids and slot numbers.
#[derive(Debug)]
pub struct ToolRegistry<T> {
    entries: Vec<Registered<T>>,
}

/// The ids of `es` are pairwise distinct.
pub open spec fn distinct_ids<T>(es: Seq<(Seq<char>, u32, T)>) -> bool {
    forall|i: int, j: int| 0 <= i < es.len() && 0 <= j < es.len() && i != j ==> (#[trigger] es[i]).0 != (#[trigger] es[j]).0
}

/// The map from id to (slot number, definition) that the entries `es` describe.
pub open spec fn entries_view<T>(es: Seq<(Seq<char>, u32, T)>) -> Map<Seq<char>, (u32, T)>
    decreases es.len(),
{
    if es.len() == 0 {
        Map::empty()
    } else {
        let e = es.last();
        entries_view(es.drop_last()).insert(e.0, (e.1, e.2))
    }
}

spec fn entries_model<T>(es: Seq<Registered<T>>) -> Seq<(Seq<char>, u32, T)> {
    es.map_values(|e: Registered<T>| (e.id@, e.number, e.tool))
}

impl<T> ToolRegistry<T> {
    /// The entries as (id, number, tool) triples.
    pub closed spec fn model(&self) -> Seq<(Seq<char>, u32, T)> {
        entries_model(self.entries@)
    }

    /// The registry as a map from id to (slot number, definition).
    pub closed spec fn view(&self) -> Map<Seq<char>, (u32, T)> {
        entries_view(self.model())
    }

    /// Every id is registered at most once.
    #[verifier::type_invariant]
    spec fn wf(&self) -> bool {
        distinct_ids(self.model())
    }
}

proof fn lemma_entries_view<T>(es: Seq<(Seq<char>, u32, T)>)
    requires
        distinct_ids(es),
    ensures
        entries_view(es).dom().finite(),
        entries_view(es).dom().len() == es.len(),
        forall|k: Seq<char>| entries_view(es).dom().contains(k) <==> exists|i: int| 0 <= i < es.len() && (#[trigger] es[i]).0 == k,
        forall|i: int| 0 <= i < es.len() ==> entries_view(es)[(#[trigger] es[i]).0] == (es[i].1, es[i].2),
    decreases es.len(),
{
    if es.len() > 0 {
        let d = es.drop_last();
        assert(distinct_ids(d)) by {
            assert forall|i: int, j: int| 0 <= i < d.len() && 0 <= j < d.len() && i != j implies (#[trigger] d[i]).0 != (#[trigger] d[j]).0 by {
                assert(d[i] == es[i] && d[j] == es[j]);
            }
        }
        lemma_entries_view(d);
        let e = es.last();
        assert(!entries_view(d).dom().contains(e.0)) by {
            if entries_view(d).dom().contains(e.0) {
                let i = choose|i: int| 0 <= i < d.len() && (#[trigger] d[i]).0 == e.0;
                assert(es[i] == d[i]);
                assert(es[es.len() - 1] == e);
            }
        }
        assert forall|k: Seq<char>| entries_view(es).dom().contains(k) <==> exists|i: int| 0 <= i < es.len() && (#[trigger] es[i]).0 == k by {
            if exists|i: int| 0 <= i < es.len() && (#[trigger] es[i]).0 == k {
                let i = choose|i: int| 0 <= i < es.len() && (#[trigger] es[i]).0 == k;
                if i < d.len() {
                    assert(d[i] == es[i]);
                }
            }
            if entries_view(d).dom().contains(k) {
                let i = choose|i: int| 0 <= i < d.len() && (#[trigger] d[i]).0 == k;
                assert(es[i] == d[i]);
            }
            if k == e.0 {
                assert(es[es.len() - 1] == e);
            }
        }
        assert forall|i: int| 0 <= i < es.len() implies entries_view(es)[(#[trigger] es[i]).0] == (es[i].1, es[i].2) by {
            if i < d.len() {
                assert(d[i] == es[i]);
                assert(es[i].0 != es[es.len() - 1].0);
            }
        }
    }
}

impl<T> ToolRegistry<T> {
    /// Create a new empty tool registry.
    pub fn new() -> (r: ToolRegistry<T>)
        ensures
            r.view() == Map::<Seq<char>, (u32, T)>::empty(),
    {
        let r = ToolRegistry { entries: Vec::new() };
        assert(r.model() =~= Seq::<(Seq<char>, u32, T)>::empty());
        r
    }

    /// The index of the entry registered under `id`, if there is one.
    fn position(&self, id: &Vec<char>) -> (r: Option<usize>)
        ensures
            match r {
                Some(i) => i < self.model().len() && self.model()[i as int].0 == id@,
                None => forall|i: int| 0 <= i < self.model().len() ==> (#[trigger] self.model()[i]).0 != id@,
            },
    {
        let mut i: usize = 0;
        while i < self.entries.len()
            invariant
                i <= self.entries@.len(),
                forall|j: int| 0 <= j < i ==> (#[trigger] self.model()[j]).0 != id@,
            decreases self.entries@.len() - i,
        {
            assert(self.model()[i as int].0 == self.entries@[i as int].id@);
            let other = crate::text::chars_of(self.entries[i].id.as_str());
            if crate::text::chars_eq(&other, id) {
                return Some(i);
            }
            i = i + 1;
        }
        None
    }

    /// Register a tool under `id` in slot `number`, replacing any tool registered under that id.
    pub fn register(&mut self, id: String, number: u32, tool: T)
        ensures
            final(self).view() == old(self).view().insert(id@, (number, tool)),
    {
        proof {
            use_type_invariant(&*self);
        }
        let k = crate::text::chars_of(id.as_str());
        let ghost es = self.model();
        proof {
            lemma_entries_view(es);
        }
        let pos = self.position(&k);
        let mut entries: Vec<Registered<T>> = Vec::new();
        std::mem::swap(&mut entries, &mut self.entries);
        assert(entries_model(entries@) == es);
        match pos {
            Some(i) => {
                entries.set(i, Registered { id, number, tool });
                proof {
                    let es2 = entries_model(entries@);
                    assert(es2 =~= es.update(i as int, (k@, number, tool)));
                    assert(distinct_ids(es2)) by {
                        assert forall|a: int, b: int| 0 <= a < es2.len() && 0 <= b < es2.len() && a != b implies (#[trigger] es2[a]).0 != (#[trigger] es2[b]).0 by {
                            if a != i && b != i {
                                assert(es2[a] == es[a] && es2[b] == es[b]);
                            } else if a == i {
                                assert(es2[b] == es[b]);
                            } else {
                                assert(es2[a] == es[a]);
                            }
                        }
                    }
                    lemma_entries_view(es2);
                    let m1 = entries_view(es).insert(k@, (number, tool));
                    let m2 = entries_view(es2);
                    assert forall|x: Seq<char>| m2.dom().contains(x) <==> m1.dom().contains(x) by {
                        if m1.dom().contains(x) && x != k@ {
                            let j = choose|j: int| 0 <= j < es.len() && (#[trigger] es[j]).0 == x;
                            assert(es2[j] == es[j]);
                        }
                        if m2.dom().contains(x) {
                            let j = choose|j: int| 0 <= j < es2.len() && (#[trigger] es2[j]).0 == x;
                            if j != i {
                                assert(es2[j] == es[j]);
                            }
                        }
                        if x == k@ {
                            assert(es2[i as int].0 == k@);
                        }
                    }
                    assert forall|x: Seq<char>| m2.dom().contains(x) implies m2[x] == m1[x] by {
                        let j = choose|j: int| 0 <= j < es2.len() && (#[trigger] es2[j]).0 == x;
                        if j != i {
                            assert(es2[j] == es[j]);
                        }
                    }
                    assert(m2 =~= m1);
                }
            },
            None => {
                entries.push(Registered { id, number, tool });
                proof {
                    let es2 = entries_model(entries@);
                    assert(es2 =~= es.push((k@, number, tool)));
                    assert(es2.drop_last() =~= es);
                    assert(distinct_ids(es2)) by {
                        assert forall|a: int, b: int| 0 <= a < es2.len() && 0 <= b < es2.len() && a != b implies (#[trigger] es2[a]).0 != (#[trigger] es2[b]).0 by {
                            if a < es.len() && b < es.len() {
                                assert(es2[a] == es[a] && es2[b] == es[b]);
                            } else if a == es.len() {
                                assert(es2[b] == es[b]);
                            } else {
                                assert(es2[a] == es[a]);
                            }
                        }
                    }
                }
            },
        }
        self.entries = entries;
    }

    /// Look up a tool by its unique string id.
    pub fn get(&self, id: &str) -> (r: Option<&T>)
        ensures
            match r {
                Some(t) => self.view().dom().contains(id@) && *t == self.view()[id@].1,
                None => !self.view().dom().contains(id@),
            },
    {
        proof {
            use_type_invariant(self);
        }
        let k = crate::text::chars_of(id);
        proof {
            lemma_entries_view(self.model());
        }
        match self.position(&k) {
            Some(i) => {
                assert(self.model()[i as int].2 == self.entries@[i as int].tool);
                Some(&self.entries[i].tool)
            },
            None => None,
        }
    }

    /// Look up a tool by its controller slot number: one of the tools registered in that slot, if
    /// any is (which one, when several share a slot, is not fixed).
    pub fn get_by_number(&self, number: u32) -> (r: Option<&T>)
        ensures
            match r {
                Some(t) => exists|k: Seq<char>| #![trigger self.view()[k]] self.view().dom().contains(k) && self.view()[k].0 == number && self.view()[k].1 == *t,
                None => forall|k: Seq<char>| #![trigger self.view()[k]] self.view().dom().contains(k) ==> self.view()[k].0 != number,
            },
    {
        proof {
            use_type_invariant(self);
        }
        proof {
            lemma_entries_view(self.model());
        }
        let mut i: usize = 0;
        while i < self.entries.len()
            invariant
                distinct_ids(self.model()),
                i <= self.entries@.len(),
                forall|j: int| 0 <= j < i ==> (#[trigger] self.model()[j]).1 != number,
            decreases self.entries@.len() - i,
        {
            assert(self.model()[i as int] == (self.entries@[i as int].id@, self.entries@[i as int].number, self.entries@[i as int].tool));
            if self.entries[i].number == number {
                proof {
                    lemma_entries_view(self.model());
                    let k = self.model()[i as int].0;
                    assert(self.view()[k] == (number, self.entries@[i as int].tool));
                }
                return Some(&self.entries[i].tool);
            }
            i = i + 1;
        }
        proof {
            assert forall|k: Seq<char>| #![trigger self.view()[k]] self.view().dom().contains(k) implies self.view()[k].0 != number by {
                let j = choose|j: int| 0 <= j < self.model().len() && (#[trigger] self.model()[j]).0 == k;
                assert(self.view()[self.model()[j].0] == (self.model()[j].1, self.model()[j].2));
            }
        }
        None
    }

    /// Total number of registered tools.
    pub fn len(&self) -> (n: usize)
        ensures
            n == self.view().dom().len(),
    {
        proof {
            use_type_invariant(self);
        }
        proof {
            lemma_entries_view(self.model());
        }
        self.entries.len()
    }

    /// Whether the registry is empty.
    pub fn is_empty(&self) -> (b: bool)
        ensures
            b == (self.view().dom().len() == 0),
    {
        proof {
            use_type_invariant(self);
        }
        proof {
            lemma_entries_view(self.model());
        }
        self.entries.len() == 0
    }
}

impl<T: Clone> Clone for ToolRegistry<T> {
    /// A copy with the same ids in the same slots, each tool cloned.
    fn clone(&self) -> (r: ToolRegistry<T>)
        ensures
            r.view().dom() == self.view().dom(),
            forall|k: Seq<char>| #[trigger] r.view().dom().contains(k) ==> r.view()[k].0 == self.view()[k].0
                && cloned::<T>(self.view()[k].1, r.view()[k].1),
    {
        proof {
            use_type_invariant(self);
        }
        let mut entries: Vec<Registered<T>> = Vec::new();
        let mut i: usize = 0;
        while i < self.entries.len()
            invariant
                i <= self.entries@.len(),
                entries@.len() == i,
                forall|j: int| 0 <= j < i ==> (#[trigger] entries@[j]).id@ == self.entries@[j].id@ && entries@[j].number == self.entries@[j].number
                    && cloned::<T>(self.entries@[j].tool, entries@[j].tool),
            decreases self.entries@.len() - i,
        {
            let e = &self.entries[i];
            entries.push(Registered { id: e.id.clone(), number: e.number, tool: e.tool.clone() });
            i = i + 1;
        }
        proof {
            let es = self.model();
            let cs = entries_model(entries@);
            assert forall|j: int| 0 <= j < cs.len() implies (#[trigger] cs[j]).0 == es[j].0 && cs[j].1 == es[j].1
                && cloned::<T>(es[j].2, cs[j].2) by {
                assert(cs[j] == (entries@[j].id@, entries@[j].number, entries@[j].tool));
                assert(es[j] == (self.entries@[j].id@, self.entries@[j].number, self.entries@[j].tool));
            }
            assert(distinct_ids(cs)) by {
                assert forall|a: int, b: int| 0 <= a < cs.len() && 0 <= b < cs.len() && a != b implies (#[trigger] cs[a]).0 != (#[trigger] cs[b]).0 by {
                    assert(es[a].0 != es[b].0);
                }
            }
            lemma_entries_view(es);
            lemma_entries_view(cs);
            assert forall|k: Seq<char>| entries_view(cs).dom().contains(k) == entries_view(es).dom().contains(k) by {
                if entries_view(cs).dom().contains(k) {
                    let j = choose|j: int| 0 <= j < cs.len() && (#[trigger] cs[j]).0 == k;
                    assert(es[j].0 == k);
                }
                if entries_view(es).dom().contains(k) {
                    let j = choose|j: int| 0 <= j < es.len() && (#[trigger] es[j]).0 == k;
                    assert(cs[j].0 == k);
                }
            }
            assert(entries_view(cs).dom() =~= entries_view(es).dom());
            assert forall|k: Seq<char>| #[trigger] entries_view(cs).dom().contains(k) implies entries_view(cs)[k].0 == entries_view(es)[k].0
                && cloned::<T>(entries_view(es)[k].1, entries_view(cs)[k].1) by {
                let j = choose|j: int| 0 <= j < cs.len() && (#[trigger] cs[j]).0 == k;
                assert(es[j].0 == k);
            }
        }
        ToolRegistry { entries }
    }
}

/// Law: a tool looked up by the id it was just registered under is the tool registered, in the slot
/// it was registered in, and every other id keeps the tool it had (`after` is `before` with the tool
/// registered, as `register` leaves it).
pub proof fn law_get_after_register<T>(before: ToolRegistry<T>, after: ToolRegistry<T>, id: Seq<char>, number: u32, tool: T, other: Seq<char>)
    requires
        after.view() == before.view().insert(id, (number, tool)),
        other != id,
    ensures
        after.view().dom().contains(id),
        after.view()[id] == (number, tool),
        after.view().dom().contains(other) == before.view().dom().contains(other),
        before.view().dom().contains(other) ==> after.view()[other] == before.view()[other],
{
}

} // verus!
