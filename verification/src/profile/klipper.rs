//! Klipper `printer.cfg` import: a hand-rolled INI scanner and the mapping of Klipper configuration
//! fields to profile fields, with a non-fatal warning for every field that was omitted,
//! approximated, or needs manual review.
use crate::text::{
    chars_eq, chars_of, char_is_whitespace, find_char, find_char_in, is_ws, lemma_find_char_at,
    lemma_trim_start_at, push_str, starts_with, str_eq, str_lowercase, string_from_range,
    string_from_str, to_lowercase, trim, trim_range, trim_start, float_syntax, is_float_text, line_end,
    lemma_line_end, first_key, lookup, lemma_first_key_bounds, lemma_first_key_at,
    lemma_first_key_absent, has_prefix,
};
use crate::profile::FirmwareProfile;
use vstd::prelude::*;

verus! {

/// A non-fatal issue encountered while importing a Klipper `printer.cfg`.
#[derive(Debug, Clone, PartialEq, Eq)]
pub struct KlipperImportWarning {
    /// The dry profile field that was affected.
    pub field: String,
    /// Human-readable description of the issue.
    pub message: String,
}

/// A fatal error that prevents importing a Klipper `printer.cfg`.
#[derive(Debug, Clone, PartialEq, Eq)]
pub enum KlipperImportError {
    /// The input does not contain a `[printer]` section (not a Klipper config).
    NotKlipper,
    /// The input could not be parsed.
    Parse(String),
}

// ── INI model ────────────────────────────────────────────────────────────────

/// One `[section]` of a scanned INI text: its (lowercased) name and its `key → value` entries in
/// first-appearance order, each key at most once.
#[derive(Debug, Clone)]
pub struct IniSection {
    pub name: String,
    pub entries: Vec<(String, String)>,
}

/// A scanned INI text: its sections in first-appearance order, each name at most once.
#[derive(Debug, Clone)]
pub struct IniMap {
    pub sections: Vec<IniSection>,
}

/// The entries of a section as character sequences.
pub type EntriesModel = Seq<(Seq<char>, Seq<char>)>;

/// A section as character sequences.
pub type SectionModel = (Seq<char>, EntriesModel);

pub open spec fn entries_model(es: Seq<(String, String)>) -> EntriesModel {
    es.map_values(|e: (String, String)| (e.0@, e.1@))
}

pub open spec fn section_model(s: IniSection) -> SectionModel {
    (s.name@, entries_model(s.entries@))
}

impl IniMap {
    /// The scanned text as character sequences.
    pub open spec fn model(&self) -> Seq<SectionModel> {
        self.sections@.map_values(|s: IniSection| section_model(s))
    }
}

/// `m` with a section named `name` (an empty one is added at the end when it has none).
pub open spec fn ensure_section(m: Seq<SectionModel>, name: Seq<char>) -> Seq<SectionModel> {
    if first_key(m, name) is Some {
        m
    } else {
        m.push((name, Seq::empty()))
    }
}

/// `es` with `key` set to `value` (in place when the key is present, appended otherwise).
pub open spec fn put_entry(es: EntriesModel, key: Seq<char>, value: Seq<char>) -> EntriesModel {
    match first_key(es, key) {
        Some(i) => es.update(i, (key, value)),
        None => es.push((key, value)),
    }
}

/// `m` with `key` set to `value` in section `sec`.
pub open spec fn put(m: Seq<SectionModel>, sec: Seq<char>, key: Seq<char>, value: Seq<char>) -> Seq<SectionModel> {
    let m1 = ensure_section(m, sec);
    let i = first_key(m1, sec).unwrap();
    m1.update(i, (sec, put_entry(m1[i].1, key, value)))
}


/// The index of the first section of `secs` named `name`.
fn section_index(secs: &Vec<IniSection>, name: &Vec<char>) -> (r: Option<usize>)
    ensures
        match first_key(secs@.map_values(|s: IniSection| section_model(s)), name@) {
            Some(i) => r is Some && r->0 == i,
            None => r is None,
        },
{
    let ghost m = secs@.map_values(|s: IniSection| section_model(s));
    let mut i: usize = 0;
    while i < secs.len()
        invariant
            i <= secs@.len(),
            m == secs@.map_values(|s: IniSection| section_model(s)),
            forall|j: int| 0 <= j < i ==> m[j].0 != name@,
        decreases secs@.len() - i,
    {
        let other = chars_of(secs[i].name.as_str());
        if chars_eq(&other, name) {
            proof {
                lemma_first_key_at(m, name@, i as int);
            }
            return Some(i);
        }
        i = i + 1;
    }
    proof {
        lemma_first_key_absent(m, name@);
    }
    None
}

/// The index of the first entry of `es` keyed by `key`.
fn entry_index(es: &Vec<(String, String)>, key: &Vec<char>) -> (r: Option<usize>)
    ensures
        match first_key(entries_model(es@), key@) {
            Some(i) => r is Some && r->0 == i,
            None => r is None,
        },
{
    let ghost m = entries_model(es@);
    let mut i: usize = 0;
    while i < es.len()
        invariant
            i <= es@.len(),
            m == entries_model(es@),
            forall|j: int| 0 <= j < i ==> m[j].0 != key@,
        decreases es@.len() - i,
    {
        let other = chars_of(es[i].0.as_str());
        if chars_eq(&other, key) {
            proof {
                lemma_first_key_at(m, key@, i as int);
            }
            return Some(i);
        }
        i = i + 1;
    }
    proof {
        lemma_first_key_absent(m, key@);
    }
    None
}

impl IniMap {
    /// Adds an empty section named `name` unless there is one; returns the section's index.
    fn ensure_section(&mut self, name: &String) -> (i: usize)
        ensures
            final(self).model() == ensure_section(old(self).model(), name@),
            first_key(final(self).model(), name@) == Some(i as int),
    {
        let key = chars_of(name.as_str());
        proof {
            lemma_first_key_bounds(self.model(), name@);
        }
        match section_index(&self.sections, &key) {
            Some(i) => i,
            None => {
                let ghost m0 = self.model();
                let fresh = IniSection { name: name.clone(), entries: Vec::new() };
                assert(section_model(fresh) =~= (name@, Seq::<(Seq<char>, Seq<char>)>::empty())) by {
                    assert(entries_model(fresh.entries@) =~= Seq::<(Seq<char>, Seq<char>)>::empty());
                }
                self.sections.push(fresh);
                let i = self.sections.len() - 1;
                proof {
                    let m1 = self.model();
                    assert(m1 =~= m0.push((name@, Seq::empty())));
                    lemma_first_key_bounds(m0, name@);
                    assert forall|j: int| 0 <= j < i implies m1[j].0 != name@ by {
                        assert(m1[j] == m0[j]);
                    }
                    lemma_first_key_at(m1, name@, i as int);
                }
                i
            },
        }
    }

    /// Sets `key` to `value` in section `sec`, adding the section when it is missing.
    fn put(&mut self, sec: &String, key: String, value: String)
        ensures
            final(self).model() == put(old(self).model(), sec@, key@, value@),
    {
        let i = self.ensure_section(sec);
        let ghost m1 = self.model();
        let ghost secs1 = self.sections@;
        proof {
            lemma_first_key_bounds(m1, sec@);
        }
        let mut section = self.sections.remove(i);
        let k = chars_of(key.as_str());
        let ghost es0 = entries_model(section.entries@);
        proof {
            assert(section == secs1[i as int]);
            assert(section_model(section) == m1[i as int]);
            lemma_first_key_bounds(es0, k@);
        }
        match entry_index(&section.entries, &k) {
            Some(j) => {
                section.entries.set(j, (key, value));
                assert(entries_model(section.entries@) =~= es0.update(j as int, (k@, value@)));
                assert(entries_model(section.entries@) == put_entry(es0, k@, value@));
            },
            None => {
                section.entries.push((key, value));
                assert(entries_model(section.entries@) =~= es0.push((k@, value@)));
                assert(entries_model(section.entries@) == put_entry(es0, k@, value@));
            },
        }
        let ghost sm = section_model(section);
        assert(sm.0 == sec@);
        assert(sm.1 == put_entry(m1[i as int].1, k@, value@));
        let ghost secs0 = self.sections@;
        self.sections.insert(i, section);
        proof {
            assert(self.sections@ =~= secs1.update(i as int, section));
            lemma_first_key_bounds(m1, sec@);
            assert(self.model() =~= m1.update(i as int, (sec@, put_entry(m1[i as int].1, k@, value@))));
        }
    }
}

// ── line scanning ────────────────────────────────────────────────────────────

/// The index of the first whitespace character of `s`, or its length when it has none.
pub open spec fn first_ws(s: Seq<char>) -> int
    decreases s.len(),
{
    if s.len() == 0 {
        0
    } else if is_ws(s[0]) {
        0
    } else {
        1 + first_ws(s.drop_first())
    }
}

/// The first whitespace-delimited token of `s`, or `s` itself when it holds none
/// (`s.split_whitespace().next().unwrap_or(s)`).
pub open spec fn first_token_or_all(s: Seq<char>) -> Seq<char> {
    let t = trim_start(s);
    if t.len() == 0 {
        s
    } else {
        t.take(first_ws(t))
    }
}

/// The section name a header line `[name ...]` declares: its first token, lowercased; none when the
/// header is not closed.
pub open spec fn header_name(l: Seq<char>) -> Option<Seq<char>> {
    match find_char(l, ']') {
        None => None,
        Some(close) => Some(str_lowercase(first_token_or_all(l.subrange(1, close)))),
    }
}

/// Where a `key: value` or `key = value` line splits: at whichever separator comes first.
pub open spec fn find_sep(l: Seq<char>) -> Option<int> {
    match (find_char(l, ':'), find_char(l, '=')) {
        (Some(c), Some(e)) => Some(if c <= e { c } else { e }),
        (Some(c), None) => Some(c),
        (None, Some(e)) => Some(e),
        (None, None) => None,
    }
}

/// The scanner's state: the sections so far and the current section name.
pub type ScanState = (Seq<SectionModel>, Seq<char>);

/// One line of the scan. Blank lines and `#`/`;` comments are skipped; a `[section]` header makes its
/// section current (and present); a `key: value` or `key = value` line under a current section sets
/// the trimmed, lowercased key to the trimmed value; anything else is ignored.
pub open spec fn scan_step(st: ScanState, raw: Seq<char>) -> ScanState {
    let l = trim(raw);
    if l.len() == 0 || l[0] == '#' || l[0] == ';' {
        st
    } else if l[0] == '[' {
        match header_name(l) {
            Some(sec) => (ensure_section(st.0, sec), sec),
            None => st,
        }
    } else if st.1.len() == 0 {
        st
    } else {
        match find_sep(l) {
            None => st,
            Some(sep) => {
                let key = str_lowercase(trim(l.take(sep)));
                let value = trim(l.skip(sep + 1));
                if key.len() == 0 {
                    st
                } else {
                    (put(st.0, st.1, key, value), st.1)
                }
            },
        }
    }
}

/// The scan of the lines of `t` from `pos` on, starting from state `st`. Lines are split at `\n`;
/// a `\r` before it is whitespace and trimmed away with the rest of the line's padding.
pub open spec fn scan_from(t: Seq<char>, pos: int, st: ScanState) -> ScanState
    decreases t.len() - pos,
{
    if pos < 0 || pos > t.len() {
        st
    } else {
        let e = line_end(t, pos);
        let st2 = scan_step(st, t.subrange(pos, e));
        if e >= t.len() {
            st2
        } else {
            proof {
                lemma_line_end(t, pos);
            }
            scan_from(t, e + 1, st2)
        }
    }
}

/// The sections of an INI text.
pub open spec fn spec_scan_ini(t: Seq<char>) -> Seq<SectionModel> {
    scan_from(t, 0, (Seq::empty(), Seq::empty())).0
}


proof fn lemma_first_ws_at(u: Seq<char>, k: int)
    requires
        0 <= k <= u.len(),
        forall|j: int| 0 <= j < k ==> !is_ws(#[trigger] u[j]),
        k < u.len() ==> is_ws(u[k]),
    ensures
        first_ws(u) == k,
    decreases k,
{
    if k > 0 {
        let d = u.drop_first();
        assert forall|j: int| 0 <= j < k - 1 implies !is_ws(#[trigger] d[j]) by {
            assert(d[j] == u[j + 1]);
        }
        lemma_first_ws_at(d, k - 1);
    }
}

/// The bounds, inside `t`, of `first_token_or_all(t[a..b])`.
fn token_or_all(t: &Vec<char>, a: usize, b: usize) -> (r: (usize, usize))
    requires
        a <= b <= t@.len(),
    ensures
        a <= r.0 <= r.1 <= b,
        t@.subrange(r.0 as int, r.1 as int) == first_token_or_all(t@.subrange(a as int, b as int)),
{
    let ghost s = t@.subrange(a as int, b as int);
    let mut ts = a;
    while ts < b && char_is_whitespace(t[ts])
        invariant
            a <= ts <= b,
            b <= t@.len(),
            forall|j: int| a <= j < ts ==> is_ws(#[trigger] t@[j]),
        decreases b - ts,
    {
        ts = ts + 1;
    }
    proof {
        assert forall|j: int| 0 <= j < ts - a implies is_ws(#[trigger] s[j]) by {
            assert(s[j] == t@[a + j]);
        }
        lemma_trim_start_at(s, ts - a);
        assert(s.subrange(ts - a, s.len() as int) =~= t@.subrange(ts as int, b as int));
    }
    if ts == b {
        return (a, b);
    }
    let mut te = ts;
    while te < b && !char_is_whitespace(t[te])
        invariant
            ts <= te <= b,
            b <= t@.len(),
            forall|j: int| ts <= j < te ==> !is_ws(#[trigger] t@[j]),
        decreases b - te,
    {
        te = te + 1;
    }
    proof {
        let u = t@.subrange(ts as int, b as int);
        assert forall|j: int| 0 <= j < te - ts implies !is_ws(#[trigger] u[j]) by {
            assert(u[j] == t@[ts + j]);
        }
        if te < b {
            assert(u[te - ts] == t@[te as int]);
        }
        lemma_first_ws_at(u, te - ts);
        assert(u.take(te - ts) =~= t@.subrange(ts as int, te as int));
    }
    (ts, te)
}

/// The separator index of `t[a..b]` (see `find_sep`), as an index of `t`.
fn find_sep_in(t: &Vec<char>, a: usize, b: usize) -> (r: Option<usize>)
    requires
        a <= b <= t@.len(),
    ensures
        match find_sep(t@.subrange(a as int, b as int)) {
            Some(i) => r is Some && r->0 == a + i,
            None => r is None,
        },
        r is Some ==> a <= r->0 < b,
{
    let c = find_char_in(t, a, b, ':');
    let q = find_char_in(t, a, b, '=');
    match (c, q) {
        (Some(c), Some(q)) => Some(if c <= q { c } else { q }),
        (Some(c), None) => Some(c),
        (None, Some(q)) => Some(q),
        (None, None) => None,
    }
}

/// Scans the line `t[a..b]` into the state `(map, cur)`.
fn scan_line(t: &Vec<char>, a: usize, b: usize, map: &mut IniMap, cur: &mut String)
    requires
        a <= b <= t@.len(),
    ensures
        (final(map).model(), final(cur)@) == scan_step((old(map).model(), old(cur)@), t@.subrange(a as int, b as int)),
{
    let (s, e) = trim_range(t, a, b);
    let ghost l = t@.subrange(s as int, e as int);
    assert(l == trim(t@.subrange(a as int, b as int)));
    if s == e {
        assert(l.len() == 0);
        return;
    }
    let c0 = t[s];
    assert(l[0] == c0);
    if c0 == '#' || c0 == ';' {
        return;
    }
    if c0 == '[' {
        match find_char_in(t, s, e, ']') {
            None => {
                return;
            },
            Some(close) => {
                proof {
                    if close == s {
                        assert(l[0] == ']');
                    }
                    assert(l.subrange(1, close - s) =~= t@.subrange(s + 1, close as int));
                }
                let (ts, te) = token_or_all(t, s + 1, close);
                let raw_name = string_from_range(t, ts, te);
                let sec = to_lowercase(raw_name.as_str());
                map.ensure_section(&sec);
                *cur = sec;
                return;
            },
        }
    }
    if cur.as_str().is_empty() {
        return;
    }
    match find_sep_in(t, s, e) {
        None => {
            return;
        },
        Some(sep) => {
            proof {
                assert(l.take(sep - s) =~= t@.subrange(s as int, sep as int));
                assert(l.skip(sep - s + 1) =~= t@.subrange(sep + 1, e as int));
            }
            let (ks, ke) = trim_range(t, s, sep);
            let raw_key = string_from_range(t, ks, ke);
            let key = to_lowercase(raw_key.as_str());
            let (vs, ve) = trim_range(t, sep + 1, e);
            let value = string_from_range(t, vs, ve);
            if key.as_str().is_empty() {
                return;
            }
            map.put(cur, key, value);
        },
    }
}

/// Scan a Klipper-style INI text into its sections: blank lines and `#`/`;` comments are ignored;
/// a `[section name]` header starts the section named by its first token, lowercased; a key/value
/// pair is split on the first `:` or `=`, both sides trimmed and the key lowercased, and a later
/// value for the same key replaces the earlier one.
pub fn scan_ini(text: &str) -> (m: IniMap)
    ensures
        m.model() == spec_scan_ini(text@),
{
    let t = chars_of(text);
    let mut map = IniMap { sections: Vec::new() };
    let mut cur = String::new();
    proof {
        assert(map.model() =~= Seq::<SectionModel>::empty());
    }
    let ghost init: ScanState = (Seq::empty(), Seq::empty());
    let mut pos: usize = 0;
    let mut done = false;
    while !done
        invariant
            t@ == text@,
            pos <= t@.len(),
            !done ==> scan_from(t@, 0, init) == scan_from(t@, pos as int, (map.model(), cur@)),
            done ==> scan_from(t@, 0, init) == (map.model(), cur@),
        decreases (if done { 0int } else { t@.len() + 1 - pos }),
    {
        let ghost st = (map.model(), cur@);
        let e = match find_char_in(&t, pos, t.len(), '\n') {
            Some(i) => i,
            None => t.len(),
        };
        proof {
            lemma_line_end(t@, pos as int);
            let rest = t@.subrange(pos as int, t@.len() as int);
            let le = line_end(t@, pos as int);
            assert forall|j: int| 0 <= j < le - pos implies rest[j] != '\n' by {
                assert(rest[j] == t@[pos + j]);
            }
            if le < t@.len() {
                assert(rest[le - pos] == t@[le]);
            }
            lemma_find_char_at(rest, '\n', le - pos);
            assert(e == le);
        }
        scan_line(&t, pos, e, &mut map, &mut cur);
        if e == t.len() {
            done = true;
        } else {
            pos = e + 1;
        }
    }
    map
}


// ── import ───────────────────────────────────────────────────────────────────

/// What a Klipper config supplies: the firmware flavour, and the numeric values as the texts that
/// parsed as numbers, which the caller converts (scaling `retract_speed` from mm/s to mm/min).
#[derive(Debug, Clone, PartialEq, Eq)]
pub struct KlipperValues {
    /// The firmware flavour: always `klipper`.
    pub firmware: FirmwareProfile,
    /// The extruding-move feedrate range as `(min, max)`: always `None`, since Klipper's
    /// `max_velocity` is a travel limit, not an extrusion range (a warning says so).
    pub feedrate_range: Option<(String, String)>,
    /// `[printer] max_accel` (mm/s²).
    pub max_accel: Option<String>,
    /// `[printer] square_corner_velocity` (mm/s).
    pub square_corner_velocity: Option<String>,
    /// The build volume approximated from the stepper position limits.
    pub build_volume: Option<KlipperBuildVolume>,
    /// `[extruder] filament_diameter` (mm).
    pub filament_diameter: Option<String>,
    /// `[extruder] min_extrude_temp` (°C).
    pub min_extrude_temp: Option<String>,
    /// `[extruder] nozzle_diameter` (mm), taken as the line width.
    pub nozzle_diameter: Option<String>,
    /// `[firmware_retraction] retract_length` (mm).
    pub retract_length: Option<String>,
    /// `[firmware_retraction] retract_speed` (mm/s).
    pub retract_speed: Option<String>,
}

/// Stepper position limits: a missing lower limit (or Z upper limit) stands for 0.
#[derive(Debug, Clone, PartialEq, Eq)]
pub struct KlipperBuildVolume {
    pub x_min: Option<String>,
    pub x_max: String,
    pub y_min: Option<String>,
    pub y_max: String,
    pub z_min: Option<String>,
    pub z_max: Option<String>,
}

/// A warning as character sequences: `(field, message)`.
pub type WarningModel = (Seq<char>, Seq<char>);

pub open spec fn warnings_model(ws: Seq<KlipperImportWarning>) -> Seq<WarningModel> {
    ws.map_values(|w: KlipperImportWarning| (w.field@, w.message@))
}

pub open spec fn text_of(o: Option<String>) -> Option<Seq<char>> {
    match o {
        Some(s) => Some(s@),
        None => None,
    }
}

/// The value of `key` in section `sec` of `m`.
pub open spec fn sec_value(m: Seq<SectionModel>, sec: Seq<char>, key: Seq<char>) -> Option<Seq<char>> {
    match lookup(m, sec) {
        Some(es) => lookup(es, key),
        None => None,
    }
}

/// A raw value when it parses as a number.
pub open spec fn number_value(raw: Option<Seq<char>>) -> Option<Seq<char>> {
    match raw {
        Some(r) => if float_syntax(r) {
            Some(r)
        } else {
            None
        },
        None => None,
    }
}

/// The message for a value that does not parse as a number.
pub open spec fn parse_message(label: Seq<char>, raw: Seq<char>) -> Seq<char> {
    "could not parse "@ + label + " '"@ + raw + "' as a number — skipped"@
}

/// The warnings for a numeric field: a parse warning when the value is present and unparsable,
/// `note` when it is present and parses, none when it is absent.
pub open spec fn field_warnings(raw: Option<Seq<char>>, field: Seq<char>, label: Seq<char>, note: Seq<WarningModel>) -> Seq<WarningModel> {
    match raw {
        Some(r) => if float_syntax(r) {
            note
        } else {
            seq![(field, parse_message(label, r))]
        },
        None => Seq::empty(),
    }
}

/// Whether the printer's kinematics is a delta family (no rectangular build volume).
pub open spec fn is_delta(m: Seq<SectionModel>) -> bool {
    match sec_value(m, "printer"@, "kinematics"@) {
        Some(k) => str_lowercase(k) == "delta"@ || str_lowercase(k) == "rotary_delta"@,
        None => false,
    }
}

/// How many section names of `m` start with `p`.
pub open spec fn prefix_count(m: Seq<SectionModel>, p: Seq<char>) -> nat
    decreases m.len(),
{
    if m.len() == 0 {
        0
    } else {
        prefix_count(m.drop_last(), p) + if starts_with(m.last().0, p) {
            1nat
        } else {
            0nat
        }
    }
}

pub open spec fn spec_build_volume_warnings(m: Seq<SectionModel>) -> Seq<WarningModel> {
    if is_delta(m) {
        seq![("machine.build_volume"@, "machine.build_volume skipped for delta/rotary_delta kinematics — add manually"@)]
    } else if number_value(sec_value(m, "stepper_x"@, "position_max"@)) is Some && number_value(
        sec_value(m, "stepper_y"@, "position_max"@),
    ) is Some {
        seq![("machine.build_volume"@, "machine.build_volume approximated from stepper position limits"@)]
    } else {
        Seq::empty()
    }
}

pub open spec fn spec_extruder_warnings(m: Seq<SectionModel>) -> Seq<WarningModel> {
    match lookup(m, "extruder"@) {
        None => Seq::empty(),
        Some(es) => field_warnings(
            lookup(es, "filament_diameter"@),
            "material.filament_diameter"@,
            "filament_diameter"@,
            Seq::empty(),
        ) + field_warnings(
            lookup(es, "min_extrude_temp"@),
            "material.min_nozzle_temperature_c"@,
            "min_extrude_temp"@,
            Seq::empty(),
        ) + field_warnings(
            lookup(es, "nozzle_diameter"@),
            "process.line_width"@,
            "nozzle_diameter"@,
            seq![("process.line_width"@, "process.line_width derived from nozzle_diameter — review"@)],
        ) + if lookup(es, "pressure_advance"@) is Some {
            seq![("extruder.pressure_advance"@, "[extruder] pressure_advance ignored — deferred to a future machine-model release"@)]
        } else {
            Seq::empty()
        },
    }
}

pub open spec fn spec_retraction_warnings(m: Seq<SectionModel>) -> Seq<WarningModel> {
    match lookup(m, "firmware_retraction"@) {
        None => Seq::empty(),
        Some(es) => field_warnings(
            lookup(es, "retract_length"@),
            "process.max_retraction_distance"@,
            "retract_length"@,
            seq![("process.max_retraction_distance"@, "process.max_retraction_distance set from firmware_retraction.retract_length — review"@)],
        ) + field_warnings(
            lookup(es, "retract_speed"@),
            "process.max_retraction_speed"@,
            "retract_speed"@,
            seq![("process.max_retraction_speed"@, "process.max_retraction_speed set from firmware_retraction.retract_speed (×60 mm/s→mm/min) — review"@)],
        ),
    }
}

/// The warnings of the `[printer]` fields, ending with the one for the omitted feedrate range.
pub open spec fn spec_printer_warnings(m: Seq<SectionModel>) -> Seq<WarningModel> {
    field_warnings(
        sec_value(m, "printer"@, "max_accel"@),
        "machine.kinematics.max_acceleration_mm_s2"@,
        "max_accel"@,
        Seq::empty(),
    ) + field_warnings(
        sec_value(m, "printer"@, "square_corner_velocity"@),
        "machine.kinematics.max_junction_velocity_mm_s"@,
        "square_corner_velocity"@,
        Seq::empty(),
    ) + seq![("machine.feedrate_range"@, "machine.feedrate_range omitted (no Klipper lower-bound source) — add manually"@)]
}

/// The warning for a config with more than one extruder section.
pub open spec fn spec_extruder_count_warnings(m: Seq<SectionModel>) -> Seq<WarningModel> {
    if prefix_count(m, "extruder"@) > 1 {
        seq![("extruder"@, "only the first extruder imported"@)]
    } else {
        Seq::empty()
    }
}

/// The warnings for sections that are not imported, ending with the one for the flow limit that a
/// printer.cfg never holds.
pub open spec fn spec_ignored_warnings(m: Seq<SectionModel>) -> Seq<WarningModel> {
    (if lookup(m, "input_shaper"@) is Some {
        seq![("input_shaper"@, "[input_shaper] ignored — deferred to a future machine-model release"@)]
    } else {
        Seq::empty()
    }) + (if lookup(m, "include"@) is Some {
        seq![("include"@, "[include] not followed"@)]
    } else {
        Seq::empty()
    }) + seq![("material.max_volumetric_flow_mm3_s"@, "material.max_volumetric_flow_mm3_s not in printer.cfg — add from your hotend calibration (most useful review-gcode safety contract)"@)]
}

/// Every warning an import of the sections `m` raises, in order.
pub open spec fn spec_klipper_warnings(m: Seq<SectionModel>) -> Seq<WarningModel> {
    spec_printer_warnings(m) + spec_build_volume_warnings(m) + spec_extruder_count_warnings(m)
        + spec_extruder_warnings(m) + spec_retraction_warnings(m) + spec_ignored_warnings(m)
}

/// The values an import of the sections `m` carries over.
pub open spec fn klipper_values_match(v: KlipperValues, m: Seq<SectionModel>) -> bool {
    &&& v.firmware.flavor matches Some(f) && f@ == "klipper"@
    &&& v.feedrate_range is None
    &&& text_of(v.max_accel) == number_value(sec_value(m, "printer"@, "max_accel"@))
    &&& text_of(v.square_corner_velocity) == number_value(sec_value(m, "printer"@, "square_corner_velocity"@))
    &&& text_of(v.filament_diameter) == number_value(sec_value(m, "extruder"@, "filament_diameter"@))
    &&& text_of(v.min_extrude_temp) == number_value(sec_value(m, "extruder"@, "min_extrude_temp"@))
    &&& text_of(v.nozzle_diameter) == number_value(sec_value(m, "extruder"@, "nozzle_diameter"@))
    &&& text_of(v.retract_length) == number_value(sec_value(m, "firmware_retraction"@, "retract_length"@))
    &&& text_of(v.retract_speed) == number_value(sec_value(m, "firmware_retraction"@, "retract_speed"@))
    &&& match v.build_volume {
        Some(bv) => {
            &&& !is_delta(m)
            &&& number_value(sec_value(m, "stepper_x"@, "position_max"@)) == Some(bv.x_max@)
            &&& number_value(sec_value(m, "stepper_y"@, "position_max"@)) == Some(bv.y_max@)
            &&& text_of(bv.x_min) == number_value(sec_value(m, "stepper_x"@, "position_min"@))
            &&& text_of(bv.y_min) == number_value(sec_value(m, "stepper_y"@, "position_min"@))
            &&& text_of(bv.z_min) == number_value(sec_value(m, "stepper_z"@, "position_min"@))
            &&& text_of(bv.z_max) == number_value(sec_value(m, "stepper_z"@, "position_max"@))
        },
        None => is_delta(m) || number_value(sec_value(m, "stepper_x"@, "position_max"@)) is None
            || number_value(sec_value(m, "stepper_y"@, "position_max"@)) is None,
    }
}

impl IniMap {
    /// The value of `key` in section `sec`.
    pub fn get(&self, sec: &str, key: &str) -> (r: Option<String>)
        ensures
            text_of(r) == sec_value(self.model(), sec@, key@),
    {
        let s = chars_of(sec);
        match section_index(&self.sections, &s) {
            None => None,
            Some(i) => {
                proof {
                    lemma_first_key_bounds(self.model(), sec@);
                    assert(section_model(self.sections@[i as int]) == self.model()[i as int]);
                }
                let k = chars_of(key);
                let es = &self.sections[i].entries;
                proof {
                    lemma_first_key_bounds(entries_model(es@), key@);
                }
                match entry_index(es, &k) {
                    None => None,
                    Some(j) => {
                        assert(entries_model(es@)[j as int] == (es@[j as int].0@, es@[j as int].1@));
                        Some(es[j].1.clone())
                    },
                }
            },
        }
    }

    /// Whether there is a section named `name`.
    pub fn contains_section(&self, name: &str) -> (b: bool)
        ensures
            b == (lookup(self.model(), name@) is Some),
    {
        let s = chars_of(name);
        section_index(&self.sections, &s).is_some()
    }

    /// How many section names start with `p`.
    pub fn count_prefixed(&self, p: &str) -> (n: usize)
        ensures
            n == prefix_count(self.model(), p@),
    {
        let pv = chars_of(p);
        let mut n: usize = 0;
        let mut i: usize = 0;
        while i < self.sections.len()
            invariant
                i <= self.sections@.len(),
                pv@ == p@,
                n == prefix_count(self.model().take(i as int), p@),
                n <= i,
            decreases self.sections@.len() - i,
        {
            proof {
                assert(self.model().take(i + 1).drop_last() =~= self.model().take(i as int));
                assert(self.model()[i as int].0 == self.sections@[i as int].name@);
            }
            let name = chars_of(self.sections[i].name.as_str());
            if has_prefix(&name, &pv) {
                n = n + 1;
            }
            i = i + 1;
        }
        assert(self.model().take(i as int) =~= self.model());
        n
    }
}


fn push_warning(ws: &mut Vec<KlipperImportWarning>, field: &str, message: &str)
    ensures
        warnings_model(final(ws)@) == warnings_model(old(ws)@) + seq![(field@, message@)],
{
    ws.push(KlipperImportWarning { field: string_from_str(field), message: string_from_str(message) });
    assert(warnings_model(final(ws)@) =~= warnings_model(old(ws)@) + seq![(field@, message@)]);
}

/// A numeric field: keeps the raw text when it parses, warns when it does not, and otherwise adds
/// the `note` warning (when there is one).
fn number_field(
    raw: Option<String>,
    field: &str,
    label: &str,
    note: Option<&str>,
    ws: &mut Vec<KlipperImportWarning>,
) -> (r: Option<String>)
    ensures
        text_of(r) == number_value(text_of(raw)),
        warnings_model(final(ws)@) == warnings_model(old(ws)@) + field_warnings(
            text_of(raw),
            field@,
            label@,
            match note {
                Some(n) => seq![(field@, n@)],
                None => Seq::empty(),
            },
        ),
{
    match raw {
        None => {
            assert(warnings_model(old(ws)@) + Seq::<WarningModel>::empty() =~= warnings_model(old(ws)@));
            None
        },
        Some(r) => {
            if is_float_text(r.as_str()) {
                match note {
                    Some(n) => push_warning(ws, field, n),
                    None => {
                        assert(warnings_model(old(ws)@) + Seq::<WarningModel>::empty() =~= warnings_model(old(ws)@));
                    },
                }
                Some(r)
            } else {
                let mut message = string_from_str("could not parse ");
                push_str(&mut message, label);
                push_str(&mut message, " '");
                push_str(&mut message, r.as_str());
                push_str(&mut message, "' as a number — skipped");
                assert(message@ =~= parse_message(label@, r@));
                push_warning(ws, field, message.as_str());
                None
            }
        },
    }
}


/// A raw value kept only when it parses as a number (no warning either way).
fn number_only(raw: Option<String>) -> (r: Option<String>)
    ensures
        text_of(r) == number_value(text_of(raw)),
{
    match raw {
        None => None,
        Some(t) => if is_float_text(t.as_str()) {
            Some(t)
        } else {
            None
        },
    }
}

/// Whether the `[printer]` kinematics is `delta` or `rotary_delta` (compared lowercased).
fn delta_kinematics(ini: &IniMap) -> (b: bool)
    ensures
        b == is_delta(ini.model()),
{
    match ini.get("printer", "kinematics") {
        None => false,
        Some(k) => {
            let lower = to_lowercase(k.as_str());
            str_eq(lower.as_str(), "delta") || str_eq(lower.as_str(), "rotary_delta")
        },
    }
}

/// Adds `w` when `cond` holds.
fn push_warning_if(ws: &mut Vec<KlipperImportWarning>, cond: bool, field: &str, message: &str)
    ensures
        warnings_model(final(ws)@) == warnings_model(old(ws)@) + if cond {
            seq![(field@, message@)]
        } else {
            Seq::<WarningModel>::empty()
        },
{
    if cond {
        push_warning(ws, field, message);
    } else {
        assert(warnings_model(old(ws)@) + Seq::<WarningModel>::empty() =~= warnings_model(old(ws)@));
    }
}

/// The build volume from the stepper position limits, with its warning.
fn build_volume_part(ini: &IniMap, ws: &mut Vec<KlipperImportWarning>) -> (bv: Option<KlipperBuildVolume>)
    ensures
        warnings_model(final(ws)@) == warnings_model(old(ws)@) + spec_build_volume_warnings(ini.model()),
        match bv {
            Some(b) => {
                &&& !is_delta(ini.model())
                &&& number_value(sec_value(ini.model(), "stepper_x"@, "position_max"@)) == Some(b.x_max@)
                &&& number_value(sec_value(ini.model(), "stepper_y"@, "position_max"@)) == Some(b.y_max@)
                &&& text_of(b.x_min) == number_value(sec_value(ini.model(), "stepper_x"@, "position_min"@))
                &&& text_of(b.y_min) == number_value(sec_value(ini.model(), "stepper_y"@, "position_min"@))
                &&& text_of(b.z_min) == number_value(sec_value(ini.model(), "stepper_z"@, "position_min"@))
                &&& text_of(b.z_max) == number_value(sec_value(ini.model(), "stepper_z"@, "position_max"@))
            },
            None => is_delta(ini.model()) || number_value(sec_value(ini.model(), "stepper_x"@, "position_max"@)) is None
                || number_value(sec_value(ini.model(), "stepper_y"@, "position_max"@)) is None,
        },
{
    if delta_kinematics(ini) {
        push_warning(
            ws,
            "machine.build_volume",
            "machine.build_volume skipped for delta/rotary_delta kinematics — add manually",
        );
        return None;
    }
    let x_min = number_only(ini.get("stepper_x", "position_min"));
    let x_max = number_only(ini.get("stepper_x", "position_max"));
    let y_min = number_only(ini.get("stepper_y", "position_min"));
    let y_max = number_only(ini.get("stepper_y", "position_max"));
    let z_min = number_only(ini.get("stepper_z", "position_min"));
    let z_max = number_only(ini.get("stepper_z", "position_max"));
    match (x_max, y_max) {
        (Some(xm), Some(ym)) => {
            push_warning(
                ws,
                "machine.build_volume",
                "machine.build_volume approximated from stepper position limits",
            );
            Some(KlipperBuildVolume { x_min, x_max: xm, y_min, y_max: ym, z_min, z_max })
        },
        _ => {
            assert(warnings_model(old(ws)@) + Seq::<WarningModel>::empty() =~= warnings_model(old(ws)@));
            None
        },
    }
}

/// The `[printer]` values, with their warnings and the one for the omitted feedrate range.
fn printer_part(ini: &IniMap, ws: &mut Vec<KlipperImportWarning>) -> (r: (Option<String>, Option<String>))
    ensures
        warnings_model(final(ws)@) == warnings_model(old(ws)@) + spec_printer_warnings(ini.model()),
        text_of(r.0) == number_value(sec_value(ini.model(), "printer"@, "max_accel"@)),
        text_of(r.1) == number_value(sec_value(ini.model(), "printer"@, "square_corner_velocity"@)),
{
    let max_accel = number_field(
        ini.get("printer", "max_accel"),
        "machine.kinematics.max_acceleration_mm_s2",
        "max_accel",
        None,
        ws,
    );
    let square_corner_velocity = number_field(
        ini.get("printer", "square_corner_velocity"),
        "machine.kinematics.max_junction_velocity_mm_s",
        "square_corner_velocity",
        None,
        ws,
    );
    push_warning(
        ws,
        "machine.feedrate_range",
        "machine.feedrate_range omitted (no Klipper lower-bound source) — add manually",
    );
    assert(warnings_model(final(ws)@) =~= warnings_model(old(ws)@) + spec_printer_warnings(ini.model()));
    (max_accel, square_corner_velocity)
}

/// The `[extruder]` values, with their warnings.
fn extruder_part(ini: &IniMap, ws: &mut Vec<KlipperImportWarning>) -> (r: (Option<String>, Option<String>, Option<String>))
    ensures
        warnings_model(final(ws)@) == warnings_model(old(ws)@) + spec_extruder_warnings(ini.model()),
        text_of(r.0) == number_value(sec_value(ini.model(), "extruder"@, "filament_diameter"@)),
        text_of(r.1) == number_value(sec_value(ini.model(), "extruder"@, "min_extrude_temp"@)),
        text_of(r.2) == number_value(sec_value(ini.model(), "extruder"@, "nozzle_diameter"@)),
{
    if !ini.contains_section("extruder") {
        assert(warnings_model(old(ws)@) + Seq::<WarningModel>::empty() =~= warnings_model(old(ws)@));
        return (None, None, None);
    }
    let filament_diameter = number_field(
        ini.get("extruder", "filament_diameter"),
        "material.filament_diameter",
        "filament_diameter",
        None,
        ws,
    );
    let min_extrude_temp = number_field(
        ini.get("extruder", "min_extrude_temp"),
        "material.min_nozzle_temperature_c",
        "min_extrude_temp",
        None,
        ws,
    );
    let nozzle_diameter = number_field(
        ini.get("extruder", "nozzle_diameter"),
        "process.line_width",
        "nozzle_diameter",
        Some("process.line_width derived from nozzle_diameter — review"),
        ws,
    );
    let pa = ini.get("extruder", "pressure_advance");
    push_warning_if(
        ws,
        pa.is_some(),
        "extruder.pressure_advance",
        "[extruder] pressure_advance ignored — deferred to a future machine-model release",
    );
    assert(warnings_model(final(ws)@) =~= warnings_model(old(ws)@) + spec_extruder_warnings(ini.model()));
    (filament_diameter, min_extrude_temp, nozzle_diameter)
}

/// The `[firmware_retraction]` values, with their warnings.
fn retraction_part(ini: &IniMap, ws: &mut Vec<KlipperImportWarning>) -> (r: (Option<String>, Option<String>))
    ensures
        warnings_model(final(ws)@) == warnings_model(old(ws)@) + spec_retraction_warnings(ini.model()),
        text_of(r.0) == number_value(sec_value(ini.model(), "firmware_retraction"@, "retract_length"@)),
        text_of(r.1) == number_value(sec_value(ini.model(), "firmware_retraction"@, "retract_speed"@)),
{
    if !ini.contains_section("firmware_retraction") {
        assert(warnings_model(old(ws)@) + Seq::<WarningModel>::empty() =~= warnings_model(old(ws)@));
        return (None, None);
    }
    let retract_length = number_field(
        ini.get("firmware_retraction", "retract_length"),
        "process.max_retraction_distance",
        "retract_length",
        Some("process.max_retraction_distance set from firmware_retraction.retract_length — review"),
        ws,
    );
    let retract_speed = number_field(
        ini.get("firmware_retraction", "retract_speed"),
        "process.max_retraction_speed",
        "retract_speed",
        Some(
            "process.max_retraction_speed set from firmware_retraction.retract_speed (×60 mm/s→mm/min) — review",
        ),
        ws,
    );
    assert(warnings_model(final(ws)@) =~= warnings_model(old(ws)@) + spec_retraction_warnings(ini.model()));
    (retract_length, retract_speed)
}

/// The warnings for the sections that are not imported.
fn ignored_part(ini: &IniMap, ws: &mut Vec<KlipperImportWarning>)
    ensures
        warnings_model(final(ws)@) == warnings_model(old(ws)@) + spec_ignored_warnings(ini.model()),
{
    let shaper = ini.contains_section("input_shaper");
    push_warning_if(
        ws,
        shaper,
        "input_shaper",
        "[input_shaper] ignored — deferred to a future machine-model release",
    );
    let has_includes = ini.contains_section("include");
    push_warning_if(ws, has_includes, "include", "[include] not followed");
    push_warning(
        ws,
        "material.max_volumetric_flow_mm3_s",
        "material.max_volumetric_flow_mm3_s not in printer.cfg — add from your hotend calibration (most useful review-gcode safety contract)",
    );
    assert(warnings_model(final(ws)@) =~= warnings_model(old(ws)@) + spec_ignored_warnings(ini.model()));
}

/// Imports a Klipper `printer.cfg`: the numeric values it supplies (each kept as the text that
/// parsed as a number) and a non-fatal warning for every field that was omitted, approximated or
/// needs manual review, in the order `spec_klipper_warnings` gives.
///
/// Fails with `NotKlipper` exactly when the text has no `[printer]` section.
pub fn import_klipper(text: &str) -> (r: Result<(KlipperValues, Vec<KlipperImportWarning>), KlipperImportError>)
    ensures
        r is Err <==> lookup(spec_scan_ini(text@), "printer"@) is None,
        r matches Err(e) ==> e == KlipperImportError::NotKlipper,
        r matches Ok((v, ws)) ==> {
            &&& klipper_values_match(v, spec_scan_ini(text@))
            &&& warnings_model(ws@) == spec_klipper_warnings(spec_scan_ini(text@))
        },
{
    let ini = scan_ini(text);
    if !ini.contains_section("printer") {
        return Err(KlipperImportError::NotKlipper);
    }
    let mut ws: Vec<KlipperImportWarning> = Vec::new();
    let ghost m = ini.model();
    let ghost w0 = warnings_model(ws@);
    let (max_accel, square_corner_velocity) = printer_part(&ini, &mut ws);
    let ghost w1 = warnings_model(ws@);
    let build_volume = build_volume_part(&ini, &mut ws);
    let ghost w2 = warnings_model(ws@);
    let extruders = ini.count_prefixed("extruder");
    push_warning_if(&mut ws, extruders > 1, "extruder", "only the first extruder imported");
    let ghost w3 = warnings_model(ws@);
    let (filament_diameter, min_extrude_temp, nozzle_diameter) = extruder_part(&ini, &mut ws);
    let ghost w4 = warnings_model(ws@);
    let (retract_length, retract_speed) = retraction_part(&ini, &mut ws);
    let ghost w5 = warnings_model(ws@);
    ignored_part(&ini, &mut ws);
    proof {
        assert(w0 =~= Seq::<WarningModel>::empty());
        assert(w3 == w2 + spec_extruder_count_warnings(m));
        assert(warnings_model(ws@) =~= spec_klipper_warnings(m));
    }
    let values = KlipperValues {
        firmware: FirmwareProfile { flavor: Some(string_from_str("klipper")) },
        feedrate_range: None,
        max_accel,
        square_corner_velocity,
        build_volume,
        filament_diameter,
        min_extrude_temp,
        nozzle_diameter,
        retract_length,
        retract_speed,
    };
    Ok((values, ws))
}


/// Law: each imported value is the number the config gives under its own section and key:
/// `[printer] max_accel` and `square_corner_velocity`, `[extruder] filament_diameter`,
/// `min_extrude_temp` and `nozzle_diameter`, `[firmware_retraction] retract_length` and
/// `retract_speed`; a value the config does not give as a number is absent. The firmware is Klipper
/// and no extruding feedrate range is set.
pub proof fn law_each_value_is_read_from_its_own_key(v: KlipperValues, m: Seq<SectionModel>)
    requires
        klipper_values_match(v, m),
    ensures
        v.firmware.flavor matches Some(f) && f@ == "klipper"@,
        v.feedrate_range is None,
        text_of(v.max_accel) == number_value(sec_value(m, "printer"@, "max_accel"@)),
        text_of(v.square_corner_velocity) == number_value(sec_value(m, "printer"@, "square_corner_velocity"@)),
        text_of(v.filament_diameter) == number_value(sec_value(m, "extruder"@, "filament_diameter"@)),
        text_of(v.min_extrude_temp) == number_value(sec_value(m, "extruder"@, "min_extrude_temp"@)),
        text_of(v.nozzle_diameter) == number_value(sec_value(m, "extruder"@, "nozzle_diameter"@)),
        text_of(v.retract_length) == number_value(sec_value(m, "firmware_retraction"@, "retract_length"@)),
        text_of(v.retract_speed) == number_value(sec_value(m, "firmware_retraction"@, "retract_speed"@)),
{
}

/// The `position_{bound}` value of the `[stepper_{axis}]` section, when it is a number.
pub open spec fn stepper_limit(m: Seq<SectionModel>, axis: char, bound: Seq<char>) -> Option<Seq<char>> {
    number_value(sec_value(m, "stepper_"@.push(axis), "position_"@ + bound))
}

/// Law: each of the six limits of an imported build volume is read from its own axis's stepper
/// section and its own bound's key (`[stepper_z] position_min` for the lower Z limit, and so on); a
/// lower limit, or the upper Z limit, that the config does not give is absent (taken as 0).
pub proof fn law_build_volume_reads_each_limit_from_its_own_stepper(v: KlipperValues, m: Seq<SectionModel>)
    requires
        klipper_values_match(v, m),
        v.build_volume is Some,
    ensures
        stepper_limit(m, 'x', "min"@) == text_of(v.build_volume->0.x_min),
        stepper_limit(m, 'x', "max"@) == Some(v.build_volume->0.x_max@),
        stepper_limit(m, 'y', "min"@) == text_of(v.build_volume->0.y_min),
        stepper_limit(m, 'y', "max"@) == Some(v.build_volume->0.y_max@),
        stepper_limit(m, 'z', "min"@) == text_of(v.build_volume->0.z_min),
        stepper_limit(m, 'z', "max"@) == text_of(v.build_volume->0.z_max),
{
    reveal_strlit("stepper_");
    reveal_strlit("position_");
    reveal_strlit("min");
    reveal_strlit("max");
    reveal_strlit("stepper_x");
    reveal_strlit("stepper_y");
    reveal_strlit("stepper_z");
    reveal_strlit("position_min");
    reveal_strlit("position_max");
    assert("stepper_"@.push('x') =~= "stepper_x"@);
    assert("stepper_"@.push('y') =~= "stepper_y"@);
    assert("stepper_"@.push('z') =~= "stepper_z"@);
    assert("position_"@ + "min"@ =~= "position_min"@);
    assert("position_"@ + "max"@ =~= "position_max"@);
}

/// Law: every import warns that the feedrate range and the volumetric flow limit were not filled in,
/// whatever the config holds.
pub proof fn law_import_flags_the_fields_no_config_supplies(m: Seq<SectionModel>)
    ensures
        spec_klipper_warnings(m).contains(
            ("machine.feedrate_range"@, "machine.feedrate_range omitted (no Klipper lower-bound source) — add manually"@),
        ),
        spec_klipper_warnings(m).contains(
            (
                "material.max_volumetric_flow_mm3_s"@,
                "material.max_volumetric_flow_mm3_s not in printer.cfg — add from your hotend calibration (most useful review-gcode safety contract)"@,
            ),
        ),
{
    let p = spec_printer_warnings(m);
    let g = spec_ignored_warnings(m);
    let w = spec_klipper_warnings(m);
    let rest = spec_build_volume_warnings(m) + spec_extruder_count_warnings(m) + spec_extruder_warnings(m)
        + spec_retraction_warnings(m);
    assert(w =~= p + rest + g);
    assert(w[p.len() - 1] == p[p.len() - 1]);
    assert(w[w.len() - 1] == g[g.len() - 1]);
}

} // verus!
