//! ISO 14649 STEP-NC workingstep documents: the line grammar of a workingstep document, from the
//! attributes of a `<workingstep ...>` line to the feature it describes.
//!
//! Numbers are kept as the trimmed texts that were read. Whether a text in number syntax denotes a
//! finite value is a question about its floating-point value, and is answered by the caller: the
//! parse names the first text whose verdict it lacks, and is run again with that verdict added.
use crate::text::{
    chars_of, dec, find_char, find_sub, float_syntax, is_float_text, lemma_find_char_at,
    lemma_first_key_absent, lemma_first_key_at, line_end, lookup,
    next_line_end, occurs_at, push_decimal, push_str, starts_with, str_eq, str_starts_with, string_from_range,
    string_from_str, trim, trim_range,
};
use vstd::prelude::*;

verus! {

/// The value of the attribute `attr` on `line`: the text between `attr="` (its first occurrence)
/// and the next `"`.
#[verifier::opaque]
pub open spec fn spec_extract_attr(line: Seq<char>, attr: Seq<char>) -> Option<Seq<char>> {
    let key = attr + "=\""@;
    match find_sub(line, key) {
        None => None,
        Some(p) => {
            let rem = line.subrange(p + key.len(), line.len() as int);
            match find_char(rem, '"') {
                None => None,
                Some(e) => Some(rem.subrange(0, e)),
            }
        },
    }
}

proof fn lemma_find_sub_first(s: Seq<char>, pat: Seq<char>, i: int)
    requires
        occurs_at(s, pat, i),
        forall|j: int| 0 <= j < i ==> !occurs_at(s, pat, j),
    ensures
        find_sub(s, pat) == Some(i),
{
    let k = choose|k: int| occurs_at(s, pat, k) && forall|j: int| 0 <= j < k ==> !occurs_at(s, pat, j);
    assert(occurs_at(s, pat, k));
    if k < i {
        assert(!occurs_at(s, pat, k));
    }
    if i < k {
        assert(!occurs_at(s, pat, i));
    }
}

/// Whether `pat` occurs in `v` at `i`.
fn occurs_at_exec(v: &Vec<char>, pat: &Vec<char>, i: usize) -> (b: bool)
    requires
        i + pat@.len() <= v@.len(),
    ensures
        b == occurs_at(v@, pat@, i as int),
{
    let n = v.len();
    let mut k: usize = 0;
    while k < pat.len()
        invariant
            n == v@.len(),
            k <= pat@.len(),
            i + pat@.len() <= v@.len(),
            forall|m: int| 0 <= m < k ==> v@[i + m] == pat@[m],
        decreases pat@.len() - k,
    {
        if v[i + k] != pat[k] {
            assert(v@.subrange(i as int, i + pat@.len())[k as int] != pat@[k as int]);
            return false;
        }
        k = k + 1;
    }
    assert(v@.subrange(i as int, i + pat@.len()) =~= pat@);
    true
}

/// Extracts the value of the attribute `attr` from a workingstep line.
pub fn extract_attr(line: &str, attr: &str) -> (r: Option<String>)
    ensures
        match spec_extract_attr(line@, attr@) {
            Some(v) => r matches Some(s) && s@ == v,
            None => r is None,
        },
{
    proof {
        reveal(spec_extract_attr);
    }
    let v = chars_of(line);
    let mut key_text = string_from_str(attr);
    push_str(&mut key_text, "=\"");
    let key = chars_of(key_text.as_str());
    let ghost kv = attr@ + "=\""@;
    assert(key@ == kv);
    if key.len() > v.len() {
        proof {
            assert forall|i: int| !occurs_at(v@, kv, i) by {}
        }
        return None;
    }
    let last = v.len() - key.len();
    let mut p: usize = 0;
    let mut hit: Option<usize> = None;
    let mut done = false;
    while !done
        invariant
            last == v@.len() - key@.len(),
            key@ == kv,
            v@ == line@,
            p <= last,
            forall|j: int| 0 <= j < p ==> !occurs_at(v@, kv, j),
            match hit {
                Some(h) => done && h == p && occurs_at(v@, kv, h as int),
                None => done ==> p == last && !occurs_at(v@, kv, last as int),
            },
        decreases last - p + if done { 0int } else { 1int },
    {
        if occurs_at_exec(&v, &key, p) {
            hit = Some(p);
            done = true;
        } else if p == last {
            done = true;
        } else {
            p = p + 1;
        }
    }
    let pos = match hit {
        Some(h) => h,
        None => {
            proof {
                assert forall|i: int| !occurs_at(v@, kv, i) by {
                    if 0 <= i && i + kv.len() <= v@.len() && i != last {
                        assert(i < p);
                    }
                }
            }
            return None;
        },
    };
    proof {
        lemma_find_sub_first(v@, kv, pos as int);
    }
    let start = pos + key.len();
    let ghost rem = v@.subrange(start as int, v@.len() as int);
    let mut e = start;
    while e < v.len() && v[e] != '"'
        invariant
            start <= e <= v@.len(),
            rem == v@.subrange(start as int, v@.len() as int),
            forall|j: int| start <= j < e ==> v@[j] != '"',
        decreases v@.len() - e,
    {
        e = e + 1;
    }
    proof {
        assert forall|j: int| 0 <= j < e - start implies rem[j] != '"' by {
            assert(rem[j] == v@[start + j]);
        }
        if e < v@.len() {
            assert(rem[e - start] == v@[e as int]);
        }
        lemma_find_char_at(rem, '"', e - start);
    }
    if e == v.len() {
        return None;
    }
    let value = string_from_range(&v, start, e);
    assert(value@ =~= rem.subrange(0, e - start));
    Some(value)
}


// ── the workingstep grammar ──────────────────────────────────────────────────

/// What reading a document gives: a value, a failure with its message, or the trimmed number text
/// whose finiteness must be decided before reading can go on.
#[derive(Debug, Clone, PartialEq)]
pub enum Parsed<T> {
    Value(T),
    Failed(String),
    Needs(String),
}

/// [`Parsed`] over character sequences.
pub enum ParseModel<A> {
    Value(A),
    Failed(Seq<char>),
    Needs(Seq<char>),
}

/// A feature's geometry, each coordinate as the trimmed text of a finite number.
#[derive(Debug, Clone, PartialEq)]
pub enum FeatureText {
    PlanarFace { x: String, y: String, length: String, width: String },
    RoundHole { x: String, y: String, diameter: String, depth: String },
    ClosedPocket { x: String, y: String, length: String, width: String, depth: String },
    /// An omitted start coordinate stands for 0.
    Slot {
        x_start: Option<String>,
        y_start: Option<String>,
        x_end: String,
        y_end: String,
        depth: String,
        width: String,
    },
    /// An omitted peck depth stands for 2.
    PeckHole { x: String, y: String, diameter: String, depth: String, peck_depth: Option<String> },
}

/// One workingstep: its id, tool, feature and process parameters.
#[derive(Debug, Clone, PartialEq)]
pub struct WorkingstepText {
    pub id: String,
    pub tool_id: Option<String>,
    pub feature: FeatureText,
    pub feedrate: Option<String>,
    pub spindle_rpm: Option<String>,
}

/// [`FeatureText`] over character sequences.
pub enum FeatureModel {
    PlanarFace { x: Seq<char>, y: Seq<char>, length: Seq<char>, width: Seq<char> },
    RoundHole { x: Seq<char>, y: Seq<char>, diameter: Seq<char>, depth: Seq<char> },
    ClosedPocket { x: Seq<char>, y: Seq<char>, length: Seq<char>, width: Seq<char>, depth: Seq<char> },
    Slot {
        x_start: Option<Seq<char>>,
        y_start: Option<Seq<char>>,
        x_end: Seq<char>,
        y_end: Seq<char>,
        depth: Seq<char>,
        width: Seq<char>,
    },
    PeckHole {
        x: Seq<char>,
        y: Seq<char>,
        diameter: Seq<char>,
        depth: Seq<char>,
        peck_depth: Option<Seq<char>>,
    },
}

/// [`WorkingstepText`] over character sequences.
pub struct StepModel {
    pub id: Seq<char>,
    pub tool_id: Option<Seq<char>>,
    pub feature: FeatureModel,
    pub feedrate: Option<Seq<char>>,
    pub spindle_rpm: Option<Seq<char>>,
}

pub open spec fn opt_text(o: Option<String>) -> Option<Seq<char>> {
    match o {
        Some(s) => Some(s@),
        None => None,
    }
}

pub open spec fn feature_model(f: FeatureText) -> FeatureModel {
    match f {
        FeatureText::PlanarFace { x, y, length, width } => FeatureModel::PlanarFace {
            x: x@,
            y: y@,
            length: length@,
            width: width@,
        },
        FeatureText::RoundHole { x, y, diameter, depth } => FeatureModel::RoundHole {
            x: x@,
            y: y@,
            diameter: diameter@,
            depth: depth@,
        },
        FeatureText::ClosedPocket { x, y, length, width, depth } => FeatureModel::ClosedPocket {
            x: x@,
            y: y@,
            length: length@,
            width: width@,
            depth: depth@,
        },
        FeatureText::Slot { x_start, y_start, x_end, y_end, depth, width } => FeatureModel::Slot {
            x_start: opt_text(x_start),
            y_start: opt_text(y_start),
            x_end: x_end@,
            y_end: y_end@,
            depth: depth@,
            width: width@,
        },
        FeatureText::PeckHole { x, y, diameter, depth, peck_depth } => FeatureModel::PeckHole {
            x: x@,
            y: y@,
            diameter: diameter@,
            depth: depth@,
            peck_depth: opt_text(peck_depth),
        },
    }
}

pub open spec fn step_model(w: WorkingstepText) -> StepModel {
    StepModel {
        id: w.id@,
        tool_id: opt_text(w.tool_id),
        feature: feature_model(w.feature),
        feedrate: opt_text(w.feedrate),
        spindle_rpm: opt_text(w.spindle_rpm),
    }
}

/// Whether `r` is the outcome `m`, its value seen through `v`.
pub open spec fn parsed_is<T, A>(r: Parsed<T>, m: ParseModel<A>, v: spec_fn(T) -> A) -> bool {
    match r {
        Parsed::Value(a) => m matches ParseModel::Value(b) && v(a) == b,
        Parsed::Failed(e) => m matches ParseModel::Failed(f) && e@ == f,
        Parsed::Needs(t) => m matches ParseModel::Needs(u) && t@ == u,
    }
}

/// The value of a `Value` outcome.
pub open spec fn value_of<A>(m: ParseModel<A>) -> A {
    match m {
        ParseModel::Value(a) => a,
        _ => arbitrary(),
    }
}

/// A stopped outcome (a failure or a need) carried over to another value type.
pub open spec fn halt<A, B>(m: ParseModel<A>) -> ParseModel<B> {
    match m {
        ParseModel::Failed(e) => ParseModel::Failed(e),
        ParseModel::Needs(t) => ParseModel::Needs(t),
        ParseModel::Value(_) => arbitrary(),
    }
}

/// The recorded finiteness verdicts, keyed by the trimmed number text.
pub open spec fn verdicts_model(vs: Seq<(String, bool)>) -> Seq<(Seq<char>, bool)> {
    vs.map_values(|p: (String, bool)| (p.0@, p.1))
}

pub open spec fn not_number_message(id: Seq<char>, attr: Seq<char>, raw: Seq<char>) -> Seq<char> {
    "workingstep '"@ + id + "': attribute "@ + attr + "=\""@ + raw + "\" is not a number"@
}

pub open spec fn not_finite_message(id: Seq<char>, attr: Seq<char>, raw: Seq<char>) -> Seq<char> {
    "workingstep '"@ + id + "': attribute "@ + attr + "=\""@ + raw + "\" is not finite"@
}

pub open spec fn absent_message(id: Seq<char>, feature: Seq<char>, attr: Seq<char>) -> Seq<char> {
    "workingstep '"@ + id + "': a "@ + feature + " requires attribute "@ + attr + ", which is absent"@
}

/// A numeric attribute: absent, or the trimmed text of a finite number; a value that is not in
/// number syntax, or is not finite, fails the workingstep.
#[verifier::opaque]
pub open spec fn spec_read_num(l: Seq<char>, attr: Seq<char>, id: Seq<char>, vs: Seq<(Seq<char>, bool)>) -> ParseModel<Option<Seq<char>>> {
    match spec_extract_attr(l, attr) {
        None => ParseModel::Value(None),
        Some(raw) => {
            let t = trim(raw);
            if !float_syntax(t) {
                ParseModel::Failed(not_number_message(id, attr, raw))
            } else {
                match lookup(vs, t) {
                    None => ParseModel::Needs(t),
                    Some(finite) => if finite {
                        ParseModel::Value(Some(t))
                    } else {
                        ParseModel::Failed(not_finite_message(id, attr, raw))
                    },
                }
            }
        },
    }
}

/// A numeric attribute the feature cannot be placed without.
#[verifier::opaque]
pub open spec fn spec_require_num(l: Seq<char>, attr: Seq<char>, id: Seq<char>, feature: Seq<char>, vs: Seq<(Seq<char>, bool)>) -> ParseModel<Seq<char>> {
    match spec_read_num(l, attr, id, vs) {
        ParseModel::Value(o) => match o {
            Some(t) => ParseModel::Value(t),
            None => ParseModel::Failed(absent_message(id, feature, attr)),
        },
        ParseModel::Failed(e) => ParseModel::Failed(e),
        ParseModel::Needs(t) => ParseModel::Needs(t),
    }
}

/// An optional attribute `a` with the alternative spelling `b`: a failure of `a` fails, while `b` is
/// only consulted when `a` is absent and a failure of `b` counts as absence.
#[verifier::opaque]
pub open spec fn spec_read_either(l: Seq<char>, a: Seq<char>, b: Seq<char>, id: Seq<char>, vs: Seq<(Seq<char>, bool)>) -> ParseModel<Option<Seq<char>>> {
    match spec_read_num(l, a, id, vs) {
        ParseModel::Value(o) => match o {
            Some(t) => ParseModel::Value(Some(t)),
            None => match spec_read_num(l, b, id, vs) {
                ParseModel::Value(o2) => ParseModel::Value(o2),
                ParseModel::Failed(_) => ParseModel::Value(None),
                ParseModel::Needs(t) => ParseModel::Needs(t),
            },
        },
        ParseModel::Failed(e) => ParseModel::Failed(e),
        ParseModel::Needs(t) => ParseModel::Needs(t),
    }
}

/// A required attribute `a` with the alternative spelling `b`, tried when `a` fails.
#[verifier::opaque]
pub open spec fn spec_require_either(l: Seq<char>, a: Seq<char>, b: Seq<char>, id: Seq<char>, feature: Seq<char>, vs: Seq<(Seq<char>, bool)>) -> ParseModel<Seq<char>> {
    match spec_require_num(l, a, id, feature, vs) {
        ParseModel::Failed(_) => spec_require_num(l, b, id, feature, vs),
        other => other,
    }
}

#[verifier::opaque]
pub open spec fn spec_hole(l: Seq<char>, id: Seq<char>, vs: Seq<(Seq<char>, bool)>) -> ParseModel<FeatureModel> {
    let x = spec_require_num(l, "x"@, id, "hole"@, vs);
    let y = spec_require_num(l, "y"@, id, "hole"@, vs);
    let d = spec_require_num(l, "diameter"@, id, "hole"@, vs);
    let z = spec_require_num(l, "depth"@, id, "hole"@, vs);
    if !(x is Value) {
        halt(x)
    } else if !(y is Value) {
        halt(y)
    } else if !(d is Value) {
        halt(d)
    } else if !(z is Value) {
        halt(z)
    } else {
        ParseModel::Value(FeatureModel::RoundHole { x: value_of(x), y: value_of(y), diameter: value_of(d), depth: value_of(z) })
    }
}

#[verifier::opaque]
pub open spec fn spec_peck_hole(l: Seq<char>, id: Seq<char>, vs: Seq<(Seq<char>, bool)>) -> ParseModel<FeatureModel> {
    let x = spec_require_num(l, "x"@, id, "peck_hole"@, vs);
    let y = spec_require_num(l, "y"@, id, "peck_hole"@, vs);
    let d = spec_require_num(l, "diameter"@, id, "peck_hole"@, vs);
    let z = spec_require_num(l, "depth"@, id, "peck_hole"@, vs);
    let p = spec_read_either(l, "peck"@, "q"@, id, vs);
    if !(x is Value) {
        halt(x)
    } else if !(y is Value) {
        halt(y)
    } else if !(d is Value) {
        halt(d)
    } else if !(z is Value) {
        halt(z)
    } else if !(p is Value) {
        halt(p)
    } else {
        ParseModel::Value(FeatureModel::PeckHole { x: value_of(x), y: value_of(y), diameter: value_of(d), depth: value_of(z), peck_depth: value_of(p) })
    }
}

#[verifier::opaque]
pub open spec fn spec_slot(l: Seq<char>, id: Seq<char>, vs: Seq<(Seq<char>, bool)>) -> ParseModel<FeatureModel> {
    let xs = spec_read_either(l, "x_start"@, "x1"@, id, vs);
    let ys = spec_read_either(l, "y_start"@, "y1"@, id, vs);
    let xe = spec_require_either(l, "x_end"@, "x2"@, id, "slot"@, vs);
    let ye = spec_require_either(l, "y_end"@, "y2"@, id, "slot"@, vs);
    let z = spec_require_num(l, "depth"@, id, "slot"@, vs);
    let w = spec_require_num(l, "width"@, id, "slot"@, vs);
    if !(xs is Value) {
        halt(xs)
    } else if !(ys is Value) {
        halt(ys)
    } else if !(xe is Value) {
        halt(xe)
    } else if !(ye is Value) {
        halt(ye)
    } else if !(z is Value) {
        halt(z)
    } else if !(w is Value) {
        halt(w)
    } else {
        ParseModel::Value(FeatureModel::Slot { x_start: value_of(xs), y_start: value_of(ys), x_end: value_of(xe), y_end: value_of(ye), depth: value_of(z), width: value_of(w) })
    }
}

#[verifier::opaque]
pub open spec fn spec_pocket(l: Seq<char>, id: Seq<char>, vs: Seq<(Seq<char>, bool)>) -> ParseModel<FeatureModel> {
    let x = spec_require_num(l, "x"@, id, "pocket"@, vs);
    let y = spec_require_num(l, "y"@, id, "pocket"@, vs);
    let len = spec_require_num(l, "length"@, id, "pocket"@, vs);
    let w = spec_require_num(l, "width"@, id, "pocket"@, vs);
    let z = spec_require_num(l, "depth"@, id, "pocket"@, vs);
    if !(x is Value) {
        halt(x)
    } else if !(y is Value) {
        halt(y)
    } else if !(len is Value) {
        halt(len)
    } else if !(w is Value) {
        halt(w)
    } else if !(z is Value) {
        halt(z)
    } else {
        ParseModel::Value(FeatureModel::ClosedPocket { x: value_of(x), y: value_of(y), length: value_of(len), width: value_of(w), depth: value_of(z) })
    }
}

#[verifier::opaque]
pub open spec fn spec_face(l: Seq<char>, id: Seq<char>, vs: Seq<(Seq<char>, bool)>) -> ParseModel<FeatureModel> {
    let x = spec_require_num(l, "x"@, id, "face"@, vs);
    let y = spec_require_num(l, "y"@, id, "face"@, vs);
    let len = spec_require_num(l, "length"@, id, "face"@, vs);
    let w = spec_require_num(l, "width"@, id, "face"@, vs);
    if !(x is Value) {
        halt(x)
    } else if !(y is Value) {
        halt(y)
    } else if !(len is Value) {
        halt(len)
    } else if !(w is Value) {
        halt(w)
    } else {
        ParseModel::Value(FeatureModel::PlanarFace { x: value_of(x), y: value_of(y), length: value_of(len), width: value_of(w) })
    }
}

/// The feature a workingstep line of type `kind` describes: `hole`/`drilling`,
/// `peck_hole`/`peck_drilling`, `slot`/`groove`, `pocket`, and a planar face for any other type.
#[verifier::opaque]
pub open spec fn spec_feature(l: Seq<char>, kind: Seq<char>, id: Seq<char>, vs: Seq<(Seq<char>, bool)>) -> ParseModel<FeatureModel> {
    if kind == "hole"@ || kind == "drilling"@ {
        spec_hole(l, id, vs)
    } else if kind == "peck_hole"@ || kind == "peck_drilling"@ {
        spec_peck_hole(l, id, vs)
    } else if kind == "slot"@ || kind == "groove"@ {
        spec_slot(l, id, vs)
    } else if kind == "pocket"@ {
        spec_pocket(l, id, vs)
    } else {
        spec_face(l, id, vs)
    }
}

/// The id of the workingstep on line `l`, the `n`-th one read (from 0): its `id` attribute, or
/// `ws-{n+1}`.
pub open spec fn spec_step_id(l: Seq<char>, n: nat) -> Seq<char> {
    match spec_extract_attr(l, "id"@) {
        Some(s) => s,
        None => "ws-"@ + dec(n + 1),
    }
}

/// The workingstep on the (trimmed) line `l`, the `n`-th one read: `feed` and `rpm` are read
/// first, then the feature's geometry in its fields' order.
#[verifier::opaque]
pub open spec fn spec_step(l: Seq<char>, n: nat, vs: Seq<(Seq<char>, bool)>) -> ParseModel<StepModel> {
    let id = spec_step_id(l, n);
    let kind = match spec_extract_attr(l, "type"@) {
        Some(s) => s,
        None => Seq::empty(),
    };
    let feed = spec_read_num(l, "feed"@, id, vs);
    let rpm = spec_read_num(l, "rpm"@, id, vs);
    let f = spec_feature(l, kind, id, vs);
    if !(feed is Value) {
        halt(feed)
    } else if !(rpm is Value) {
        halt(rpm)
    } else if !(f is Value) {
        halt(f)
    } else {
        ParseModel::Value(StepModel {
            id,
            tool_id: spec_extract_attr(l, "tool"@),
            feature: value_of(f),
            feedrate: value_of(feed),
            spindle_rpm: value_of(rpm),
        })
    }
}

/// Whether a trimmed line opens a workingstep.
pub open spec fn is_step_line(l: Seq<char>) -> bool {
    starts_with(l, "<workingstep "@) || starts_with(l, "<workingstep>"@)
}

/// The workingsteps of the lines of `t` from `pos` on, after the workingsteps `acc`.
pub open spec fn steps_from(t: Seq<char>, pos: int, acc: Seq<StepModel>, vs: Seq<(Seq<char>, bool)>) -> ParseModel<Seq<StepModel>>
    decreases t.len() - pos,
{
    if pos < 0 || pos > t.len() {
        ParseModel::Value(acc)
    } else {
        let e = line_end(t, pos);
        let l = trim(t.subrange(pos, e));
        let st = spec_step(l, acc.len(), vs);
        if is_step_line(l) && !(st is Value) {
            halt(st)
        } else {
            let acc2 = if is_step_line(l) {
                acc.push(value_of(st))
            } else {
                acc
            };
            if e >= t.len() {
                ParseModel::Value(acc2)
            } else {
                proof {
                    crate::text::lemma_line_end(t, pos);
                }
                steps_from(t, e + 1, acc2, vs)
            }
        }
    }
}

/// The workingsteps of a STEP-NC document in its line form: the document is trimmed, an empty one
/// fails, every line that opens a workingstep (trimmed) is read in order, and a document without
/// any fails.
pub open spec fn spec_parse_step_nc(text: Seq<char>, vs: Seq<(Seq<char>, bool)>) -> ParseModel<Seq<StepModel>> {
    let t = trim(text);
    if t.len() == 0 {
        ParseModel::Failed("empty STEP-NC document"@)
    } else {
        match steps_from(t, 0, Seq::empty(), vs) {
            ParseModel::Value(steps) => if steps.len() == 0 {
                ParseModel::Failed("no valid workingsteps found in document"@)
            } else {
                ParseModel::Value(steps)
            },
            other => other,
        }
    }
}


/// The verdict recorded for `t` (the first one), if any.
fn verdict_for(vs: &Vec<(String, bool)>, t: &str) -> (r: Option<bool>)
    ensures
        r == lookup(verdicts_model(vs@), t@),
{
    let ghost m = verdicts_model(vs@);
    let mut i: usize = 0;
    while i < vs.len()
        invariant
            i <= vs@.len(),
            m == verdicts_model(vs@),
            forall|j: int| 0 <= j < i ==> m[j].0 != t@,
        decreases vs@.len() - i,
    {
        assert(m[i as int] == (vs@[i as int].0@, vs@[i as int].1));
        if str_eq(vs[i].0.as_str(), t) {
            proof {
                lemma_first_key_at(m, t@, i as int);
            }
            return Some(vs[i].1);
        }
        i = i + 1;
    }
    proof {
        lemma_first_key_absent(m, t@);
    }
    None
}

/// `workingstep '{id}': attribute {attr}="{raw}` followed by `tail`.
fn attr_message(id: &str, attr: &str, raw: &str, tail: &str) -> (s: String)
    ensures
        s@ == "workingstep '"@ + id@ + "': attribute "@ + attr@ + "=\""@ + raw@ + tail@,
{
    let mut s = string_from_str("workingstep '");
    push_str(&mut s, id);
    push_str(&mut s, "': attribute ");
    push_str(&mut s, attr);
    push_str(&mut s, "=\"");
    push_str(&mut s, raw);
    push_str(&mut s, tail);
    s
}

fn read_num(l: &str, attr: &str, id: &str, vs: &Vec<(String, bool)>) -> (r: Parsed<Option<String>>)
    ensures
        parsed_is(r, spec_read_num(l@, attr@, id@, verdicts_model(vs@)), |o: Option<String>| opt_text(o)),
{
    proof {
        reveal(spec_read_num);
    }
    match extract_attr(l, attr) {
        None => Parsed::Value(None),
        Some(raw) => {
            let rv = chars_of(raw.as_str());
            let (a, b) = trim_range(&rv, 0, rv.len());
            assert(rv@.subrange(0, rv@.len() as int) =~= rv@);
            let t = string_from_range(&rv, a, b);
            if !is_float_text(t.as_str()) {
                Parsed::Failed(attr_message(id, attr, raw.as_str(), "\" is not a number"))
            } else {
                match verdict_for(vs, t.as_str()) {
                    None => Parsed::Needs(t),
                    Some(finite) => if finite {
                        Parsed::Value(Some(t))
                    } else {
                        Parsed::Failed(attr_message(id, attr, raw.as_str(), "\" is not finite"))
                    },
                }
            }
        },
    }
}

fn require_num(l: &str, attr: &str, id: &str, feature: &str, vs: &Vec<(String, bool)>) -> (r: Parsed<String>)
    ensures
        parsed_is(r, spec_require_num(l@, attr@, id@, feature@, verdicts_model(vs@)), |t: String| t@),
{
    proof {
        reveal(spec_require_num);
    }
    match read_num(l, attr, id, vs) {
        Parsed::Value(o) => match o {
            Some(t) => Parsed::Value(t),
            None => {
                let mut s = string_from_str("workingstep '");
                push_str(&mut s, id);
                push_str(&mut s, "': a ");
                push_str(&mut s, feature);
                push_str(&mut s, " requires attribute ");
                push_str(&mut s, attr);
                push_str(&mut s, ", which is absent");
                Parsed::Failed(s)
            },
        },
        Parsed::Failed(e) => Parsed::Failed(e),
        Parsed::Needs(t) => Parsed::Needs(t),
    }
}

fn read_either(l: &str, a: &str, b: &str, id: &str, vs: &Vec<(String, bool)>) -> (r: Parsed<Option<String>>)
    ensures
        parsed_is(r, spec_read_either(l@, a@, b@, id@, verdicts_model(vs@)), |o: Option<String>| opt_text(o)),
{
    proof {
        reveal(spec_read_either);
    }
    match read_num(l, a, id, vs) {
        Parsed::Value(o) => match o {
            Some(t) => Parsed::Value(Some(t)),
            None => match read_num(l, b, id, vs) {
                Parsed::Value(o2) => Parsed::Value(o2),
                Parsed::Failed(_) => Parsed::Value(None),
                Parsed::Needs(t) => Parsed::Needs(t),
            },
        },
        Parsed::Failed(e) => Parsed::Failed(e),
        Parsed::Needs(t) => Parsed::Needs(t),
    }
}

fn require_either(l: &str, a: &str, b: &str, id: &str, feature: &str, vs: &Vec<(String, bool)>) -> (r: Parsed<String>)
    ensures
        parsed_is(r, spec_require_either(l@, a@, b@, id@, feature@, verdicts_model(vs@)), |t: String| t@),
{
    proof {
        reveal(spec_require_either);
    }
    match require_num(l, a, id, feature, vs) {
        Parsed::Failed(_) => require_num(l, b, id, feature, vs),
        other => other,
    }
}

fn hole(l: &str, id: &str, vs: &Vec<(String, bool)>) -> (r: Parsed<FeatureText>)
    ensures
        parsed_is(r, spec_hole(l@, id@, verdicts_model(vs@)), |f: FeatureText| feature_model(f)),
{
    proof {
        reveal(spec_hole);
    }
    let x = match require_num(l, "x", id, "hole", vs) {
        Parsed::Value(v) => v,
        Parsed::Failed(e) => return Parsed::Failed(e),
        Parsed::Needs(t) => return Parsed::Needs(t),
    };
    let y = match require_num(l, "y", id, "hole", vs) {
        Parsed::Value(v) => v,
        Parsed::Failed(e) => return Parsed::Failed(e),
        Parsed::Needs(t) => return Parsed::Needs(t),
    };
    let diameter = match require_num(l, "diameter", id, "hole", vs) {
        Parsed::Value(v) => v,
        Parsed::Failed(e) => return Parsed::Failed(e),
        Parsed::Needs(t) => return Parsed::Needs(t),
    };
    let depth = match require_num(l, "depth", id, "hole", vs) {
        Parsed::Value(v) => v,
        Parsed::Failed(e) => return Parsed::Failed(e),
        Parsed::Needs(t) => return Parsed::Needs(t),
    };
    Parsed::Value(FeatureText::RoundHole { x, y, diameter, depth })
}

fn peck_hole(l: &str, id: &str, vs: &Vec<(String, bool)>) -> (r: Parsed<FeatureText>)
    ensures
        parsed_is(r, spec_peck_hole(l@, id@, verdicts_model(vs@)), |f: FeatureText| feature_model(f)),
{
    proof {
        reveal(spec_peck_hole);
    }
    let x = match require_num(l, "x", id, "peck_hole", vs) {
        Parsed::Value(v) => v,
        Parsed::Failed(e) => return Parsed::Failed(e),
        Parsed::Needs(t) => return Parsed::Needs(t),
    };
    let y = match require_num(l, "y", id, "peck_hole", vs) {
        Parsed::Value(v) => v,
        Parsed::Failed(e) => return Parsed::Failed(e),
        Parsed::Needs(t) => return Parsed::Needs(t),
    };
    let diameter = match require_num(l, "diameter", id, "peck_hole", vs) {
        Parsed::Value(v) => v,
        Parsed::Failed(e) => return Parsed::Failed(e),
        Parsed::Needs(t) => return Parsed::Needs(t),
    };
    let depth = match require_num(l, "depth", id, "peck_hole", vs) {
        Parsed::Value(v) => v,
        Parsed::Failed(e) => return Parsed::Failed(e),
        Parsed::Needs(t) => return Parsed::Needs(t),
    };
    let peck_depth = match read_either(l, "peck", "q", id, vs) {
        Parsed::Value(v) => v,
        Parsed::Failed(e) => return Parsed::Failed(e),
        Parsed::Needs(t) => return Parsed::Needs(t),
    };
    Parsed::Value(FeatureText::PeckHole { x, y, diameter, depth, peck_depth })
}

fn slot(l: &str, id: &str, vs: &Vec<(String, bool)>) -> (r: Parsed<FeatureText>)
    ensures
        parsed_is(r, spec_slot(l@, id@, verdicts_model(vs@)), |f: FeatureText| feature_model(f)),
{
    proof {
        reveal(spec_slot);
    }
    let x_start = match read_either(l, "x_start", "x1", id, vs) {
        Parsed::Value(v) => v,
        Parsed::Failed(e) => return Parsed::Failed(e),
        Parsed::Needs(t) => return Parsed::Needs(t),
    };
    let y_start = match read_either(l, "y_start", "y1", id, vs) {
        Parsed::Value(v) => v,
        Parsed::Failed(e) => return Parsed::Failed(e),
        Parsed::Needs(t) => return Parsed::Needs(t),
    };
    let x_end = match require_either(l, "x_end", "x2", id, "slot", vs) {
        Parsed::Value(v) => v,
        Parsed::Failed(e) => return Parsed::Failed(e),
        Parsed::Needs(t) => return Parsed::Needs(t),
    };
    let y_end = match require_either(l, "y_end", "y2", id, "slot", vs) {
        Parsed::Value(v) => v,
        Parsed::Failed(e) => return Parsed::Failed(e),
        Parsed::Needs(t) => return Parsed::Needs(t),
    };
    let depth = match require_num(l, "depth", id, "slot", vs) {
        Parsed::Value(v) => v,
        Parsed::Failed(e) => return Parsed::Failed(e),
        Parsed::Needs(t) => return Parsed::Needs(t),
    };
    let width = match require_num(l, "width", id, "slot", vs) {
        Parsed::Value(v) => v,
        Parsed::Failed(e) => return Parsed::Failed(e),
        Parsed::Needs(t) => return Parsed::Needs(t),
    };
    Parsed::Value(FeatureText::Slot { x_start, y_start, x_end, y_end, depth, width })
}

fn pocket(l: &str, id: &str, vs: &Vec<(String, bool)>) -> (r: Parsed<FeatureText>)
    ensures
        parsed_is(r, spec_pocket(l@, id@, verdicts_model(vs@)), |f: FeatureText| feature_model(f)),
{
    proof {
        reveal(spec_pocket);
    }
    let x = match require_num(l, "x", id, "pocket", vs) {
        Parsed::Value(v) => v,
        Parsed::Failed(e) => return Parsed::Failed(e),
        Parsed::Needs(t) => return Parsed::Needs(t),
    };
    let y = match require_num(l, "y", id, "pocket", vs) {
        Parsed::Value(v) => v,
        Parsed::Failed(e) => return Parsed::Failed(e),
        Parsed::Needs(t) => return Parsed::Needs(t),
    };
    let length = match require_num(l, "length", id, "pocket", vs) {
        Parsed::Value(v) => v,
        Parsed::Failed(e) => return Parsed::Failed(e),
        Parsed::Needs(t) => return Parsed::Needs(t),
    };
    let width = match require_num(l, "width", id, "pocket", vs) {
        Parsed::Value(v) => v,
        Parsed::Failed(e) => return Parsed::Failed(e),
        Parsed::Needs(t) => return Parsed::Needs(t),
    };
    let depth = match require_num(l, "depth", id, "pocket", vs) {
        Parsed::Value(v) => v,
        Parsed::Failed(e) => return Parsed::Failed(e),
        Parsed::Needs(t) => return Parsed::Needs(t),
    };
    Parsed::Value(FeatureText::ClosedPocket { x, y, length, width, depth })
}

fn face(l: &str, id: &str, vs: &Vec<(String, bool)>) -> (r: Parsed<FeatureText>)
    ensures
        parsed_is(r, spec_face(l@, id@, verdicts_model(vs@)), |f: FeatureText| feature_model(f)),
{
    proof {
        reveal(spec_face);
    }
    let x = match require_num(l, "x", id, "face", vs) {
        Parsed::Value(v) => v,
        Parsed::Failed(e) => return Parsed::Failed(e),
        Parsed::Needs(t) => return Parsed::Needs(t),
    };
    let y = match require_num(l, "y", id, "face", vs) {
        Parsed::Value(v) => v,
        Parsed::Failed(e) => return Parsed::Failed(e),
        Parsed::Needs(t) => return Parsed::Needs(t),
    };
    let length = match require_num(l, "length", id, "face", vs) {
        Parsed::Value(v) => v,
        Parsed::Failed(e) => return Parsed::Failed(e),
        Parsed::Needs(t) => return Parsed::Needs(t),
    };
    let width = match require_num(l, "width", id, "face", vs) {
        Parsed::Value(v) => v,
        Parsed::Failed(e) => return Parsed::Failed(e),
        Parsed::Needs(t) => return Parsed::Needs(t),
    };
    Parsed::Value(FeatureText::PlanarFace { x, y, length, width })
}

fn feature(l: &str, kind: &str, id: &str, vs: &Vec<(String, bool)>) -> (r: Parsed<FeatureText>)
    ensures
        parsed_is(r, spec_feature(l@, kind@, id@, verdicts_model(vs@)), |f: FeatureText| feature_model(f)),
{
    proof {
        reveal(spec_feature);
    }
    if str_eq(kind, "hole") || str_eq(kind, "drilling") {
        hole(l, id, vs)
    } else if str_eq(kind, "peck_hole") || str_eq(kind, "peck_drilling") {
        peck_hole(l, id, vs)
    } else if str_eq(kind, "slot") || str_eq(kind, "groove") {
        slot(l, id, vs)
    } else if str_eq(kind, "pocket") {
        pocket(l, id, vs)
    } else {
        face(l, id, vs)
    }
}

/// The workingstep on the trimmed line `l`, the `n`-th one read.
fn step(l: &str, n: usize, vs: &Vec<(String, bool)>) -> (r: Parsed<WorkingstepText>)
    requires
        n < usize::MAX,
    ensures
        parsed_is(r, spec_step(l@, n as nat, verdicts_model(vs@)), |w: WorkingstepText| step_model(w)),
{
    proof {
        reveal(spec_step);
    }
    let id = match extract_attr(l, "id") {
        Some(s) => s,
        None => {
            let mut s = string_from_str("ws-");
            push_decimal(&mut s, (n + 1) as u64);
            s
        },
    };
    assert(id@ == spec_step_id(l@, n as nat));
    let kind = match extract_attr(l, "type") {
        Some(s) => s,
        None => String::new(),
    };
    let feedrate = match read_num(l, "feed", id.as_str(), vs) {
        Parsed::Value(v) => v,
        Parsed::Failed(e) => return Parsed::Failed(e),
        Parsed::Needs(t) => return Parsed::Needs(t),
    };
    let spindle_rpm = match read_num(l, "rpm", id.as_str(), vs) {
        Parsed::Value(v) => v,
        Parsed::Failed(e) => return Parsed::Failed(e),
        Parsed::Needs(t) => return Parsed::Needs(t),
    };
    let feature = match feature(l, kind.as_str(), id.as_str(), vs) {
        Parsed::Value(v) => v,
        Parsed::Failed(e) => return Parsed::Failed(e),
        Parsed::Needs(t) => return Parsed::Needs(t),
    };
    let tool_id = extract_attr(l, "tool");
    Parsed::Value(WorkingstepText { id, tool_id, feature, feedrate, spindle_rpm })
}

/// The workingsteps as character sequences.
pub open spec fn steps_model(ws: Seq<WorkingstepText>) -> Seq<StepModel> {
    ws.map_values(|w: WorkingstepText| step_model(w))
}

/// Parses the line form of a STEP-NC document (see `spec_parse_step_nc`), with the finiteness
/// verdicts known so far: `Needs(t)` asks for the verdict on the number text `t` (whether it
/// denotes a finite value), after which the parse is run again with it added to `verdicts`.
pub fn parse_step_nc(text: &str, verdicts: &Vec<(String, bool)>) -> (r: Parsed<Vec<WorkingstepText>>)
    ensures
        parsed_is(r, spec_parse_step_nc(text@, verdicts_model(verdicts@)), |ws: Vec<WorkingstepText>| steps_model(ws@)),
{
    let ghost vsm = verdicts_model(verdicts@);
    let tv = chars_of(text);
    let (lo, hi) = trim_range(&tv, 0, tv.len());
    assert(tv@.subrange(0, tv@.len() as int) =~= tv@);
    if lo == hi {
        return Parsed::Failed(string_from_str("empty STEP-NC document"));
    }
    let trimmed = string_from_range(&tv, lo, hi);
    let t = chars_of(trimmed.as_str());
    let ghost whole = steps_from(t@, 0, Seq::empty(), vsm);
    let mut steps: Vec<WorkingstepText> = Vec::new();
    assert(steps_model(steps@) =~= Seq::<StepModel>::empty());
    let mut pos: usize = 0;
    let mut done = false;
    while !done
        invariant
            t@ == trim(text@),
            t@.len() > 0,
            vsm == verdicts_model(verdicts@),
            whole == steps_from(t@, 0, Seq::empty(), vsm),
            pos <= t@.len(),
            !done ==> steps@.len() <= pos,
            steps@.len() <= t@.len(),
            !done ==> whole == steps_from(t@, pos as int, steps_model(steps@), vsm),
            done ==> whole == ParseModel::Value(steps_model(steps@)),
        decreases (if done { 0int } else { t@.len() + 1 - pos }),
    {
        let ghost acc = steps_model(steps@);
        assert(acc.len() == steps@.len());
        let e = next_line_end(&t, pos);
        let (a, b) = trim_range(&t, pos, e);
        let line = string_from_range(&t, a, b);
        let ghost l = line@;
        assert(l == trim(t@.subrange(pos as int, e as int)));
        let opens = str_starts_with(line.as_str(), "<workingstep ") || str_starts_with(line.as_str(), "<workingstep>");
        assert(opens == is_step_line(l));
        if opens {
            proof {
                reveal_strlit("<workingstep ");
                reveal_strlit("<workingstep>");
            }
            assert(l.len() >= 13);
            assert(pos + 13 <= e);
            match step(line.as_str(), steps.len(), verdicts) {
                Parsed::Value(w) => {
                    steps.push(w);
                    assert(steps_model(steps@) =~= acc.push(step_model(w)));
                },
                Parsed::Failed(m) => {
                    assert(whole == halt::<StepModel, Seq<StepModel>>(spec_step(l, acc.len(), vsm)));
                    return Parsed::Failed(m);
                },
                Parsed::Needs(x) => {
                    assert(whole == halt::<StepModel, Seq<StepModel>>(spec_step(l, acc.len(), vsm)));
                    return Parsed::Needs(x);
                },
            }
        }
        if e == t.len() {
            done = true;
        } else {
            pos = e + 1;
        }
    }
    if steps.len() == 0 {
        Parsed::Failed(string_from_str("no valid workingsteps found in document"))
    } else {
        Parsed::Value(steps)
    }
}


// ── what a successful read guarantees ────────────────────────────────────────

/// A number text that is in number syntax and was judged finite.
pub open spec fn finite_text(t: Seq<char>, vs: Seq<(Seq<char>, bool)>) -> bool {
    float_syntax(t) && lookup(vs, t) == Some(true)
}

pub open spec fn finite_opt(o: Option<Seq<char>>, vs: Seq<(Seq<char>, bool)>) -> bool {
    match o {
        Some(t) => finite_text(t, vs),
        None => true,
    }
}

/// Every number of the feature is a finite number text.
pub open spec fn feature_numbers_finite(f: FeatureModel, vs: Seq<(Seq<char>, bool)>) -> bool {
    match f {
        FeatureModel::PlanarFace { x, y, length, width } => finite_text(x, vs) && finite_text(y, vs)
            && finite_text(length, vs) && finite_text(width, vs),
        FeatureModel::RoundHole { x, y, diameter, depth } => finite_text(x, vs) && finite_text(y, vs)
            && finite_text(diameter, vs) && finite_text(depth, vs),
        FeatureModel::ClosedPocket { x, y, length, width, depth } => finite_text(x, vs) && finite_text(
            y,
            vs,
        ) && finite_text(length, vs) && finite_text(width, vs) && finite_text(depth, vs),
        FeatureModel::Slot { x_start, y_start, x_end, y_end, depth, width } => finite_opt(x_start, vs)
            && finite_opt(y_start, vs) && finite_text(x_end, vs) && finite_text(y_end, vs)
            && finite_text(depth, vs) && finite_text(width, vs),
        FeatureModel::PeckHole { x, y, diameter, depth, peck_depth } => finite_text(x, vs)
            && finite_text(y, vs) && finite_text(diameter, vs) && finite_text(depth, vs) && finite_opt(
            peck_depth,
            vs,
        ),
    }
}

/// Every number of the workingstep is a finite number text.
pub open spec fn step_numbers_finite(s: StepModel, vs: Seq<(Seq<char>, bool)>) -> bool {
    finite_opt(s.feedrate, vs) && finite_opt(s.spindle_rpm, vs) && feature_numbers_finite(s.feature, vs)
}

proof fn lemma_read_finite(l: Seq<char>, attr: Seq<char>, id: Seq<char>, vs: Seq<(Seq<char>, bool)>)
    ensures
        spec_read_num(l, attr, id, vs) is Value ==> finite_opt(value_of(spec_read_num(l, attr, id, vs)), vs),
{
    reveal(spec_read_num);
}

proof fn lemma_require_finite(l: Seq<char>, attr: Seq<char>, id: Seq<char>, f: Seq<char>, vs: Seq<(Seq<char>, bool)>)
    ensures
        spec_require_num(l, attr, id, f, vs) is Value ==> finite_text(value_of(spec_require_num(l, attr, id, f, vs)), vs),
{
    reveal(spec_require_num);
    lemma_read_finite(l, attr, id, vs);
}

proof fn lemma_either_finite(l: Seq<char>, a: Seq<char>, b: Seq<char>, id: Seq<char>, f: Seq<char>, vs: Seq<(Seq<char>, bool)>)
    ensures
        spec_read_either(l, a, b, id, vs) is Value ==> finite_opt(value_of(spec_read_either(l, a, b, id, vs)), vs),
        spec_require_either(l, a, b, id, f, vs) is Value ==> finite_text(value_of(spec_require_either(l, a, b, id, f, vs)), vs),
{
    reveal(spec_read_either);
    reveal(spec_require_either);
    lemma_read_finite(l, a, id, vs);
    lemma_read_finite(l, b, id, vs);
    lemma_require_finite(l, a, id, f, vs);
    lemma_require_finite(l, b, id, f, vs);
}

proof fn lemma_feature_finite(l: Seq<char>, kind: Seq<char>, id: Seq<char>, vs: Seq<(Seq<char>, bool)>)
    ensures
        spec_feature(l, kind, id, vs) is Value ==> feature_numbers_finite(value_of(spec_feature(l, kind, id, vs)), vs),
{
    reveal(spec_feature);
    reveal(spec_hole);
    reveal(spec_peck_hole);
    reveal(spec_slot);
    reveal(spec_pocket);
    reveal(spec_face);
    lemma_require_finite(l, "x"@, id, "hole"@, vs);
    lemma_require_finite(l, "y"@, id, "hole"@, vs);
    lemma_require_finite(l, "diameter"@, id, "hole"@, vs);
    lemma_require_finite(l, "depth"@, id, "hole"@, vs);
    lemma_require_finite(l, "x"@, id, "peck_hole"@, vs);
    lemma_require_finite(l, "y"@, id, "peck_hole"@, vs);
    lemma_require_finite(l, "diameter"@, id, "peck_hole"@, vs);
    lemma_require_finite(l, "depth"@, id, "peck_hole"@, vs);
    lemma_either_finite(l, "peck"@, "q"@, id, "peck_hole"@, vs);
    lemma_either_finite(l, "x_start"@, "x1"@, id, "slot"@, vs);
    lemma_either_finite(l, "y_start"@, "y1"@, id, "slot"@, vs);
    lemma_either_finite(l, "x_end"@, "x2"@, id, "slot"@, vs);
    lemma_either_finite(l, "y_end"@, "y2"@, id, "slot"@, vs);
    lemma_require_finite(l, "depth"@, id, "slot"@, vs);
    lemma_require_finite(l, "width"@, id, "slot"@, vs);
    lemma_require_finite(l, "x"@, id, "pocket"@, vs);
    lemma_require_finite(l, "y"@, id, "pocket"@, vs);
    lemma_require_finite(l, "length"@, id, "pocket"@, vs);
    lemma_require_finite(l, "width"@, id, "pocket"@, vs);
    lemma_require_finite(l, "depth"@, id, "pocket"@, vs);
    lemma_require_finite(l, "x"@, id, "face"@, vs);
    lemma_require_finite(l, "y"@, id, "face"@, vs);
    lemma_require_finite(l, "length"@, id, "face"@, vs);
    lemma_require_finite(l, "width"@, id, "face"@, vs);
}

proof fn lemma_step_finite(l: Seq<char>, n: nat, vs: Seq<(Seq<char>, bool)>)
    ensures
        spec_step(l, n, vs) is Value ==> step_numbers_finite(value_of(spec_step(l, n, vs)), vs),
{
    reveal(spec_step);
    let id = spec_step_id(l, n);
    let kind = match spec_extract_attr(l, "type"@) {
        Some(s) => s,
        None => Seq::empty(),
    };
    lemma_read_finite(l, "feed"@, id, vs);
    lemma_read_finite(l, "rpm"@, id, vs);
    lemma_feature_finite(l, kind, id, vs);
}

proof fn lemma_steps_from_finite(t: Seq<char>, pos: int, acc: Seq<StepModel>, vs: Seq<(Seq<char>, bool)>)
    requires
        forall|i: int| 0 <= i < acc.len() ==> step_numbers_finite(#[trigger] acc[i], vs),
    ensures
        steps_from(t, pos, acc, vs) is Value ==> forall|i: int|
            0 <= i < value_of(steps_from(t, pos, acc, vs)).len() ==> step_numbers_finite(
                #[trigger] value_of(steps_from(t, pos, acc, vs))[i],
                vs,
            ),
    decreases t.len() - pos,
{
    if 0 <= pos <= t.len() {
        crate::text::lemma_line_end(t, pos);
        let e = line_end(t, pos);
        let l = trim(t.subrange(pos, e));
        let st = spec_step(l, acc.len(), vs);
        lemma_step_finite(l, acc.len(), vs);
        if !(is_step_line(l) && !(st is Value)) {
            let acc2 = if is_step_line(l) {
                acc.push(value_of(st))
            } else {
                acc
            };
            assert forall|i: int| 0 <= i < acc2.len() implies step_numbers_finite(#[trigger] acc2[i], vs) by {
                if i < acc.len() {
                    assert(acc2[i] == acc[i]);
                }
            }
            if e < t.len() {
                lemma_steps_from_finite(t, e + 1, acc2, vs);
            }
        }
    }
}

/// Law: every number of every workingstep a document yields is a text in number syntax that was
/// judged finite: a malformed or non-finite number is never carried into a feature.
pub proof fn law_parsed_numbers_are_finite(text: Seq<char>, vs: Seq<(Seq<char>, bool)>)
    ensures
        spec_parse_step_nc(text, vs) is Value ==> forall|i: int|
            0 <= i < value_of(spec_parse_step_nc(text, vs)).len() ==> step_numbers_finite(
                #[trigger] value_of(spec_parse_step_nc(text, vs))[i],
                vs,
            ),
{
    lemma_steps_from_finite(trim(text), 0, Seq::empty(), vs);
}

// ── where each number comes from ─────────────────────────────────────────────

/// The trimmed text of attribute `a` of line `l`, if the line has that attribute.
pub open spec fn attr_text(l: Seq<char>, a: Seq<char>) -> Option<Seq<char>> {
    match spec_extract_attr(l, a) {
        Some(raw) => Some(trim(raw)),
        None => None,
    }
}

/// `v` is what line `l` gives for an optional attribute `a` spelled `b` as well: `a`'s text, or,
/// where `a` is absent, `b`'s text or nothing.
pub open spec fn optional_from(l: Seq<char>, a: Seq<char>, b: Seq<char>, v: Option<Seq<char>>) -> bool {
    match v {
        Some(t) => attr_text(l, a) == Some(t) || (spec_extract_attr(l, a) is None && attr_text(l, b) == Some(t)),
        None => spec_extract_attr(l, a) is None,
    }
}

/// `t` is the text line `l` gives for a required attribute `a` spelled `b` as well.
pub open spec fn required_from(l: Seq<char>, a: Seq<char>, b: Seq<char>, t: Seq<char>) -> bool {
    attr_text(l, a) == Some(t) || attr_text(l, b) == Some(t)
}

/// The feature is the kind a workingstep of type `kind` describes, and each of its numbers is the
/// trimmed text of the attribute of the same name on line `l` (`x_start`/`x1`, `x_end`/`x2`,
/// `y_start`/`y1`, `y_end`/`y2` and `peck`/`q` being alternative spellings).
pub open spec fn feature_from(f: FeatureModel, l: Seq<char>, kind: Seq<char>) -> bool {
    match f {
        FeatureModel::PlanarFace { x, y, length, width } => {
            &&& !(kind == "hole"@ || kind == "drilling"@ || kind == "peck_hole"@ || kind == "peck_drilling"@
                || kind == "slot"@ || kind == "groove"@ || kind == "pocket"@)
            &&& attr_text(l, "x"@) == Some(x) && attr_text(l, "y"@) == Some(y)
            &&& attr_text(l, "length"@) == Some(length) && attr_text(l, "width"@) == Some(width)
        },
        FeatureModel::RoundHole { x, y, diameter, depth } => {
            &&& kind == "hole"@ || kind == "drilling"@
            &&& attr_text(l, "x"@) == Some(x) && attr_text(l, "y"@) == Some(y)
            &&& attr_text(l, "diameter"@) == Some(diameter) && attr_text(l, "depth"@) == Some(depth)
        },
        FeatureModel::ClosedPocket { x, y, length, width, depth } => {
            &&& kind == "pocket"@
            &&& attr_text(l, "x"@) == Some(x) && attr_text(l, "y"@) == Some(y)
            &&& attr_text(l, "length"@) == Some(length) && attr_text(l, "width"@) == Some(width)
            &&& attr_text(l, "depth"@) == Some(depth)
        },
        FeatureModel::Slot { x_start, y_start, x_end, y_end, depth, width } => {
            &&& kind == "slot"@ || kind == "groove"@
            &&& optional_from(l, "x_start"@, "x1"@, x_start) && optional_from(l, "y_start"@, "y1"@, y_start)
            &&& required_from(l, "x_end"@, "x2"@, x_end) && required_from(l, "y_end"@, "y2"@, y_end)
            &&& attr_text(l, "depth"@) == Some(depth) && attr_text(l, "width"@) == Some(width)
        },
        FeatureModel::PeckHole { x, y, diameter, depth, peck_depth } => {
            &&& kind == "peck_hole"@ || kind == "peck_drilling"@
            &&& attr_text(l, "x"@) == Some(x) && attr_text(l, "y"@) == Some(y)
            &&& attr_text(l, "diameter"@) == Some(diameter) && attr_text(l, "depth"@) == Some(depth)
            &&& optional_from(l, "peck"@, "q"@, peck_depth)
        },
    }
}

/// The workingstep's type attribute (empty when absent).
pub open spec fn step_kind(l: Seq<char>) -> Seq<char> {
    match spec_extract_attr(l, "type"@) {
        Some(s) => s,
        None => Seq::empty(),
    }
}

/// The workingstep is read off line `l`: its id is the line's `id` where it has one, its tool the
/// line's `tool`, its feed and speed the trimmed `feed` and `rpm`, and its feature as
/// `feature_from` says.
pub open spec fn step_from(s: StepModel, l: Seq<char>) -> bool {
    &&& (spec_extract_attr(l, "id"@) matches Some(i) ==> s.id == i)
    &&& s.tool_id == spec_extract_attr(l, "tool"@)
    &&& s.feedrate == attr_text(l, "feed"@)
    &&& s.spindle_rpm == attr_text(l, "rpm"@)
    &&& feature_from(s.feature, l, step_kind(l))
}

proof fn lemma_read_from(l: Seq<char>, a: Seq<char>, id: Seq<char>, vs: Seq<(Seq<char>, bool)>)
    ensures
        spec_read_num(l, a, id, vs) is Value ==> value_of(spec_read_num(l, a, id, vs)) == attr_text(l, a),
{
    reveal(spec_read_num);
}

proof fn lemma_require_from(l: Seq<char>, a: Seq<char>, id: Seq<char>, f: Seq<char>, vs: Seq<(Seq<char>, bool)>)
    ensures
        spec_require_num(l, a, id, f, vs) is Value ==> attr_text(l, a) == Some(value_of(spec_require_num(l, a, id, f, vs))),
{
    reveal(spec_require_num);
    lemma_read_from(l, a, id, vs);
}

proof fn lemma_either_from(l: Seq<char>, a: Seq<char>, b: Seq<char>, id: Seq<char>, f: Seq<char>, vs: Seq<(Seq<char>, bool)>)
    ensures
        spec_read_either(l, a, b, id, vs) is Value ==> optional_from(l, a, b, value_of(spec_read_either(l, a, b, id, vs))),
        spec_require_either(l, a, b, id, f, vs) is Value ==> required_from(l, a, b, value_of(spec_require_either(l, a, b, id, f, vs))),
{
    reveal(spec_read_either);
    reveal(spec_require_either);
    reveal(spec_read_num);
    lemma_read_from(l, a, id, vs);
    lemma_read_from(l, b, id, vs);
    lemma_require_from(l, a, id, f, vs);
    lemma_require_from(l, b, id, f, vs);
}

/// Law: a feature read off a workingstep line is the kind its type names, and each of its numbers
/// is the trimmed text of the line's attribute of the same name: a pocket's length is its `length`
/// and its width its `width`, a hole's diameter its `diameter`, and so on.
pub proof fn law_feature_fields_are_their_attributes(l: Seq<char>, kind: Seq<char>, id: Seq<char>, vs: Seq<(Seq<char>, bool)>)
    ensures
        spec_feature(l, kind, id, vs) is Value ==> feature_from(value_of(spec_feature(l, kind, id, vs)), l, kind),
{
    reveal(spec_feature);
    reveal(spec_hole);
    reveal(spec_peck_hole);
    reveal(spec_slot);
    reveal(spec_pocket);
    reveal(spec_face);
    lemma_require_from(l, "x"@, id, "hole"@, vs);
    lemma_require_from(l, "y"@, id, "hole"@, vs);
    lemma_require_from(l, "diameter"@, id, "hole"@, vs);
    lemma_require_from(l, "depth"@, id, "hole"@, vs);
    lemma_require_from(l, "x"@, id, "peck_hole"@, vs);
    lemma_require_from(l, "y"@, id, "peck_hole"@, vs);
    lemma_require_from(l, "diameter"@, id, "peck_hole"@, vs);
    lemma_require_from(l, "depth"@, id, "peck_hole"@, vs);
    lemma_either_from(l, "peck"@, "q"@, id, "peck_hole"@, vs);
    lemma_either_from(l, "x_start"@, "x1"@, id, "slot"@, vs);
    lemma_either_from(l, "y_start"@, "y1"@, id, "slot"@, vs);
    lemma_either_from(l, "x_end"@, "x2"@, id, "slot"@, vs);
    lemma_either_from(l, "y_end"@, "y2"@, id, "slot"@, vs);
    lemma_require_from(l, "depth"@, id, "slot"@, vs);
    lemma_require_from(l, "width"@, id, "slot"@, vs);
    lemma_require_from(l, "x"@, id, "pocket"@, vs);
    lemma_require_from(l, "y"@, id, "pocket"@, vs);
    lemma_require_from(l, "length"@, id, "pocket"@, vs);
    lemma_require_from(l, "width"@, id, "pocket"@, vs);
    lemma_require_from(l, "depth"@, id, "pocket"@, vs);
    lemma_require_from(l, "x"@, id, "face"@, vs);
    lemma_require_from(l, "y"@, id, "face"@, vs);
    lemma_require_from(l, "length"@, id, "face"@, vs);
    lemma_require_from(l, "width"@, id, "face"@, vs);
}

/// Law: a workingstep read off a line carries that line's attributes (see `step_from`).
pub proof fn law_step_fields_are_their_attributes(l: Seq<char>, n: nat, vs: Seq<(Seq<char>, bool)>)
    ensures
        spec_step(l, n, vs) is Value ==> step_from(value_of(spec_step(l, n, vs)), l),
{
    reveal(spec_step);
    let id = spec_step_id(l, n);
    lemma_read_from(l, "feed"@, id, vs);
    lemma_read_from(l, "rpm"@, id, vs);
    law_feature_fields_are_their_attributes(l, step_kind(l), id, vs);
}

/// The workingstep is read off some workingstep line of the text `t` (a stretch of it, trimmed).
pub open spec fn from_a_line_of(t: Seq<char>, s: StepModel) -> bool {
    exists|p: int, e: int|
        0 <= p <= e <= t.len() && is_step_line(#[trigger] trim(t.subrange(p, e))) && step_from(s, trim(t.subrange(p, e)))
}

proof fn lemma_steps_from_lines(t: Seq<char>, pos: int, acc: Seq<StepModel>, vs: Seq<(Seq<char>, bool)>)
    requires
        forall|i: int| 0 <= i < acc.len() ==> from_a_line_of(t, #[trigger] acc[i]),
    ensures
        steps_from(t, pos, acc, vs) is Value ==> forall|i: int|
            0 <= i < value_of(steps_from(t, pos, acc, vs)).len() ==> from_a_line_of(
                t,
                #[trigger] value_of(steps_from(t, pos, acc, vs))[i],
            ),
    decreases t.len() - pos,
{
    if 0 <= pos <= t.len() {
        crate::text::lemma_line_end(t, pos);
        let e = line_end(t, pos);
        let l = trim(t.subrange(pos, e));
        let st = spec_step(l, acc.len(), vs);
        law_step_fields_are_their_attributes(l, acc.len(), vs);
        if !(is_step_line(l) && !(st is Value)) {
            let acc2 = if is_step_line(l) {
                acc.push(value_of(st))
            } else {
                acc
            };
            assert forall|i: int| 0 <= i < acc2.len() implies from_a_line_of(t, #[trigger] acc2[i]) by {
                if i < acc.len() {
                    assert(acc2[i] == acc[i]);
                } else {
                    assert(is_step_line(trim(t.subrange(pos, e))) && step_from(acc2[i], trim(t.subrange(pos, e))));
                }
            }
            if e < t.len() {
                lemma_steps_from_lines(t, e + 1, acc2, vs);
            }
        }
    }
}

/// Law: every workingstep a document yields is read off one of its workingstep lines, each of its
/// numbers being the trimmed text of that line's attribute of the same name.
pub proof fn law_parsed_steps_come_from_their_lines(text: Seq<char>, vs: Seq<(Seq<char>, bool)>)
    ensures
        spec_parse_step_nc(text, vs) is Value ==> forall|i: int|
            0 <= i < value_of(spec_parse_step_nc(text, vs)).len() ==> from_a_line_of(
                trim(text),
                #[trigger] value_of(spec_parse_step_nc(text, vs))[i],
            ),
{
    lemma_steps_from_lines(trim(text), 0, Seq::empty(), vs);
}

} // verus!
