//! Trace windows: which segments and source lines a window touches, and trace configuration errors.
use crate::text::string_from_str;
use vstd::prelude::*;

verus! {

/// A trace configuration error.
#[derive(Debug, Clone, PartialEq, Eq)]
pub struct TraceError {
    message: String,
}

impl TraceError {
    pub fn new(message: &str) -> (e: TraceError)
        ensures
            e.text() == message@,
    {
        TraceError { message: string_from_str(message) }
    }

    /// The error's text, as it is displayed.
    pub closed spec fn text(&self) -> Seq<char> {
        self.message@
    }

    /// The error's text, as it is displayed.
    pub fn display_text(&self) -> (s: String)
        ensures
            s@ == self.text(),
    {
        self.message.clone()
    }
}


/// The segment and source-line ranges a trace window touches.
#[derive(Debug, Clone, Copy, PartialEq, Eq, Default, Structural)]
pub struct WindowLinks {
    /// First segment index touching the window.
    pub segment_start: Option<usize>,
    /// Exclusive segment end index touching the window.
    pub segment_end: Option<usize>,
    /// First source line touching the window.
    pub source_line_start: Option<usize>,
    /// Last source line touching the window.
    pub source_line_end: Option<usize>,
}

/// `o` widened downwards to `v`.
pub open spec fn lower(o: Option<usize>, v: usize) -> Option<usize> {
    match o {
        Some(c) => Some(if v < c { v } else { c }),
        None => Some(v),
    }
}

/// `o` widened upwards to `v`.
pub open spec fn upper(o: Option<usize>, v: usize) -> Option<usize> {
    match o {
        Some(c) => Some(if v > c { v } else { c }),
        None => Some(v),
    }
}

impl WindowLinks {
    /// A window that touches nothing yet.
    pub fn empty() -> (w: WindowLinks)
        ensures
            w == (WindowLinks { segment_start: None, segment_end: None, source_line_start: None, source_line_end: None }),
    {
        WindowLinks { segment_start: None, segment_end: None, source_line_start: None, source_line_end: None }
    }

    /// Record that `segment` (from `source_line`, when known) touches the window: the segment range
    /// grows to cover `[segment, segment + 1)` and the line range to cover the line.
    pub fn touch_segment(&mut self, segment: usize, source_line: Option<usize>)
        requires
            segment < usize::MAX,
        ensures
            final(self).segment_start == lower(old(self).segment_start, segment),
            final(self).segment_end == upper(old(self).segment_end, (segment + 1) as usize),
            final(self).source_line_start == match source_line {
                Some(l) => lower(old(self).source_line_start, l),
                None => old(self).source_line_start,
            },
            final(self).source_line_end == match source_line {
                Some(l) => upper(old(self).source_line_end, l),
                None => old(self).source_line_end,
            },
    {
        self.segment_start = Some(match self.segment_start {
            Some(c) => if segment < c { segment } else { c },
            None => segment,
        });
        let next = segment + 1;
        self.segment_end = Some(match self.segment_end {
            Some(c) => if next > c { next } else { c },
            None => next,
        });
        if let Some(l) = source_line {
            self.source_line_start = Some(match self.source_line_start {
                Some(c) => if l < c { l } else { c },
                None => l,
            });
            self.source_line_end = Some(match self.source_line_end {
                Some(c) => if l > c { l } else { c },
                None => l,
            });
        }
    }
}

/// Law: a window's segment range covers every segment that touched it: after a touch, the range
/// starts at or before the segment and ends after it, and it only ever grows.
pub proof fn law_touch_covers(w: WindowLinks, segment: usize)
    requires
        segment < usize::MAX,
    ensures
        lower(w.segment_start, segment).unwrap() <= segment,
        upper(w.segment_end, (segment + 1) as usize).unwrap() > segment,
        w.segment_start matches Some(s) ==> lower(w.segment_start, segment).unwrap() <= s,
        w.segment_end matches Some(e) ==> upper(w.segment_end, (segment + 1) as usize).unwrap() >= e,
{
}

} // verus!
