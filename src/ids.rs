//! Identifiers and timestamps carried by trace headers and segments.
use vstd::prelude::*;

use crate::text::same_chars;

verus! {

/// Identifier of the end-to-end trace.
#[derive(Debug)]
pub enum TraceId {
    /// A token in its rendered form.
    Rendered(String),
    /// No identifier has been set.
    Unset,
}

/// Identifier of one segment or subsegment.
#[derive(Debug)]
pub enum SegmentId {
    /// A token in its rendered form.
    Rendered(String),
    /// No identifier has been set.
    Unset,
}

impl View for TraceId {
    type V = Option<Seq<char>>;

    open spec fn view(&self) -> Option<Seq<char>> {
        match self {
            TraceId::Rendered(s) => Some(s@),
            TraceId::Unset => None,
        }
    }
}

impl View for SegmentId {
    type V = Option<Seq<char>>;

    open spec fn view(&self) -> Option<Seq<char>> {
        match self {
            SegmentId::Rendered(s) => Some(s@),
            SegmentId::Unset => None,
        }
    }
}

/// The text that stands for an identifier in a header or a record: the
/// rendered token, or nothing when it is unset.
pub open spec fn id_text(id: Option<Seq<char>>) -> Seq<char> {
    match id {
        Some(s) => s,
        None => Seq::empty(),
    }
}

impl TraceId {
    /// The text of this identifier; empty when it is unset.
    pub fn as_str(&self) -> (r: &str)
        ensures
            r@ == id_text(self@),
    {
        match self {
            TraceId::Rendered(s) => s.as_str(),
            TraceId::Unset => {
                proof {
                    reveal_strlit("");
                }
                ""
            },
        }
    }
}

impl SegmentId {
    /// The text of this identifier; empty when it is unset.
    pub fn as_str(&self) -> (r: &str)
        ensures
            r@ == id_text(self@),
    {
        match self {
            SegmentId::Rendered(s) => s.as_str(),
            SegmentId::Unset => {
                proof {
                    reveal_strlit("");
                }
                ""
            },
        }
    }
}

impl Clone for TraceId {
    fn clone(&self) -> (r: Self)
        ensures
            r@ == self@,
    {
        match self {
            TraceId::Rendered(s) => TraceId::Rendered(s.clone()),
            TraceId::Unset => TraceId::Unset,
        }
    }
}

impl Clone for SegmentId {
    fn clone(&self) -> (r: Self)
        ensures
            r@ == self@,
    {
        match self {
            SegmentId::Rendered(s) => SegmentId::Rendered(s.clone()),
            SegmentId::Unset => SegmentId::Unset,
        }
    }
}

impl Default for TraceId {
    fn default() -> (r: Self)
        ensures
            r@ is None,
    {
        TraceId::Unset
    }
}

impl Default for SegmentId {
    fn default() -> (r: Self)
        ensures
            r@ is None,
    {
        SegmentId::Unset
    }
}

impl PartialEq for TraceId {
    fn eq(&self, other: &TraceId) -> (r: bool)
        ensures
            r == (self@ == other@),
    {
        match (self, other) {
            (TraceId::Rendered(a), TraceId::Rendered(b)) => same_chars(a.as_str(), b.as_str()),
            (TraceId::Unset, TraceId::Unset) => true,
            _ => false,
        }
    }
}

impl vstd::std_specs::cmp::PartialEqSpecImpl for TraceId {
    open spec fn obeys_eq_spec() -> bool {
        true
    }

    open spec fn eq_spec(&self, other: &TraceId) -> bool {
        self@ == other@
    }
}

impl PartialEq for SegmentId {
    fn eq(&self, other: &SegmentId) -> (r: bool)
        ensures
            r == (self@ == other@),
    {
        match (self, other) {
            (SegmentId::Rendered(a), SegmentId::Rendered(b)) => same_chars(a.as_str(), b.as_str()),
            (SegmentId::Unset, SegmentId::Unset) => true,
            _ => false,
        }
    }
}

impl vstd::std_specs::cmp::PartialEqSpecImpl for SegmentId {
    open spec fn obeys_eq_spec() -> bool {
        true
    }

    open spec fn eq_spec(&self, other: &SegmentId) -> bool {
        self@ == other@
    }
}

/// A point in time, counted in microseconds since the Unix epoch.
#[derive(Clone, Copy, Debug, PartialEq, Eq, Structural)]
pub struct Seconds {
    /// Microseconds since 1970-01-01T00:00:00Z.
    pub micros: u64,
}

impl Seconds {
    /// The instant that lies `micros` microseconds after the epoch.
    pub fn from_micros(micros: u64) -> (r: Seconds)
        ensures
            r.micros == micros,
    {
        Seconds { micros }
    }
}

} // verus!
