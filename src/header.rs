//! The propagated trace header: its grammar, its parser and its renderer.
use vstd::prelude::*;

use crate::ids::{id_text, SegmentId, TraceId};
use crate::text::{split_on, starts_with, chars_of, find_char, has_prefix_at, push_char, same_chars, string_from};

verus! {

/// The sampling decision carried by a trace header.
#[derive(Clone, Copy, Debug, PartialEq, Eq, Structural)]
pub enum SamplingDecision {
    /// The trace is recorded.
    Sampled,
    /// The trace is not recorded.
    NotSampled,
    /// The decision is left to the downstream service.
    Requested,
    /// No decision is known.
    Unknown,
}

/// The decision that a header segment beginning with `Sampled=` stands for:
/// one of the three exact tokens, and `Unknown` for anything else.
pub open spec fn decision_of(seg: Seq<char>) -> SamplingDecision {
    if seg == "Sampled=1"@ {
        SamplingDecision::Sampled
    } else if seg == "Sampled=0"@ {
        SamplingDecision::NotSampled
    } else if seg == "Sampled=?"@ {
        SamplingDecision::Requested
    } else {
        SamplingDecision::Unknown
    }
}

impl SamplingDecision {
    /// The header segment that renders this decision; empty for `Unknown`.
    pub open spec fn token(self) -> Seq<char> {
        match self {
            SamplingDecision::Sampled => "Sampled=1"@,
            SamplingDecision::NotSampled => "Sampled=0"@,
            SamplingDecision::Requested => "Sampled=?"@,
            SamplingDecision::Unknown => Seq::empty(),
        }
    }

    /// Reads a decision from a header segment.
    pub fn from_token(s: &str) -> (r: SamplingDecision)
        ensures
            r == decision_of(s@),
    {
        if same_chars(s, "Sampled=1") {
            SamplingDecision::Sampled
        } else if same_chars(s, "Sampled=0") {
            SamplingDecision::NotSampled
        } else if same_chars(s, "Sampled=?") {
            SamplingDecision::Requested
        } else {
            SamplingDecision::Unknown
        }
    }

    /// The header segment that renders this decision; empty for `Unknown`.
    pub fn as_str(&self) -> (r: &'static str)
        ensures
            r@ == self.token(),
    {
        match self {
            SamplingDecision::Sampled => "Sampled=1",
            SamplingDecision::NotSampled => "Sampled=0",
            SamplingDecision::Requested => "Sampled=?",
            SamplingDecision::Unknown => {
                proof {
                    reveal_strlit("");
                }
                ""
            },
        }
    }
}

impl<'a> From<&'a str> for SamplingDecision {
    fn from(value: &'a str) -> (r: SamplingDecision) {
        SamplingDecision::from_token(value)
    }
}

impl<'a> vstd::std_specs::convert::FromSpecImpl<&'a str> for SamplingDecision {
    open spec fn obeys_from_spec() -> bool {
        true
    }

    open spec fn from_spec(value: &'a str) -> SamplingDecision {
        decision_of(value@)
    }
}

impl Default for SamplingDecision {
    fn default() -> (r: Self)
        ensures
            r == SamplingDecision::Unknown,
    {
        SamplingDecision::Unknown
    }
}

/// The mathematical content of a [`Header`].
pub struct HeaderView {
    pub trace_id: Option<Seq<char>>,
    pub parent_id: Option<Option<Seq<char>>>,
    pub sampling_decision: SamplingDecision,
    /// The additional pairs, in the order in which they were first inserted.
    pub additional_data: Seq<(Seq<char>, Seq<char>)>,
}

/// No two pairs share a key.
pub open spec fn keys_unique(d: Seq<(Seq<char>, Seq<char>)>) -> bool {
    forall|i: int, j: int| 0 <= i < d.len() && 0 <= j < d.len() && i != j ==> d[i].0 != d[j].0
}

/// Where the pair with key `k` stands, if any pair has that key.
pub open spec fn key_index(d: Seq<(Seq<char>, Seq<char>)>, k: Seq<char>) -> Option<int> {
    if exists|i: int| 0 <= i < d.len() && d[i].0 == k {
        Some(choose|i: int| 0 <= i < d.len() && d[i].0 == k)
    } else {
        None
    }
}

/// Map insertion on a sequence of pairs: a pair with the same key has its
/// value replaced where it stands; otherwise the pair goes at the end.
pub open spec fn insert_pair(d: Seq<(Seq<char>, Seq<char>)>, k: Seq<char>, v: Seq<char>) -> Seq<
    (Seq<char>, Seq<char>),
> {
    match key_index(d, k) {
        Some(i) => d.update(i, (k, v)),
        None => d.push((k, v)),
    }
}

/// The pairs as a map.
pub open spec fn pairs_map(d: Seq<(Seq<char>, Seq<char>)>) -> Map<Seq<char>, Seq<char>> {
    Map::new(|k: Seq<char>| key_index(d, k) is Some, |k: Seq<char>| d[key_index(d, k)->0].1)
}

/// `;k=v` for each pair, in order.
pub open spec fn pairs_text(d: Seq<(Seq<char>, Seq<char>)>) -> Seq<char>
    decreases d.len(),
{
    if d.len() == 0 {
        Seq::empty()
    } else {
        pairs_text(d.drop_last()) + seq![';'] + d.last().0 + seq!['='] + d.last().1
    }
}

impl HeaderView {
    /// A header with nothing set.
    pub open spec fn empty() -> HeaderView {
        HeaderView {
            trace_id: None,
            parent_id: None,
            sampling_decision: SamplingDecision::Unknown,
            additional_data: Seq::empty(),
        }
    }

    /// The additional data as a map; the order of insertion is irrelevant to it.
    pub open spec fn data(self) -> Map<Seq<char>, Seq<char>> {
        pairs_map(self.additional_data)
    }

    /// Two headers carry the same information.
    pub open spec fn same_as(self, other: HeaderView) -> bool {
        &&& self.trace_id == other.trace_id
        &&& self.parent_id == other.parent_id
        &&& self.sampling_decision == other.sampling_decision
        &&& self.data() == other.data()
    }

    /// The rendered header: `Root=<trace id>`, then `;Parent=<id>` if a parent
    /// is set, then `;<sampling>` unless the decision is unknown, then `;k=v`
    /// for each additional pair.
    pub open spec fn text(self) -> Seq<char> {
        "Root="@ + id_text(self.trace_id) + match self.parent_id {
            Some(p) => seq![';'] + "Parent="@ + id_text(p),
            None => Seq::empty(),
        } + if self.sampling_decision == SamplingDecision::Unknown {
            Seq::<char>::empty()
        } else {
            seq![';'] + self.sampling_decision.token()
        } + pairs_text(self.additional_data)
    }
}

/// Parsed representation of the trace header.
#[derive(Debug)]
pub struct Header {
    trace_id: TraceId,
    parent_id: Option<SegmentId>,
    sampling_decision: SamplingDecision,
    additional_data: Vec<(String, String)>,
}

/// The view of a list of string pairs.
pub open spec fn pairs_view(d: Seq<(String, String)>) -> Seq<(Seq<char>, Seq<char>)> {
    d.map_values(|p: (String, String)| (p.0@, p.1@))
}

/// The view of an optional segment identifier.
pub open spec fn opt_id_view(p: Option<SegmentId>) -> Option<Option<Seq<char>>> {
    match p {
        Some(id) => Some(id@),
        None => None,
    }
}

impl View for Header {
    type V = HeaderView;

    closed spec fn view(&self) -> HeaderView {
        HeaderView {
            trace_id: self.trace_id@,
            parent_id: opt_id_view(self.parent_id),
            sampling_decision: self.sampling_decision,
            additional_data: pairs_view(self.additional_data@),
        }
    }
}

/// A copy of an optional segment identifier.
pub(crate) fn clone_opt_id(p: &Option<SegmentId>) -> (r: Option<SegmentId>)
    ensures
        opt_id_view(r) == opt_id_view(*p),
{
    match p {
        Some(id) => Some(id.clone()),
        None => None,
    }
}

/// A copy of a list of string pairs.
fn clone_pairs(d: &Vec<(String, String)>) -> (r: Vec<(String, String)>)
    ensures
        pairs_view(r@) == pairs_view(d@),
{
    let mut r: Vec<(String, String)> = Vec::new();
    let mut i: usize = 0;
    while i < d.len()
        invariant
            i <= d@.len(),
            pairs_view(r@) == pairs_view(d@).subrange(0, i as int),
        decreases d.len() - i,
    {
        let (k, v) = &d[i];
        r.push((k.clone(), v.clone()));
        assert(pairs_view(d@).subrange(0, i + 1) == pairs_view(d@).subrange(0, i as int).push(
            pairs_view(d@)[i as int],
        ));
        assert(pairs_view(r@) == pairs_view(d@).subrange(0, i as int).push(pairs_view(d@)[i as int]));
        i = i + 1;
    }
    r
}

impl Header {
    /// Name of the HTTP header that carries the rendered header.
    pub const NAME: &'static str = "X-Amzn-Trace-Id";

    #[verifier::type_invariant]
    spec fn wf(self) -> bool {
        keys_unique(pairs_view(self.additional_data@))
    }

    /// Creates a header with the given trace id and nothing else set.
    pub fn new(trace_id: TraceId) -> (r: Header)
        ensures
            r@ == (HeaderView { trace_id: trace_id@, ..HeaderView::empty() }),
    {
        let r = Header {
            trace_id,
            parent_id: None,
            sampling_decision: SamplingDecision::Unknown,
            additional_data: Vec::new(),
        };
        assert(pairs_view(r.additional_data@) == Seq::<(Seq<char>, Seq<char>)>::empty());
        r
    }

    /// The trace id.
    pub fn trace_id(&self) -> (r: &TraceId)
        ensures
            r@ == self@.trace_id,
    {
        &self.trace_id
    }

    /// The parent segment id, if any.
    pub fn parent_id(&self) -> (r: &Option<SegmentId>)
        ensures
            opt_id_view(*r) == self@.parent_id,
    {
        &self.parent_id
    }

    /// The sampling decision.
    pub fn sampling_decision(&self) -> (r: SamplingDecision)
        ensures
            r == self@.sampling_decision,
    {
        self.sampling_decision
    }

    /// Creates a new header with the parent id replaced and all else kept.
    pub fn with_parent_id(&self, parent_id: SegmentId) -> (r: Header)
        ensures
            r@ == (HeaderView { parent_id: Some(parent_id@), ..self@ }),
    {
        proof {
            use_type_invariant(self);
        }
        Header {
            trace_id: self.trace_id.clone(),
            parent_id: Some(parent_id),
            sampling_decision: self.sampling_decision,
            additional_data: clone_pairs(&self.additional_data),
        }
    }

    /// Creates a new header with the sampling decision replaced and all else kept.
    pub fn with_sampling_decision(&self, decision: SamplingDecision) -> (r: Header)
        ensures
            r@ == (HeaderView { sampling_decision: decision, ..self@ }),
    {
        proof {
            use_type_invariant(self);
        }
        Header {
            trace_id: self.trace_id.clone(),
            parent_id: clone_opt_id(&self.parent_id),
            sampling_decision: decision,
            additional_data: clone_pairs(&self.additional_data),
        }
    }
}

impl Default for Header {
    /// A header with nothing set.
    fn default() -> (r: Self)
        ensures
            r@ == HeaderView::empty(),
    {
        Header::new(TraceId::Unset)
    }
}

impl Clone for Header {
    fn clone(&self) -> (r: Self)
        ensures
            r@ == self@,
    {
        proof {
            use_type_invariant(self);
        }
        Header {
            trace_id: self.trace_id.clone(),
            parent_id: clone_opt_id(&self.parent_id),
            sampling_decision: self.sampling_decision,
            additional_data: clone_pairs(&self.additional_data),
        }
    }
}

/// `i` is the position of the first `=` in `seg`.
pub open spec fn is_first_eq(seg: Seq<char>, i: int) -> bool {
    0 <= i < seg.len() && seg[i] == '=' && forall|j: int| 0 <= j < i ==> seg[j] != '='
}

/// The error for a header segment that is neither recognised nor a `key=value` pair.
pub open spec fn bad_pair_message(seg: Seq<char>) -> Seq<char> {
    "invalid key=value: no `=` found in `"@ + seg + "`"@
}

/// The effect of one `;`-separated segment on the header parsed so far.
pub open spec fn apply_segment(h: HeaderView, seg: Seq<char>) -> Result<HeaderView, Seq<char>> {
    if starts_with(seg, "Root="@) {
        Ok(HeaderView { trace_id: Some(seg.subrange("Root="@.len() as int, seg.len() as int)), ..h })
    } else if starts_with(seg, "Parent="@) {
        Ok(
            HeaderView {
                parent_id: Some(Some(seg.subrange("Parent="@.len() as int, seg.len() as int))),
                ..h
            },
        )
    } else if starts_with(seg, "Sampled="@) {
        Ok(HeaderView { sampling_decision: decision_of(seg), ..h })
    } else if starts_with(seg, "Self="@) {
        Ok(h)
    } else if exists|i: int| is_first_eq(seg, i) {
        let i = choose|i: int| is_first_eq(seg, i);
        Ok(
            HeaderView {
                additional_data: insert_pair(
                    h.additional_data,
                    seg.subrange(0, i),
                    seg.subrange(i + 1, seg.len() as int),
                ),
                ..h
            },
        )
    } else {
        Err(bad_pair_message(seg))
    }
}

/// The pieces of `s` between `;` separators: one more than there are separators.
pub open spec fn split_segments(s: Seq<char>) -> Seq<Seq<char>> {
    split_on(s, ';')
}

/// Applies the segments in order, stopping at the first error.
pub open spec fn parse_segments(h: HeaderView, segs: Seq<Seq<char>>) -> Result<
    HeaderView,
    Seq<char>,
>
    decreases segs.len(),
{
    if segs.len() == 0 {
        Ok(h)
    } else {
        match parse_segments(h, segs.drop_last()) {
            Ok(h1) => apply_segment(h1, segs.last()),
            Err(e) => Err(e),
        }
    }
}

/// The header that a text stands for, or the error that rejects it.
pub open spec fn parse_header(s: Seq<char>) -> Result<HeaderView, Seq<char>> {
    parse_segments(HeaderView::empty(), split_segments(s))
}

proof fn lemma_split_nonempty(s: Seq<char>)
    ensures
        split_segments(s).len() >= 1,
    decreases s.len(),
{
    if s.len() > 0 {
        lemma_split_nonempty(s.drop_last());
    }
}

proof fn lemma_split_push(s: Seq<char>, c: char)
    ensures
        split_segments(s.push(c)) == if c == ';' {
            split_segments(s).push(Seq::empty())
        } else {
            split_segments(s).update(
                split_segments(s).len() - 1,
                split_segments(s).last().push(c),
            )
        },
{
    assert(s.push(c).drop_last() =~= s);
}

/// Splitting at a separator splits the two sides apart.
proof fn lemma_split_concat(x: Seq<char>, y: Seq<char>)
    ensures
        split_segments(x + seq![';'] + y) == split_segments(x) + split_segments(y),
    decreases y.len(),
{
    if y.len() == 0 {
        assert(x + seq![';'] + y =~= x.push(';'));
        lemma_split_push(x, ';');
        assert(split_segments(x).push(Seq::empty()) =~= split_segments(x) + split_segments(y));
    } else {
        let y1 = y.drop_last();
        let c = y.last();
        lemma_split_concat(x, y1);
        assert(x + seq![';'] + y =~= (x + seq![';'] + y1).push(c));
        assert(y =~= y1.push(c));
        lemma_split_push(x + seq![';'] + y1, c);
        lemma_split_push(y1, c);
        lemma_split_nonempty(y1);
        if c == ';' {
            assert(split_segments(x + seq![';'] + y) =~= split_segments(x) + split_segments(y));
        } else {
            assert(split_segments(x + seq![';'] + y) =~= split_segments(x) + split_segments(y));
        }
    }
}

/// Once a segment is rejected, later segments do not change the outcome.
proof fn lemma_parse_error_sticks(h: HeaderView, a: Seq<Seq<char>>, b: Seq<Seq<char>>)
    requires
        parse_segments(h, a) is Err,
    ensures
        parse_segments(h, a + b) == parse_segments(h, a),
    decreases b.len(),
{
    if b.len() == 0 {
        assert(a + b =~= a);
    } else {
        lemma_parse_error_sticks(h, a, b.drop_last());
        assert((a + b).drop_last() =~= a + b.drop_last());
    }
}

/// The position of the pair with key `k`, if any.
fn find_key(d: &Vec<(String, String)>, k: &str) -> (r: Option<usize>)
    requires
        keys_unique(pairs_view(d@)),
    ensures
        match r {
            Some(j) => key_index(pairs_view(d@), k@) == Some(j as int) && j < d@.len(),
            None => key_index(pairs_view(d@), k@) is None,
        },
{
    let ghost dv = pairs_view(d@);
    let mut j: usize = 0;
    while j < d.len()
        invariant
            j <= d@.len(),
            dv == pairs_view(d@),
            keys_unique(dv),
            forall|i: int| 0 <= i < j ==> dv[i].0 != k@,
        decreases d.len() - j,
    {
        if same_chars(d[j].0.as_str(), k) {
            assert(dv[j as int].0 == k@);
            assert(exists|i: int| 0 <= i < dv.len() && dv[i].0 == k@);
            let ghost c = choose|i: int| 0 <= i < dv.len() && dv[i].0 == k@;
            assert(c == j as int) by {
                if c != j as int {
                    assert(dv[c].0 != dv[j as int].0);
                }
            }
            return Some(j);
        }
        j = j + 1;
    }
    None
}

/// Inserts a pair as a map does: the value of an existing key is replaced.
fn insert_into(d: &mut Vec<(String, String)>, k: String, v: String)
    requires
        keys_unique(pairs_view(old(d)@)),
    ensures
        pairs_view(final(d)@) == insert_pair(pairs_view(old(d)@), k@, v@),
        keys_unique(pairs_view(final(d)@)),
{
    let ghost dv = pairs_view(d@);
    match find_key(d, k.as_str()) {
        Some(j) => {
            d.set(j, (k, v));
            assert(pairs_view(d@) =~= dv.update(j as int, (k@, v@)));
        },
        None => {
            d.push((k, v));
            assert(pairs_view(d@) =~= dv.push((k@, v@)));
        },
    }
}

impl Header {
    /// Inserts a key-value pair into the additional data; an existing key has
    /// its value replaced.
    pub fn insert_data(&mut self, key: &str, value: &str) -> (r: &mut Self)
        ensures
            *final(self) == *final(r),
            r@ == (HeaderView {
                additional_data: insert_pair(old(self)@.additional_data, key@, value@),
                ..old(self)@
            }),
            keys_unique(r@.additional_data),
    {
        proof {
            use_type_invariant(&*self);
        }
        let mut d: Vec<(String, String)> = Vec::new();
        proof {
            assert(pairs_view(d@) =~= Seq::<(Seq<char>, Seq<char>)>::empty());
        }
        std::mem::swap(&mut d, &mut self.additional_data);
        insert_into(&mut d, key.to_owned(), value.to_owned());
        self.additional_data = d;
        self
    }

    /// The rendered header text.
    pub fn to_string(&self) -> (r: String)
        ensures
            r@ == self@.text(),
    {
        let mut r = String::new();
        r.append("Root=");
        r.append(self.trace_id.as_str());
        match &self.parent_id {
            Some(p) => {
                push_char(&mut r, ';');
                r.append("Parent=");
                r.append(p.as_str());
            },
            None => {},
        }
        if self.sampling_decision != SamplingDecision::Unknown {
            push_char(&mut r, ';');
            r.append(self.sampling_decision.as_str());
        }
        let ghost head = r@;
        let ghost dv = self@.additional_data;
        let mut i: usize = 0;
        while i < self.additional_data.len()
            invariant
                i <= self.additional_data@.len(),
                dv == pairs_view(self.additional_data@),
                r@ == head + pairs_text(dv.subrange(0, i as int)),
            decreases self.additional_data.len() - i,
        {
            let (k, v) = &self.additional_data[i];
            push_char(&mut r, ';');
            r.append(k.as_str());
            push_char(&mut r, '=');
            r.append(v.as_str());
            assert(dv.subrange(0, i + 1).drop_last() =~= dv.subrange(0, i as int));
            i = i + 1;
        }
        assert(dv.subrange(0, i as int) =~= dv);
        r
    }
}

impl Header {
    /// Applies the segment `v[lo..hi]` to this header.
    fn apply_segment(&mut self, v: &Vec<char>, lo: usize, hi: usize) -> (r: Result<(), String>)
        requires
            lo <= hi <= v@.len(),
        ensures
            match apply_segment(old(self)@, v@.subrange(lo as int, hi as int)) {
                Ok(h) => r is Ok && final(self)@ == h,
                Err(e) => r matches Err(m) && m@ == e,
            },
    {
        proof {
            use_type_invariant(&*self);
        }
        let ghost seg = v@.subrange(lo as int, hi as int);
        if has_prefix_at(v, lo, hi, "Root=") {
            let t = string_from(v, lo + "Root=".unicode_len(), hi);
            assert(t@ == seg.subrange("Root="@.len() as int, seg.len() as int));
            self.trace_id = TraceId::Rendered(t);
            Ok(())
        } else if has_prefix_at(v, lo, hi, "Parent=") {
            let p = string_from(v, lo + "Parent=".unicode_len(), hi);
            assert(p@ == seg.subrange("Parent="@.len() as int, seg.len() as int));
            self.parent_id = Some(SegmentId::Rendered(p));
            Ok(())
        } else if has_prefix_at(v, lo, hi, "Sampled=") {
            let t = string_from(v, lo, hi);
            self.sampling_decision = SamplingDecision::from_token(t.as_str());
            Ok(())
        } else if has_prefix_at(v, lo, hi, "Self=") {
            Ok(())
        } else {
            match find_char(v, lo, hi, '=') {
                Some(e) => {
                    let ghost i = (e - lo) as int;
                    assert(is_first_eq(seg, i));
                    assert forall|i2: int| is_first_eq(seg, i2) implies i2 == i by {
                        if i2 < i {
                            assert(seg[i2] == v@[lo + i2]);
                        } else if i < i2 {
                            assert(seg[i] == v@[lo + i]);
                        }
                    }
                    let k = string_from(v, lo, e);
                    let val = string_from(v, e + 1, hi);
                    assert(k@ == seg.subrange(0, i));
                    assert(val@ == seg.subrange(i + 1, seg.len() as int));
                    let mut d: Vec<(String, String)> = Vec::new();
                    proof {
                        assert(pairs_view(d@) =~= Seq::<(Seq<char>, Seq<char>)>::empty());
                    }
                    std::mem::swap(&mut d, &mut self.additional_data);
                    insert_into(&mut d, k, val);
                    self.additional_data = d;
                    Ok(())
                },
                None => {
                    assert forall|i: int| !is_first_eq(seg, i) by {
                        if 0 <= i < seg.len() {
                            assert(seg[i] == v@[lo + i]);
                        }
                    }
                    let mut m = String::from_str("invalid key=value: no `=` found in `");
                    let frag = string_from(v, lo, hi);
                    m.append(frag.as_str());
                    m.append("`");
                    Err(m)
                },
            }
        }
    }

    /// Parses a header text.
    ///
    /// The text is split at every `;`. A segment beginning with `Root=` sets
    /// the trace id, `Parent=` the parent id, and `Sampled=` the sampling
    /// decision; a segment beginning with `Self=` is dropped; any other
    /// segment is split at its first `=` into a key and a value that are
    /// inserted into the additional data. A segment without `=` is rejected
    /// with an error that names it.
    pub fn parse(s: &str) -> (r: Result<Header, String>)
        ensures
            match parse_header(s@) {
                Ok(h) => r matches Ok(x) && x@ == h,
                Err(e) => r matches Err(m) && m@ == e,
            },
            r matches Ok(x) ==> keys_unique(x@.additional_data),
    {
        let v = chars_of(s);
        let n = v.len();
        let mut h = Header::new(TraceId::Unset);
        let mut start: usize = 0;
        let mut i: usize = 0;
        proof {
            assert(v@.subrange(0, 0) =~= Seq::<char>::empty());
            assert(split_segments(Seq::<char>::empty()).drop_last() =~= Seq::<Seq<char>>::empty());
        }
        while i < n
            invariant
                n == v@.len(),
                v@ == s@,
                start <= i <= n,
                split_segments(v@.subrange(0, i as int)).last() == v@.subrange(start as int, i as int),
                parse_segments(HeaderView::empty(), split_segments(v@.subrange(0, i as int)).drop_last())
                    == Ok::<HeaderView, Seq<char>>(h@),
            decreases n - i,
        {
            let ghost pre = v@.subrange(0, i as int);
            proof {
                assert(v@.subrange(0, i + 1) =~= pre.push(v@[i as int]));
                lemma_split_push(pre, v@[i as int]);
                lemma_split_nonempty(pre);
                assert(split_segments(pre) =~= split_segments(pre).drop_last().push(
                    split_segments(pre).last(),
                ));
            }
            if v[i] == ';' {
                match h.apply_segment(&v, start, i) {
                    Ok(()) => {},
                    Err(e) => {
                        proof {
                            let rest = v@.subrange(i + 1, n as int);
                            assert(v@ =~= pre + seq![';'] + rest);
                            lemma_split_concat(pre, rest);
                            lemma_parse_error_sticks(
                                HeaderView::empty(),
                                split_segments(pre),
                                split_segments(rest),
                            );
                        }
                        return Err(e);
                    },
                }
                start = i + 1;
                proof {
                    assert(split_segments(v@.subrange(0, i + 1)).drop_last() =~= split_segments(pre));
                    assert(v@.subrange(start as int, i + 1) =~= Seq::<char>::empty());
                }
            } else {
                proof {
                    assert(split_segments(v@.subrange(0, i + 1)).drop_last() =~= split_segments(
                        pre,
                    ).drop_last());
                    assert(v@.subrange(start as int, i + 1) =~= v@.subrange(start as int, i as int).push(
                        v@[i as int],
                    ));
                }
            }
            i = i + 1;
        }
        proof {
            assert(v@.subrange(0, n as int) =~= v@);
            lemma_split_nonempty(v@);
        }
        match h.apply_segment(&v, start, n) {
            Ok(()) => {
                proof {
                    use_type_invariant(&h);
                }
                Ok(h)
            },
            Err(e) => Err(e),
        }
    }
}

impl std::str::FromStr for Header {
    type Err = String;

    fn from_str(s: &str) -> (r: Result<Header, String>)
        ensures
            match parse_header(s@) {
                Ok(h) => r matches Ok(x) && x@ == h,
                Err(e) => r matches Err(m) && m@ == e,
            },
            r matches Ok(x) ==> keys_unique(x@.additional_data),
    {
        Header::parse(s)
    }
}

/// In a list with unique keys, each pair stands at the index of its key.
proof fn lemma_key_index_of_unique(d: Seq<(Seq<char>, Seq<char>)>, i: int)
    requires
        keys_unique(d),
        0 <= i < d.len(),
    ensures
        key_index(d, d[i].0) == Some(i),
{
    let k = d[i].0;
    assert(exists|j: int| 0 <= j < d.len() && d[j].0 == k);
    let c = choose|j: int| 0 <= j < d.len() && d[j].0 == k;
    if c != i {
        assert(d[c].0 != d[i].0);
    }
}

/// Whether every pair of `a` is a pair of `b`, as maps.
fn pairs_within(a: &Vec<(String, String)>, b: &Vec<(String, String)>) -> (r: bool)
    requires
        keys_unique(pairs_view(a@)),
        keys_unique(pairs_view(b@)),
    ensures
        r == (forall|k: Seq<char>| #[trigger]
            pairs_map(pairs_view(a@)).contains_key(k) ==> pairs_map(
                pairs_view(b@),
            ).contains_key(k) && pairs_map(pairs_view(b@))[k] == pairs_map(pairs_view(a@))[k]),
{
    let ghost pa = pairs_view(a@);
    let ghost pb = pairs_view(b@);
    let mut i: usize = 0;
    while i < a.len()
        invariant
            i <= a@.len(),
            pa == pairs_view(a@),
            pb == pairs_view(b@),
            keys_unique(pa),
            keys_unique(pb),
            forall|j: int|
                0 <= j < i ==> #[trigger] key_index(pb, pa[j].0) is Some && pb[key_index(
                    pb,
                    pa[j].0,
                )->0].1 == pa[j].1,
        decreases a.len() - i,
    {
        let (k, v) = &a[i];
        proof {
            lemma_key_index_of_unique(pa, i as int);
        }
        match find_key(b, k.as_str()) {
            Some(j) => {
                if !same_chars(b[j].1.as_str(), v.as_str()) {
                    assert(pairs_map(pa).contains_key(pa[i as int].0));
                    return false;
                }
            },
            None => {
                assert(pairs_map(pa).contains_key(pa[i as int].0));
                return false;
            },
        }
        i = i + 1;
    }
    assert forall|k: Seq<char>| #[trigger]
        pairs_map(pa).contains_key(k) implies pairs_map(pb).contains_key(k) && pairs_map(pb)[k]
        == pairs_map(pa)[k] by {
        let j = key_index(pa, k)->0;
        lemma_key_index_of_unique(pa, j);
        assert(key_index(pb, pa[j].0) is Some);
    }
    true
}

impl PartialEq for Header {
    fn eq(&self, other: &Header) -> (r: bool)
        ensures
            r == self@.same_as(other@),
    {
        proof {
            use_type_invariant(self);
            use_type_invariant(other);
        }
        let same_parent = match (&self.parent_id, &other.parent_id) {
            (Some(a), Some(b)) => a == b,
            (None, None) => true,
            _ => false,
        };
        let r = self.trace_id == other.trace_id && same_parent && self.sampling_decision
            == other.sampling_decision && pairs_within(&self.additional_data, &other.additional_data)
            && pairs_within(&other.additional_data, &self.additional_data);
        proof {
            if self.trace_id@ == other.trace_id@ && same_parent && self.sampling_decision
                == other.sampling_decision {
                let ma = self@.data();
                let mb = other@.data();
                if ma == mb {
                    assert(forall|k: Seq<char>| #[trigger]
                        ma.contains_key(k) ==> mb.contains_key(k) && mb[k] == ma[k]);
                    assert(forall|k: Seq<char>| #[trigger]
                        mb.contains_key(k) ==> ma.contains_key(k) && ma[k] == mb[k]);
                } else if r {
                    assert(ma =~= mb);
                }
            }
        }
        r
    }
}

impl vstd::std_specs::cmp::PartialEqSpecImpl for Header {
    open spec fn obeys_eq_spec() -> bool {
        true
    }

    open spec fn eq_spec(&self, other: &Header) -> bool {
        self@.same_as(other@)
    }
}

/// `x` holds no `;`.
pub open spec fn no_sep(x: Seq<char>) -> bool {
    forall|i: int| 0 <= i < x.len() ==> x[i] != ';'
}

/// A segment that the parser reads as something other than a `key=value` pair.
pub open spec fn reserved(seg: Seq<char>) -> bool {
    ||| starts_with(seg, "Root="@)
    ||| starts_with(seg, "Parent="@)
    ||| starts_with(seg, "Sampled="@)
    ||| starts_with(seg, "Self="@)
}

/// The segment `k=v` that renders a pair.
pub open spec fn pair_segment(p: (Seq<char>, Seq<char>)) -> Seq<char> {
    p.0 + seq!['='] + p.1
}

/// The segments that render a list of pairs.
pub open spec fn pair_segments(d: Seq<(Seq<char>, Seq<char>)>) -> Seq<Seq<char>> {
    Seq::new(d.len(), |i: int| pair_segment(d[i]))
}

/// A pair as the parser leaves it: a key without `=`, no `;` anywhere, and
/// a segment that is read back as a pair.
pub open spec fn pair_ok(p: (Seq<char>, Seq<char>)) -> bool {
    &&& forall|i: int| 0 <= i < p.0.len() ==> p.0[i] != '='
    &&& no_sep(pair_segment(p))
    &&& !reserved(pair_segment(p))
}

/// What holds of every header that the parser yields.
pub open spec fn parsed_ok(h: HeaderView) -> bool {
    &&& match h.trace_id {
        Some(t) => no_sep(t),
        None => true,
    }
    &&& match h.parent_id {
        Some(Some(p)) => no_sep(p),
        Some(None) => false,
        None => true,
    }
    &&& keys_unique(h.additional_data)
    &&& forall|i: int| 0 <= i < h.additional_data.len() ==> #[trigger] pair_ok(h.additional_data[i])
}

proof fn lemma_split_no_sep(s: Seq<char>)
    ensures
        forall|i: int| 0 <= i < split_segments(s).len() ==> no_sep(#[trigger] split_segments(s)[i]),
    decreases s.len(),
{
    if s.len() > 0 {
        let s1 = s.drop_last();
        lemma_split_no_sep(s1);
        lemma_split_nonempty(s1);
        assert(s =~= s1.push(s.last()));
        lemma_split_push(s1, s.last());
        let init = split_segments(s1);
        if s.last() != ';' {
            assert(no_sep(init.last().push(s.last())));
        }
    }
}

proof fn lemma_insert_pair(d: Seq<(Seq<char>, Seq<char>)>, k: Seq<char>, v: Seq<char>)
    requires
        keys_unique(d),
    ensures
        keys_unique(insert_pair(d, k, v)),
        forall|j: int|
            0 <= j < insert_pair(d, k, v).len() ==> #[trigger] insert_pair(d, k, v)[j] == (k, v) || (
            j < d.len() && insert_pair(d, k, v)[j] == d[j]),
{
}

proof fn lemma_apply_keeps_ok(h: HeaderView, seg: Seq<char>)
    requires
        parsed_ok(h),
        no_sep(seg),
        apply_segment(h, seg) is Ok,
    ensures
        parsed_ok(apply_segment(h, seg)->Ok_0),
{
    if !reserved(seg) {
        let i = choose|i: int| is_first_eq(seg, i);
        let k = seg.subrange(0, i);
        let v = seg.subrange(i + 1, seg.len() as int);
        assert(pair_segment((k, v)) =~= seg);
        lemma_insert_pair(h.additional_data, k, v);
        let d = insert_pair(h.additional_data, k, v);
        assert forall|j: int| 0 <= j < d.len() implies #[trigger] pair_ok(d[j]) by {
            if d[j] != (k, v) {
                assert(pair_ok(h.additional_data[j]));
            }
        }
    }
}

proof fn lemma_parse_keeps_ok(segs: Seq<Seq<char>>)
    requires
        forall|i: int| 0 <= i < segs.len() ==> no_sep(#[trigger] segs[i]),
        parse_segments(HeaderView::empty(), segs) is Ok,
    ensures
        parsed_ok(parse_segments(HeaderView::empty(), segs)->Ok_0),
    decreases segs.len(),
{
    if segs.len() > 0 {
        let init = segs.drop_last();
        assert(forall|i: int| 0 <= i < init.len() ==> init[i] == segs[i]);
        lemma_parse_keeps_ok(init);
        assert(no_sep(segs[segs.len() - 1]));
        lemma_apply_keeps_ok(parse_segments(HeaderView::empty(), init)->Ok_0, segs.last());
    }
}

proof fn lemma_split_single(x: Seq<char>)
    requires
        no_sep(x),
    ensures
        split_segments(x) == seq![x],
    decreases x.len(),
{
    if x.len() > 0 {
        let x1 = x.drop_last();
        lemma_split_single(x1);
        assert(x =~= x1.push(x.last()));
        lemma_split_push(x1, x.last());
        assert(x1.push(x.last()) =~= x);
        assert(seq![x1].update(0, x1.push(x.last())) =~= seq![x]);
    } else {
        assert(x =~= Seq::<char>::empty());
    }
}

proof fn lemma_split_pairs(x: Seq<char>, d: Seq<(Seq<char>, Seq<char>)>)
    requires
        forall|i: int| 0 <= i < d.len() ==> no_sep(#[trigger] pair_segment(d[i])),
    ensures
        split_segments(x + pairs_text(d)) == split_segments(x) + pair_segments(d),
    decreases d.len(),
{
    if d.len() == 0 {
        assert(x + pairs_text(d) =~= x);
        assert(split_segments(x) + pair_segments(d) =~= split_segments(x));
    } else {
        let d1 = d.drop_last();
        assert(forall|i: int| 0 <= i < d1.len() ==> d1[i] == d[i]);
        lemma_split_pairs(x, d1);
        let last = pair_segment(d.last());
        assert(no_sep(pair_segment(d[d.len() - 1])));
        assert(x + pairs_text(d) =~= (x + pairs_text(d1)) + seq![';'] + last);
        lemma_split_concat(x + pairs_text(d1), last);
        lemma_split_single(last);
        assert(split_segments(x) + pair_segments(d) =~= split_segments(x) + pair_segments(d1) + seq![
            last,
        ]);
    }
}

proof fn lemma_parse_concat(h: HeaderView, a: Seq<Seq<char>>, b: Seq<Seq<char>>)
    ensures
        parse_segments(h, a + b) == match parse_segments(h, a) {
            Ok(h1) => parse_segments(h1, b),
            Err(e) => Err(e),
        },
    decreases b.len(),
{
    if b.len() == 0 {
        assert(a + b =~= a);
    } else {
        lemma_parse_concat(h, a, b.drop_last());
        assert((a + b).drop_last() =~= a + b.drop_last());
    }
}

proof fn lemma_parse_pairs(base: HeaderView, d: Seq<(Seq<char>, Seq<char>)>)
    requires
        base.additional_data == Seq::<(Seq<char>, Seq<char>)>::empty(),
        keys_unique(d),
        forall|i: int| 0 <= i < d.len() ==> #[trigger] pair_ok(d[i]),
    ensures
        parse_segments(base, pair_segments(d)) == Ok::<HeaderView, Seq<char>>(
            HeaderView { additional_data: d, ..base },
        ),
    decreases d.len(),
{
    if d.len() == 0 {
        assert(d =~= Seq::<(Seq<char>, Seq<char>)>::empty());
        assert(HeaderView { additional_data: d, ..base } == base);
    } else {
        let d1 = d.drop_last();
        assert(pair_segments(d).drop_last() =~= pair_segments(d1));
        lemma_parse_pairs(base, d1);
        let (k, v) = d.last();
        let seg = pair_segment((k, v));
        assert(pair_ok(d[d.len() - 1]));
        assert(pair_segments(d).last() == seg);
        let n = k.len() as int;
        assert(seg[n] == '=');
        assert(is_first_eq(seg, n));
        assert forall|i2: int| is_first_eq(seg, i2) implies i2 == n by {
            if i2 < n {
                assert(seg[i2] == k[i2]);
            }
        }
        assert(seg.subrange(0, n) =~= k);
        assert(seg.subrange(n + 1, seg.len() as int) =~= v);
        assert(!(exists|j: int| 0 <= j < d1.len() && d1[j].0 == k)) by {
            if exists|j: int| 0 <= j < d1.len() && d1[j].0 == k {
                let j = choose|j: int| 0 <= j < d1.len() && d1[j].0 == k;
                assert(d[j].0 == d[d.len() - 1].0);
            }
        }
        assert(d1.push((k, v)) =~= d);
    }
}

/// A header in the form the parser yields is read back unchanged from its
/// rendering.
proof fn lemma_text_round_trip(h: HeaderView)
    requires
        parsed_ok(h),
        h.trace_id is Some,
    ensures
        parse_header(h.text()) == Ok::<HeaderView, Seq<char>>(h),
{
    reveal_strlit("Root=");
    reveal_strlit("Parent=");
    reveal_strlit("Sampled=");
    reveal_strlit("Self=");
    reveal_strlit("Sampled=1");
    reveal_strlit("Sampled=0");
    reveal_strlit("Sampled=?");
    let t = h.trace_id->0;
    let d = h.additional_data;
    let root = "Root="@ + t;
    assert(no_sep(root)) by {
        assert forall|i: int| 0 <= i < root.len() implies root[i] != ';' by {
            if i >= 5 {
                assert(root[i] == t[i - 5]);
            }
        }
    }
    // The segments of the rendering before the additional pairs.
    let parent_segs: Seq<Seq<char>> = match h.parent_id {
        Some(p) => seq!["Parent="@ + id_text(p)],
        None => Seq::empty(),
    };
    let sampling_segs: Seq<Seq<char>> = if h.sampling_decision == SamplingDecision::Unknown {
        Seq::empty()
    } else {
        seq![h.sampling_decision.token()]
    };
    let head_parent = root + match h.parent_id {
        Some(p) => seq![';'] + "Parent="@ + id_text(p),
        None => Seq::empty(),
    };
    let head = head_parent + if h.sampling_decision == SamplingDecision::Unknown {
        Seq::<char>::empty()
    } else {
        seq![';'] + h.sampling_decision.token()
    };
    lemma_split_single(root);
    match h.parent_id {
        Some(p) => {
            let ps = "Parent="@ + id_text(p);
            assert(no_sep(ps)) by {
                assert forall|i: int| 0 <= i < ps.len() implies ps[i] != ';' by {
                    if i >= 7 {
                        assert(ps[i] == id_text(p)[i - 7]);
                    }
                }
            }
            assert(head_parent =~= root + seq![';'] + ps);
            lemma_split_concat(root, ps);
            lemma_split_single(ps);
            assert(split_segments(head_parent) =~= seq![root] + parent_segs);
        },
        None => {
            assert(head_parent =~= root);
            assert(split_segments(head_parent) =~= seq![root] + parent_segs);
        },
    }
    if h.sampling_decision == SamplingDecision::Unknown {
        assert(head =~= head_parent);
        assert(split_segments(head) =~= seq![root] + parent_segs + sampling_segs);
    } else {
        let tok = h.sampling_decision.token();
        assert(head =~= head_parent + seq![';'] + tok);
        lemma_split_concat(head_parent, tok);
        lemma_split_single(tok);
        assert(split_segments(head) =~= seq![root] + parent_segs + sampling_segs);
    }
    assert(forall|i: int| 0 <= i < d.len() ==> no_sep(#[trigger] pair_segment(d[i]))) by {
        assert forall|i: int| 0 <= i < d.len() implies no_sep(#[trigger] pair_segment(d[i])) by {
            assert(pair_ok(d[i]));
        }
    }
    assert(h.text() =~= head + pairs_text(d));
    lemma_split_pairs(head, d);
    let e = HeaderView::empty();
    // Root, then the parent, then the sampling decision.
    assert(root.subrange(0, 5) =~= "Root="@);
    assert(root.subrange(5, root.len() as int) =~= t);
    let h1 = HeaderView { trace_id: Some(t), ..e };
    assert(parse_segments(e, seq![root]) == Ok::<HeaderView, Seq<char>>(h1)) by {
        assert(seq![root].drop_last() =~= Seq::<Seq<char>>::empty());
        assert(parse_segments(e, Seq::<Seq<char>>::empty()) == Ok::<HeaderView, Seq<char>>(e));
    }
    let h2 = HeaderView { parent_id: h.parent_id, ..h1 };
    assert(parse_segments(h1, parent_segs) == Ok::<HeaderView, Seq<char>>(h2)) by {
        match h.parent_id {
            Some(p) => {
                let ps = "Parent="@ + id_text(p);
                assert(parent_segs.drop_last() =~= Seq::<Seq<char>>::empty());
                assert(parse_segments(h1, Seq::<Seq<char>>::empty()) == Ok::<HeaderView, Seq<char>>(h1));
                assert(ps.subrange(0, 7) =~= "Parent="@);
                assert(ps.subrange(7, ps.len() as int) =~= id_text(p));
                assert(!starts_with(ps, "Root="@)) by {
                    assert(ps[0] == 'P');
                    assert(ps.subrange(0, 5)[0] == 'P');
                }
            },
            None => {},
        }
    }
    let h3 = HeaderView { sampling_decision: h.sampling_decision, ..h2 };
    assert(parse_segments(h2, sampling_segs) == Ok::<HeaderView, Seq<char>>(h3)) by {
        if h.sampling_decision != SamplingDecision::Unknown {
            let tok = h.sampling_decision.token();
            assert(sampling_segs.drop_last() =~= Seq::<Seq<char>>::empty());
            assert(parse_segments(h2, Seq::<Seq<char>>::empty()) == Ok::<HeaderView, Seq<char>>(h2));
            assert(tok.subrange(0, 8) =~= "Sampled="@);
            assert(!starts_with(tok, "Root="@)) by {
                assert(tok.subrange(0, 5)[0] == 'S');
            }
            assert(!starts_with(tok, "Parent="@)) by {
                assert(tok.subrange(0, 7)[0] == 'S');
            }
        }
    }
    lemma_parse_concat(e, seq![root], parent_segs);
    lemma_parse_concat(e, seq![root] + parent_segs, sampling_segs);
    lemma_parse_concat(e, seq![root] + parent_segs + sampling_segs, pair_segments(d));
    lemma_parse_pairs(h3, d);
    assert(HeaderView { additional_data: d, ..h3 } == h);
}

/// Parsing normalizes: the rendering of a parsed header that has a trace id
/// parses back to the very same header.
pub proof fn lemma_parse_render_parse(s: Seq<char>)
    requires
        parse_header(s) is Ok,
        parse_header(s)->Ok_0.trace_id is Some,
    ensures
        parse_header(parse_header(s)->Ok_0.text()) == parse_header(s),
{
    lemma_split_no_sep(s);
    lemma_parse_keeps_ok(split_segments(s));
    lemma_text_round_trip(parse_header(s)->Ok_0);
}

/// A segment that is neither recognised nor a `key=value` pair.
pub open spec fn lacks_pair(seg: Seq<char>) -> bool {
    !reserved(seg) && forall|k: int| 0 <= k < seg.len() ==> seg[k] != '='
}

proof fn lemma_first_eq_exists(seg: Seq<char>, k: int)
    requires
        0 <= k < seg.len(),
        seg[k] == '=',
    ensures
        exists|i: int| is_first_eq(seg, i),
    decreases k,
{
    if exists|j: int| 0 <= j < k && seg[j] == '=' {
        let j = choose|j: int| 0 <= j < k && seg[j] == '=';
        lemma_first_eq_exists(seg, j);
    } else {
        assert(is_first_eq(seg, k));
    }
}

proof fn lemma_parse_accepts(h: HeaderView, segs: Seq<Seq<char>>)
    requires
        forall|j: int| 0 <= j < segs.len() ==> !lacks_pair(#[trigger] segs[j]),
    ensures
        parse_segments(h, segs) is Ok,
    decreases segs.len(),
{
    if segs.len() > 0 {
        let init = segs.drop_last();
        assert(forall|j: int| 0 <= j < init.len() ==> init[j] == segs[j]);
        lemma_parse_accepts(h, init);
        let seg = segs.last();
        assert(!lacks_pair(segs[segs.len() - 1]));
        if !reserved(seg) {
            let k = choose|k: int| 0 <= k < seg.len() && seg[k] == '=';
            lemma_first_eq_exists(seg, k);
        }
    }
}

/// A segment that lacks `=` and begins with none of `Root=`, `Parent=`,
/// `Sampled=` and `Self=` makes the whole parse fail, with the error that
/// names the first such segment.
pub proof fn lemma_parse_rejects_bad_segment(s: Seq<char>, i: int)
    requires
        0 <= i < split_segments(s).len(),
        lacks_pair(split_segments(s)[i]),
        forall|j: int| 0 <= j < i ==> !lacks_pair(#[trigger] split_segments(s)[j]),
    ensures
        parse_header(s) == Err::<HeaderView, Seq<char>>(bad_pair_message(split_segments(s)[i])),
{
    let segs = split_segments(s);
    let a = segs.subrange(0, i);
    let b = segs.subrange(i + 1, segs.len() as int);
    assert(forall|j: int| 0 <= j < a.len() ==> a[j] == segs[j]);
    lemma_parse_accepts(HeaderView::empty(), a);
    let seg = segs[i];
    assert(!(exists|k: int| is_first_eq(seg, k)));
    assert(a.push(seg).drop_last() =~= a);
    lemma_parse_error_sticks(HeaderView::empty(), a.push(seg), b);
    assert(a.push(seg) + b =~= segs);
}

} // verus!
