//! The lifecycle of one traced unit of work.
use vstd::prelude::*;

use crate::client::Client;
use crate::header::{clone_opt_id, Header, HeaderView};
use crate::ids::{SegmentId, Seconds};
use crate::namespace::Namespace;
use crate::segment::{Subsegment, SubsegmentView};

verus! {

/// The record that a session reports when it is entered: begun under the
/// header's trace and parent, named by the namespace, then decorated by it.
pub open spec fn opening_record<N: Namespace>(
    header: HeaderView,
    namespace: N,
    name_prefix: Seq<char>,
    id: Option<Seq<char>>,
    start_time: Seconds,
) -> SubsegmentView {
    namespace.decorated(
        SubsegmentView::begun(
            header.trace_id,
            header.parent_id,
            namespace.display_name(name_prefix),
            id,
            start_time,
        ),
    )
}

/// The record that a session reports when it is released: ended, then
/// decorated again by the namespace as it stands then.
pub open spec fn closing_record<N: Namespace>(
    subsegment: SubsegmentView,
    namespace: N,
    end_time: Seconds,
) -> SubsegmentView {
    namespace.decorated(subsegment.ended(end_time))
}

/// The header handed on to downstream calls: this record becomes their parent.
pub open spec fn propagated(header: HeaderView, id: Option<Seq<char>>) -> HeaderView {
    HeaderView { parent_id: Some(id), ..header }
}

/// The records a session reports over its lifetime: the opening record, then
/// the closing record if there is one.
pub open spec fn reported(opening: SubsegmentView, closing: Option<SubsegmentView>) -> Seq<
    SubsegmentView,
> {
    match closing {
        Some(c) => seq![opening, c],
        None => seq![opening],
    }
}

/// A traced unit of work, from its opening report to its closing report.
#[derive(Debug)]
pub enum SubsegmentSession<C: Client, N: Namespace> {
    /// The opening record was sent.
    Entered {
        /// Client for the closing report.
        client: C,
        /// Header to hand on to downstream calls.
        header: Header,
        /// The live record.
        subsegment: Subsegment,
        /// The live namespace.
        namespace: N,
    },
    /// The opening record could not be sent; the session does nothing.
    Failed,
}

impl<C: Client, N: Namespace> SubsegmentSession<C, N> {
    /// The header text to hand on to downstream calls, if any.
    pub open spec fn trace_header(self) -> Option<Seq<char>> {
        match self {
            SubsegmentSession::Entered { header, .. } => Some(header@.text()),
            SubsegmentSession::Failed => None,
        }
    }

    /// The record the session would report when released at `end_time`.
    pub open spec fn closing(self, end_time: Seconds) -> Option<SubsegmentView> {
        match self {
            SubsegmentSession::Entered { subsegment, namespace, .. } => Some(
                closing_record(subsegment@, namespace, end_time),
            ),
            SubsegmentSession::Failed => None,
        }
    }

    /// The session is what entering yields after the opening record
    /// `opening` was sent (`sent`) or not.
    pub open spec fn entered_with(
        self,
        header: HeaderView,
        opening: SubsegmentView,
        namespace: N,
        sent: bool,
    ) -> bool {
        if sent {
            &&& self matches SubsegmentSession::Entered { header: h, subsegment: s, namespace: n, .. }
            &&& h@ == propagated(header, opening.id)
            &&& s@ == opening
            &&& n == namespace
        } else {
            self is Failed
        }
    }

    /// The session is what entering yields under `header`, for `namespace`,
    /// with name prefix `name_prefix`, identifier `id` and start `start_time`,
    /// whichever way the opening send went.
    pub open spec fn entered_from(
        self,
        header: HeaderView,
        namespace: N,
        name_prefix: Seq<char>,
        id: Option<Seq<char>>,
        start_time: Seconds,
    ) -> bool {
        exists|sent: bool|
            self.entered_with(
                header,
                opening_record(header, namespace, name_prefix, id, start_time),
                namespace,
                sent,
            )
    }

    /// Builds the opening record of a session.
    pub fn opening(
        header: &Header,
        namespace: &N,
        name_prefix: &str,
        id: SegmentId,
        start_time: Seconds,
    ) -> (r: Subsegment)
        ensures
            r@ == opening_record(header@, *namespace, name_prefix@, id@, start_time),
    {
        let mut subsegment = Subsegment::begin(
            header.trace_id().clone(),
            clone_opt_id(header.parent_id()),
            namespace.name(name_prefix),
            id,
            start_time,
        );
        namespace.update_subsegment(&mut subsegment);
        subsegment
    }

    /// The session after the opening record was handed to the client: entered
    /// if it was sent, failed otherwise.
    pub fn from_send_outcome(
        client: C,
        header: &Header,
        subsegment: Subsegment,
        namespace: N,
        sent: bool,
    ) -> (r: Self)
        ensures
            r.entered_with(header@, subsegment@, namespace, sent),
    {
        if sent {
            let header = header.with_parent_id(subsegment.id.clone());
            SubsegmentSession::Entered { client, header, subsegment, namespace }
        } else {
            SubsegmentSession::Failed
        }
    }

    /// Enters a session: builds the opening record, sends it, and keeps the
    /// session live only if the send succeeded.
    pub fn new(
        client: C,
        header: &Header,
        namespace: N,
        name_prefix: &str,
        id: SegmentId,
        start_time: Seconds,
    ) -> (r: Self)
        ensures
            r.entered_from(header@, namespace, name_prefix@, id@, start_time),
    {
        let subsegment = Self::opening(header, &namespace, name_prefix, id, start_time);
        let sent = client.send(&subsegment).is_ok();
        Self::from_send_outcome(client, header, subsegment, namespace, sent)
    }

    /// A session that does nothing.
    pub fn failed() -> (r: Self)
        ensures
            r is Failed,
    {
        SubsegmentSession::Failed
    }

    /// The header text to hand on to downstream calls; none once failed.
    pub fn x_amzn_trace_id(&self) -> (r: Option<String>)
        ensures
            match r {
                Some(t) => self.trace_header() == Some(t@),
                None => self.trace_header() is None,
            },
    {
        match self {
            SubsegmentSession::Entered { header, .. } => Some(header.to_string()),
            SubsegmentSession::Failed => None,
        }
    }

    /// The live namespace, for changes before the closing report; none once
    /// failed.
    pub fn namespace_mut(&mut self) -> (r: Option<&mut N>)
        ensures
            match r {
                Some(n) => {
                    &&& *old(self) is Entered
                    &&& *final(self) is Entered
                    &&& *n == old(self)->namespace
                    &&& final(self)->namespace == *final(n)
                    &&& final(self)->client == old(self)->client
                    &&& final(self)->header == old(self)->header
                    &&& final(self)->subsegment == old(self)->subsegment
                },
                None => *old(self) is Failed && *final(self) is Failed,
            },
    {
        match self {
            SubsegmentSession::Entered { namespace, .. } => Some(namespace),
            SubsegmentSession::Failed => None,
        }
    }

    /// Ends the session at `end_time`: gives back the client and the closing
    /// record to send, or nothing once failed.
    pub fn close(self, end_time: Seconds) -> (r: Option<(C, Subsegment)>)
        ensures
            match r {
                Some((c, s)) => {
                    &&& self.closing(end_time) == Some(s@)
                    &&& self matches SubsegmentSession::Entered { client, .. }
                    &&& c == client
                },
                None => self.closing(end_time) is None,
            },
    {
        match self {
            SubsegmentSession::Entered { client, mut subsegment, namespace, .. } => {
                subsegment.end(end_time);
                namespace.update_subsegment(&mut subsegment);
                Some((client, subsegment))
            },
            SubsegmentSession::Failed => None,
        }
    }

    /// Releases the session at `end_time`: an entered session sends its
    /// closing record, the one given by [`Self::close`], and a failure to
    /// send it is dropped; a failed session does nothing. The session is
    /// consumed, so that it is released at most once.
    pub fn release(self, end_time: Seconds) {
        match self.close(end_time) {
            Some((client, subsegment)) => {
                let _ = client.send(&subsegment);
            },
            None => {},
        }
    }
}

/// A session whose opening send failed is inert: it hands on no header, has
/// no live namespace, and reports nothing when released, so that its whole
/// lifetime makes the one opening attempt.
pub proof fn lemma_failed_session_is_inert<C: Client, N: Namespace>(
    s: SubsegmentSession<C, N>,
    header: HeaderView,
    opening: SubsegmentView,
    namespace: N,
    end_time: Seconds,
)
    requires
        s.entered_with(header, opening, namespace, false),
    ensures
        s is Failed,
        s.trace_header() is None,
        s.closing(end_time) is None,
        reported(opening, s.closing(end_time)) == seq![opening],
{
}

/// A session whose opening send succeeded reports exactly two records: the
/// opening one, in progress and without an end time, and the closing one, no
/// longer in progress and ended no earlier than it started. Both carry the
/// drawn identifier and the header's trace id, whatever was done to the live
/// namespace in between.
pub proof fn lemma_entered_session_reports_twice<C: Client, N: Namespace>(
    s: SubsegmentSession<C, N>,
    header: HeaderView,
    namespace: N,
    name_prefix: Seq<char>,
    id: Option<Seq<char>>,
    start_time: Seconds,
    end_time: Seconds,
)
    requires
        s matches SubsegmentSession::Entered { subsegment, .. } && subsegment@ == opening_record(
            header,
            namespace,
            name_prefix,
            id,
            start_time,
        ),
        start_time.micros <= end_time.micros,
    ensures
        ({
            let r = reported(
                opening_record(header, namespace, name_prefix, id, start_time),
                s.closing(end_time),
            );
            &&& r.len() == 2
            &&& r[0].in_progress && r[0].end_time is None
            &&& !r[1].in_progress && r[1].end_time == Some(end_time)
            &&& r[0].start_time == start_time && r[1].start_time == start_time
            &&& r[1].end_time->0.micros >= r[1].start_time.micros
            &&& r[0].id == id && r[1].id == id
            &&& r[0].trace_id == header.trace_id && r[1].trace_id == header.trace_id
        }),
{
    let begun = SubsegmentView::begun(
        header.trace_id,
        header.parent_id,
        namespace.display_name(name_prefix),
        id,
        start_time,
    );
    namespace.lemma_decoration_keeps_identity(begun);
    let opening = opening_record(header, namespace, name_prefix, id, start_time);
    match s {
        SubsegmentSession::Entered { namespace: live, .. } => {
            live.lemma_decoration_keeps_identity(opening.ended(end_time));
        },
        SubsegmentSession::Failed => {},
    }
}

} // verus!
