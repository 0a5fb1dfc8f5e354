//! The receiver side of a link: local credit grants, transfer admission,
//! and the ingress queue the caller drains.
//!
//! Two ghost counters carry the admission law: `granted` counts every unit
//! of credit ever announced to the peer, `admitted` every transfer accepted
//! into the queue.  Well-formedness keeps `admitted + credit == granted`, so
//! the peer can never place more transfers than the credit granted; the
//! transfer that arrives with the credit exhausted detaches the link with
//! `transfer-limit-exceeded`.

use std::collections::VecDeque;

use vstd::prelude::*;

use crate::error::{AmqpError, Condition};
use crate::protocol::{seq_inc, spec_seq_add, Attach, Detach, Disposition, Flow, Role,
    Transfer};

verus! {

/// The credit granted up front when a receiver link opens.
pub const INITIAL_LINK_CREDIT: u32 = 5000;

/// What the link did with an inbound transfer.
pub enum ReceiverAction {
    /// The transfer was admitted; `true` when the parked reader must wake.
    Queued(bool),
    /// The peer overran its credit: the link detaches with this frame.
    Detached(Detach),
}

/// One step of the receiver's lazy transfer sequence.
pub enum LinkPoll {
    /// The next queued transfer.
    Item(Transfer),
    /// The link is closed and the queue is drained: end of stream.
    Closed,
    /// Nothing queued yet; the reader is parked until a wake.
    Pending,
}

pub struct ReceiverLink {
    handle: u32,
    attach: Attach,
    closed: bool,
    reader_waiting: bool,
    queue: VecDeque<Transfer>,
    credit: u32,
    delivery_count: u32,
    error: Option<AmqpError>,
    granted: Ghost<int>,
    admitted: Ghost<int>,
}

impl ReceiverLink {
    pub closed spec fn handle_spec(self) -> u32 {
        self.handle
    }

    pub closed spec fn attach_spec(self) -> Attach {
        self.attach
    }

    pub closed spec fn closed_spec(self) -> bool {
        self.closed
    }

    pub closed spec fn reader_waiting_spec(self) -> bool {
        self.reader_waiting
    }

    pub closed spec fn queue_spec(self) -> Seq<Transfer> {
        self.queue@
    }

    pub closed spec fn credit_spec(self) -> u32 {
        self.credit
    }

    pub closed spec fn delivery_count_spec(self) -> u32 {
        self.delivery_count
    }

    pub closed spec fn error_spec(self) -> Option<AmqpError> {
        self.error
    }

    /// Total credit ever granted to the peer.
    pub closed spec fn granted_count(self) -> int {
        self.granted@
    }

    /// Total transfers ever admitted into the queue.
    pub closed spec fn admitted_count(self) -> int {
        self.admitted@
    }

    /// The delivery count the link started from.
    pub open spec fn initial_delivery_count(self) -> u32 {
        self.attach_spec().initial_delivery_count.unwrap_or(0)
    }

    /// Well-formedness: admissions never outrun grants, the residual credit
    /// is exactly the grants not yet used, and the delivery count counts
    /// admissions from the attach-time origin.
    pub open spec fn wf(self) -> bool {
        &&& self.admitted_count() >= 0
        &&& self.admitted_count() + self.credit_spec() == self.granted_count()
        &&& self.delivery_count_spec() == spec_seq_add(self.initial_delivery_count(),
            self.admitted_count())
    }

    /// A fresh receiver link for a peer attach.
    pub fn new(handle: u32, attach: Attach) -> (r: ReceiverLink)
        ensures
            r.wf(),
            r.handle_spec() == handle,
            r.attach_spec() == attach,
            !r.closed_spec(),
            !r.reader_waiting_spec(),
            r.queue_spec() == Seq::<Transfer>::empty(),
            r.credit_spec() == 0,
            r.delivery_count_spec() == r.initial_delivery_count(),
            r.error_spec() is None,
            r.granted_count() == 0,
            r.admitted_count() == 0,
    {
        let delivery_count = match attach.initial_delivery_count {
            Some(d) => d,
            None => 0,
        };
        proof {
            assert(spec_seq_add(delivery_count, 0) == delivery_count);
        }
        ReceiverLink {
            handle,
            attach,
            closed: false,
            reader_waiting: false,
            queue: VecDeque::new(),
            credit: 0,
            delivery_count,
            error: None,
            granted: Ghost(0),
            admitted: Ghost(0),
        }
    }

    pub fn handle(&self) -> (r: u32)
        ensures
            r == self.handle_spec(),
    {
        self.handle
    }

    pub fn credit(&self) -> (r: u32)
        ensures
            r == self.credit_spec(),
    {
        self.credit
    }

    /// The attach the link was created from.
    pub fn frame(&self) -> (r: &Attach)
        ensures
            *r == self.attach_spec(),
    {
        &self.attach
    }

    pub fn name(&self) -> (r: &String)
        ensures
            r@ == self.attach_spec().name@,
    {
        &self.attach.name
    }

    /// Answer the peer's attach: the local Attach echoing the link's
    /// negotiated properties, under our handle and role.
    pub fn open(&self) -> (r: Attach)
        ensures
            r.name@ == self.attach_spec().name@,
            r.handle == self.handle_spec(),
            r.role is Receiver,
            r.initial_delivery_count == Some(self.delivery_count_spec()),
    {
        Attach {
            name: self.attach.name.clone(),
            handle: self.handle,
            role: Role::Receiver,
            initial_delivery_count: Some(self.delivery_count),
        }
    }

    /// Grant the opening credit: the link-scoped Flow announcing
    /// [`INITIAL_LINK_CREDIT`] to the peer.
    pub fn set_flow(&mut self) -> (flow: Flow)
        requires
            old(self).wf(),
            old(self).credit_spec() + INITIAL_LINK_CREDIT <= u32::MAX,
        ensures
            final(self).wf(),
            final(self).credit_spec() == old(self).credit_spec() + INITIAL_LINK_CREDIT,
            final(self).granted_count() == old(self).granted_count() + INITIAL_LINK_CREDIT,
            final(self).admitted_count() == old(self).admitted_count(),
            final(self).queue_spec() == old(self).queue_spec(),
            flow.handle == Some(old(self).handle_spec()),
            flow.link_credit == Some((old(self).credit_spec() + INITIAL_LINK_CREDIT) as u32),
            flow.delivery_count == Some(old(self).delivery_count_spec()),
    {
        self.set_link_credit(INITIAL_LINK_CREDIT)
    }

    /// Grant `credit` more transfers to the peer; the returned link-scoped
    /// Flow announcing the new total must go out on the session.
    pub fn set_link_credit(&mut self, credit: u32) -> (flow: Flow)
        requires
            old(self).wf(),
            old(self).credit_spec() + credit <= u32::MAX,
        ensures
            final(self).wf(),
            final(self).credit_spec() == old(self).credit_spec() + credit,
            final(self).granted_count() == old(self).granted_count() + credit,
            final(self).admitted_count() == old(self).admitted_count(),
            final(self).queue_spec() == old(self).queue_spec(),
            final(self).closed_spec() == old(self).closed_spec(),
            final(self).delivery_count_spec() == old(self).delivery_count_spec(),
            final(self).handle_spec() == old(self).handle_spec(),
            final(self).attach_spec() == old(self).attach_spec(),
            final(self).error_spec() == old(self).error_spec(),
            final(self).reader_waiting_spec() == old(self).reader_waiting_spec(),
            flow == (Flow {
                next_incoming_id: None::<u32>,
                incoming_window: 0u32,
                next_outgoing_id: 0u32,
                outgoing_window: 0u32,
                handle: Some(old(self).handle_spec()),
                delivery_count: Some(old(self).delivery_count_spec()),
                link_credit: Some((old(self).credit_spec() + credit) as u32),
                available: None::<u32>,
                drain: false,
                echo: false,
            }),
    {
        self.credit = self.credit + credit;
        self.granted = Ghost(self.granted@ + credit);
        Flow {
            next_incoming_id: None,
            incoming_window: 0,
            next_outgoing_id: 0,
            outgoing_window: 0,
            handle: Some(self.handle),
            delivery_count: Some(self.delivery_count),
            link_credit: Some(self.credit),
            available: None,
            drain: false,
            echo: false,
        }
    }

    /// Admit one inbound transfer, or detach the link when the peer has
    /// overrun its credit.
    pub fn handle_transfer(&mut self, transfer: Transfer) -> (r: ReceiverAction)
        requires
            old(self).wf(),
            !old(self).closed_spec(),
        ensures
            final(self).wf(),
            final(self).handle_spec() == old(self).handle_spec(),
            final(self).attach_spec() == old(self).attach_spec(),
            final(self).granted_count() == old(self).granted_count(),
            if old(self).credit_spec() == 0 {
                &&& (r matches ReceiverAction::Detached(d) && d == (Detach {
                    handle: old(self).handle_spec(),
                    closed: true,
                    error: Some(AmqpError { condition: Condition::TransferLimitExceeded }),
                }))
                &&& final(self).closed_spec()
                &&& final(self).error_spec() == Some(AmqpError {
                    condition: Condition::TransferLimitExceeded })
                &&& final(self).queue_spec() == old(self).queue_spec()
                &&& final(self).credit_spec() == 0
                &&& final(self).admitted_count() == old(self).admitted_count()
                &&& final(self).delivery_count_spec() == old(self).delivery_count_spec()
            } else {
                &&& r matches ReceiverAction::Queued(wake)
                    && wake == (old(self).queue_spec().len() == 0)
                &&& final(self).queue_spec() == old(self).queue_spec().push(transfer)
                &&& final(self).credit_spec() == old(self).credit_spec() - 1
                &&& final(self).admitted_count() == old(self).admitted_count() + 1
                &&& final(self).delivery_count_spec() == spec_seq_add(
                    old(self).delivery_count_spec(), 1)
                &&& !final(self).closed_spec()
                &&& final(self).error_spec() == old(self).error_spec()
            },
    {
        if self.credit == 0 {
            let err = AmqpError { condition: Condition::TransferLimitExceeded };
            self.closed = true;
            self.error = Some(err);
            ReceiverAction::Detached(Detach { handle: self.handle, closed: true, error: Some(err) })
        } else {
            self.credit = self.credit - 1;
            self.delivery_count = seq_inc(self.delivery_count);
            self.admitted = Ghost(self.admitted@ + 1);
            let wake = self.queue.len() == 0;
            self.queue.push_back(transfer);
            if wake {
                self.reader_waiting = false;
            }
            proof {
                assert(spec_seq_add(spec_seq_add(self.initial_delivery_count(),
                    old(self).admitted_count()), 1)
                    == spec_seq_add(self.initial_delivery_count(),
                        old(self).admitted_count() + 1));
            }
            ReceiverAction::Queued(wake)
        }
    }

    /// One step of the transfer sequence: the next queued transfer, the end
    /// of the stream once the link is closed and drained, or a parked reader.
    pub fn poll(&mut self) -> (r: LinkPoll)
        requires
            old(self).wf(),
        ensures
            final(self).wf(),
            final(self).handle_spec() == old(self).handle_spec(),
            final(self).attach_spec() == old(self).attach_spec(),
            final(self).closed_spec() == old(self).closed_spec(),
            final(self).credit_spec() == old(self).credit_spec(),
            final(self).granted_count() == old(self).granted_count(),
            final(self).admitted_count() == old(self).admitted_count(),
            final(self).delivery_count_spec() == old(self).delivery_count_spec(),
            final(self).error_spec() == old(self).error_spec(),
            if old(self).queue_spec().len() > 0 {
                &&& (r matches LinkPoll::Item(t) && t == old(self).queue_spec()[0])
                &&& final(self).queue_spec() == old(self).queue_spec().drop_first()
                &&& final(self).reader_waiting_spec() == old(self).reader_waiting_spec()
            } else if old(self).closed_spec() {
                &&& r is Closed
                &&& final(self).queue_spec() == old(self).queue_spec()
                &&& final(self).reader_waiting_spec() == old(self).reader_waiting_spec()
            } else {
                &&& r is Pending
                &&& final(self).queue_spec() == old(self).queue_spec()
                &&& final(self).reader_waiting_spec()
            },
    {
        match self.queue.pop_front() {
            Some(t) => LinkPoll::Item(t),
            None => {
                if self.closed {
                    LinkPoll::Closed
                } else {
                    self.reader_waiting = true;
                    LinkPoll::Pending
                }
            },
        }
    }

    /// Close the link locally: the returned Detach must go out, unless the
    /// link was already closed.  Queued transfers stay readable.
    pub fn close(&mut self, error: Option<AmqpError>) -> (r: Option<Detach>)
        requires
            old(self).wf(),
        ensures
            final(self).wf(),
            final(self).handle_spec() == old(self).handle_spec(),
            final(self).attach_spec() == old(self).attach_spec(),
            final(self).queue_spec() == old(self).queue_spec(),
            final(self).credit_spec() == old(self).credit_spec(),
            final(self).granted_count() == old(self).granted_count(),
            final(self).admitted_count() == old(self).admitted_count(),
            final(self).delivery_count_spec() == old(self).delivery_count_spec(),
            final(self).error_spec() == old(self).error_spec(),
            final(self).closed_spec(),
            r == if old(self).closed_spec() {
                None::<Detach>
            } else {
                Some(Detach { handle: old(self).handle_spec(), closed: true, error })
            },
    {
        if self.closed {
            None
        } else {
            self.closed = true;
            Some(Detach { handle: self.handle, closed: true, error })
        }
    }

    /// Close the link with an error.
    pub fn close_with_error(&mut self, error: AmqpError) -> (r: Option<Detach>)
        requires
            old(self).wf(),
        ensures
            final(self).wf(),
            final(self).closed_spec(),
            final(self).queue_spec() == old(self).queue_spec(),
            r == if old(self).closed_spec() {
                None::<Detach>
            } else {
                Some(Detach { handle: old(self).handle_spec(), closed: true,
                    error: Some(error) })
            },
    {
        self.close(Some(error))
    }

    /// Forward a disposition for received transfers onto the session's
    /// outbound queue, verbatim.
    pub fn send_disposition(&self, disp: Disposition) -> (r: Disposition)
        ensures
            r == disp,
    {
        disp
    }
}

/// Law: between any two credit grants, a well-formed receiver link has
/// admitted no more transfers than the total credit ever granted, and the
/// residual credit is exactly the difference.
pub proof fn lemma_receiver_admission(l: ReceiverLink)
    requires
        l.wf(),
    ensures
        l.admitted_count() <= l.granted_count(),
        l.granted_count() - l.admitted_count() == l.credit_spec(),
{
}

} // verus!
