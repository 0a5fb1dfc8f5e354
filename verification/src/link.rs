//! The sender side of a link: peer-granted credit, the FIFO queue of
//! transfers waiting for credit, and the delivery-count bookkeeping.
//!
//! Two ghost logs pin the flow-control engine down: `sent` records every
//! message handed to [`SenderLink::send`] in call order, `emitted` records
//! every transfer handed to the session for the wire, in wire order.  The
//! well-formedness invariant keeps `emitted` a prefix of `sent` with the
//! pending queue as the remainder, which is exactly the FIFO guarantee.

use std::collections::VecDeque;

use vstd::prelude::*;

use crate::error::AmqpTransportError;
use crate::protocol::{seq_inc, seq_modulus, spec_seq_add, Flow, Handle, Message};

verus! {

/// A transfer the link hands to its session for immediate emission.
pub struct TransferOut {
    /// The link's own id (its local handle).
    pub link: u32,
    /// The handle stamped on the outgoing Transfer frame.
    pub remote_handle: Handle,
    /// The delivery tag correlating the transfer with its promise.
    pub tag: u32,
    pub message: Message,
}

/// A send that had to wait for credit.
pub struct PendingTransfer {
    pub tag: u32,
    pub message: Message,
}

/// What a `send` call did.
pub enum SendResult {
    /// Credit was available: the transfer goes to the session now.
    Emitted(TransferOut),
    /// No credit: the message waits in the pending queue under this tag.
    Queued(u32),
}

pub struct SenderLink {
    id: u32,
    name: String,
    remote_handle: Handle,
    delivery_count: u32,
    link_credit: u32,
    pending_transfers: VecDeque<PendingTransfer>,
    error: Option<AmqpTransportError>,
    next_tag: u32,
    sent: Ghost<Seq<Message>>,
    emitted: Ghost<Seq<Message>>,
    failed: Ghost<Seq<Message>>,
}

/// The credit a link holds after a peer Flow carrying `delivery-count`
/// `fdc` and `link-credit` `fc`, seen with our delivery count `dc`: the
/// peer's view of the end of the credit window, minus our progress, floored
/// at zero and saturated at the largest credit.
pub open spec fn spec_flow_credit(fdc: u32, fc: u32, dc: u32) -> u32 {
    let raw = fdc + fc - dc;
    if raw < 0 {
        0u32
    } else if raw > u32::MAX {
        u32::MAX
    } else {
        raw as u32
    }
}

impl SenderLink {
    pub closed spec fn id_spec(self) -> u32 {
        self.id
    }

    pub closed spec fn name_spec(self) -> Seq<char> {
        self.name@
    }

    pub closed spec fn remote_handle_spec(self) -> Handle {
        self.remote_handle
    }

    pub closed spec fn delivery_count_spec(self) -> u32 {
        self.delivery_count
    }

    pub closed spec fn credit(self) -> u32 {
        self.link_credit
    }

    pub closed spec fn pending(self) -> Seq<PendingTransfer> {
        self.pending_transfers@
    }

    pub closed spec fn error_spec(self) -> Option<AmqpTransportError> {
        self.error
    }

    pub closed spec fn next_tag_spec(self) -> u32 {
        self.next_tag
    }

    /// Every message handed to `send`, in call order.
    pub closed spec fn sent_log(self) -> Seq<Message> {
        self.sent@
    }

    /// Every message emitted towards the wire, in wire order.
    pub closed spec fn emitted_log(self) -> Seq<Message> {
        self.emitted@
    }

    /// Every pending message dropped when the link failed.
    pub closed spec fn failed_log(self) -> Seq<Message> {
        self.failed@
    }

    /// The messages of the pending queue, front first.
    pub open spec fn pending_messages(self) -> Seq<Message> {
        self.pending().map_values(|pt: PendingTransfer| pt.message)
    }

    /// Well-formedness: what was sent is what went out, then what waits (or,
    /// once the link failed, what was dropped); queued sends exist only while
    /// credit is exhausted; the delivery count counts emissions; tags are the
    /// send-call indices.
    pub open spec fn wf(self) -> bool {
        &&& self.error_spec() is None ==> {
            &&& self.failed_log() == Seq::<Message>::empty()
            &&& self.sent_log() == self.emitted_log() + self.pending_messages()
        }
        &&& self.error_spec() is Some ==> {
            &&& self.pending().len() == 0
            &&& self.sent_log() == self.emitted_log() + self.failed_log()
        }
        &&& self.pending().len() > 0 ==> self.credit() == 0
        &&& self.delivery_count_spec() == self.emitted_log().len() as int % seq_modulus()
        &&& self.next_tag_spec() == self.sent_log().len()
        &&& forall|i: int|
            0 <= i < self.pending().len() ==> #[trigger] self.pending()[i].tag
                == self.emitted_log().len() + i
    }

    /// A fresh sender link with no credit and nothing sent.
    pub fn new(id: u32, name: String, remote_handle: Handle) -> (r: SenderLink)
        ensures
            r.wf(),
            r.id_spec() == id,
            r.name_spec() == name@,
            r.remote_handle_spec() == remote_handle,
            r.delivery_count_spec() == 0,
            r.credit() == 0,
            r.pending() == Seq::<PendingTransfer>::empty(),
            r.error_spec() is None,
            r.sent_log() == Seq::<Message>::empty(),
            r.emitted_log() == Seq::<Message>::empty(),
    {
        SenderLink {
            id,
            name,
            remote_handle,
            delivery_count: 0,
            link_credit: 0,
            pending_transfers: VecDeque::new(),
            error: None,
            next_tag: 0,
            sent: Ghost(Seq::empty()),
            emitted: Ghost(Seq::empty()),
            failed: Ghost(Seq::empty()),
        }
    }

    pub fn id(&self) -> (r: u32)
        ensures
            r == self.id_spec(),
    {
        self.id
    }

    pub fn name(&self) -> (r: &String)
        ensures
            r@ == self.name_spec(),
    {
        &self.name
    }

    pub fn credit_left(&self) -> (r: u32)
        ensures
            r == self.credit(),
    {
        self.link_credit
    }

    pub fn delivery_count(&self) -> (r: u32)
        ensures
            r == self.delivery_count_spec(),
    {
        self.delivery_count
    }

    /// Send one message on the link.  With credit in hand the transfer goes
    /// to the session at once; without, it waits its turn in FIFO order.  A
    /// terminally failed link refuses the send.
    pub fn send(&mut self, message: Message) -> (r: Result<SendResult, AmqpTransportError>)
        requires
            old(self).wf(),
            old(self).next_tag_spec() < u32::MAX,
        ensures
            final(self).wf(),
            final(self).id_spec() == old(self).id_spec(),
            final(self).name_spec() == old(self).name_spec(),
            final(self).remote_handle_spec() == old(self).remote_handle_spec(),
            final(self).error_spec() == old(self).error_spec(),
            old(self).error_spec() matches Some(e) ==> r == Err::<SendResult,
                AmqpTransportError>(e) && *final(self) == *old(self),
            old(self).error_spec() is None ==> {
                &&& final(self).sent_log() == old(self).sent_log().push(message)
                &&& final(self).next_tag_spec() == old(self).next_tag_spec() + 1
                &&& if old(self).credit() == 0 {
                    &&& r == Ok::<SendResult, AmqpTransportError>(SendResult::Queued(
                        old(self).next_tag_spec()))
                    &&& final(self).emitted_log() == old(self).emitted_log()
                    &&& final(self).pending() == old(self).pending().push(
                        PendingTransfer { tag: old(self).next_tag_spec(), message })
                    &&& final(self).credit() == 0
                    &&& final(self).delivery_count_spec() == old(self).delivery_count_spec()
                } else {
                    &&& (r matches Ok(SendResult::Emitted(t)) && t.link == old(self).id_spec()
                        && t.remote_handle == old(self).remote_handle_spec()
                        && t.tag == old(self).next_tag_spec() && t.message == message)
                    &&& final(self).emitted_log() == old(self).emitted_log().push(message)
                    &&& final(self).pending() == old(self).pending()
                    &&& final(self).credit() == old(self).credit() - 1
                    &&& final(self).delivery_count_spec() == spec_seq_add(
                        old(self).delivery_count_spec(), 1)
                }
            },
    {
        if let Some(e) = self.error {
            return Err(e);
        }
        let tag = self.next_tag;
        self.next_tag = self.next_tag + 1;
        self.sent = Ghost(self.sent@.push(message));
        if self.link_credit == 0 {
            self.pending_transfers.push_back(PendingTransfer { tag, message });
            proof {
                assert(self.sent_log() =~= self.emitted_log() + self.pending_messages());
            }
            Ok(SendResult::Queued(tag))
        } else {
            self.link_credit = self.link_credit - 1;
            self.delivery_count = seq_inc(self.delivery_count);
            let out = TransferOut {
                link: self.id,
                remote_handle: self.remote_handle,
                tag,
                message,
            };
            self.emitted = Ghost(self.emitted@.push(message));
            proof {
                assert(old(self).pending().len() == 0);
                assert(self.sent_log() =~= self.emitted_log() + self.pending_messages());
                assert((old(self).emitted_log().len() as int + 1) % seq_modulus()
                    == spec_seq_add(old(self).delivery_count_spec(), 1)) by {
                    assert(old(self).delivery_count_spec()
                        == old(self).emitted_log().len() as int % seq_modulus());
                };
            }
            Ok(SendResult::Emitted(out))
        }
    }

    /// Apply a peer Flow to the link: recompute the credit from the peer's
    /// counters, then drain the pending queue from the front until it is
    /// empty or credit runs out.  When the peer asked for an echo, the reply
    /// Flow carries the link's counters after the drain.
    pub fn apply_flow(&mut self, flow: &Flow) -> (r: (Vec<TransferOut>, Option<Flow>))
        requires
            old(self).wf(),
        ensures
            final(self).wf(),
            final(self).id_spec() == old(self).id_spec(),
            final(self).name_spec() == old(self).name_spec(),
            final(self).remote_handle_spec() == old(self).remote_handle_spec(),
            final(self).error_spec() == old(self).error_spec(),
            final(self).sent_log() == old(self).sent_log(),
            final(self).next_tag_spec() == old(self).next_tag_spec(),
            ({
                let fc = flow.link_credit;
                let granted = spec_flow_credit(flow.delivery_count.unwrap_or(0), fc->0,
                    old(self).delivery_count_spec());
                let k = if old(self).pending().len() <= granted {
                    old(self).pending().len() as int
                } else {
                    granted as int
                };
                fc is Some ==> {
                    &&& final(self).credit() == granted - k
                    &&& final(self).pending() == old(self).pending().skip(k)
                    &&& final(self).emitted_log() == old(self).emitted_log()
                        + old(self).pending_messages().take(k)
                    &&& final(self).delivery_count_spec() == spec_seq_add(
                        old(self).delivery_count_spec(), k)
                    &&& r.0@.len() == k
                    &&& forall|i: int| 0 <= i < k ==> #[trigger] r.0@[i] == (TransferOut {
                        link: old(self).id_spec(),
                        remote_handle: old(self).remote_handle_spec(),
                        tag: old(self).pending()[i].tag,
                        message: old(self).pending()[i].message,
                    })
                }
            }),
            flow.link_credit is None ==> *final(self) == *old(self) && r.0@.len() == 0,
            r.1 == if flow.echo {
                Some(Flow {
                    next_incoming_id: None::<u32>,
                    incoming_window: 0u32,
                    next_outgoing_id: 0u32,
                    outgoing_window: 0u32,
                    handle: Some(final(self).id_spec()),
                    delivery_count: Some(final(self).delivery_count_spec()),
                    link_credit: Some(final(self).credit()),
                    available: None::<u32>,
                    drain: false,
                    echo: false,
                })
            } else {
                None::<Flow>
            },
    {
        let mut out: Vec<TransferOut> = Vec::new();
        if let Some(fc) = flow.link_credit {
            let fdc = match flow.delivery_count {
                Some(d) => d,
                None => 0,
            };
            // The peer's view of the end of the credit window, minus our
            // delivery count, clamped into u32.
            let window_end: u64 = fdc as u64 + fc as u64;
            let have: u64 = self.delivery_count as u64;
            let granted: u32 = if window_end <= have {
                0
            } else if window_end - have > u32::MAX as u64 {
                u32::MAX
            } else {
                (window_end - have) as u32
            };
            assert(granted == spec_flow_credit(fdc, fc, old(self).delivery_count_spec()));
            self.link_credit = granted;
            proof {
                if self.pending_transfers@.len() > 0 && granted == 0 {
                    assert(self.sent_log() =~= self.emitted_log() + self.pending_messages());
                }
            }
            while self.link_credit > 0 && self.pending_transfers.len() > 0
                invariant
                    old(self).wf(),
                    old(self).error_spec() is None ==> self.error_spec() is None,
                    old(self).error_spec() is Some ==> out@.len() == 0
                        && self.pending_transfers@.len() == 0,
                    self.id == old(self).id_spec(),
                    self.name@ == old(self).name_spec(),
                    self.remote_handle == old(self).remote_handle_spec(),
                    self.error == old(self).error_spec(),
                    self.sent@ == old(self).sent_log(),
                    self.failed@ == old(self).failed_log(),
                    self.next_tag == old(self).next_tag_spec(),
                    out@.len() <= old(self).pending().len(),
                    out@.len() <= granted,
                    self.link_credit == granted - out@.len(),
                    self.pending_transfers@ == old(self).pending().skip(out@.len() as int),
                    self.emitted@ == old(self).emitted_log()
                        + old(self).pending_messages().take(out@.len() as int),
                    self.delivery_count == spec_seq_add(old(self).delivery_count_spec(),
                        out@.len() as int),
                    forall|i: int| 0 <= i < out@.len() ==> #[trigger] out@[i] == (TransferOut {
                        link: old(self).id_spec(),
                        remote_handle: old(self).remote_handle_spec(),
                        tag: old(self).pending()[i].tag,
                        message: old(self).pending()[i].message,
                    }),
                decreases self.pending_transfers@.len(),
            {
                let pt = self.pending_transfers.pop_front().unwrap();
                self.link_credit = self.link_credit - 1;
                self.delivery_count = seq_inc(self.delivery_count);
                self.emitted = Ghost(self.emitted@.push(pt.message));
                let ghost n = out@.len() as int;
                out.push(TransferOut {
                    link: self.id,
                    remote_handle: self.remote_handle,
                    tag: pt.tag,
                    message: pt.message,
                });
                proof {
                    assert(old(self).pending()[n].message
                        == old(self).pending_messages()[n]);
                    assert(old(self).pending_messages().take(n + 1)
                        =~= old(self).pending_messages().take(n).push(
                            old(self).pending_messages()[n]));
                    assert(spec_seq_add(spec_seq_add(old(self).delivery_count_spec(), n), 1)
                        == spec_seq_add(old(self).delivery_count_spec(), n + 1));
                }
            }
            proof {
                let k = out@.len() as int;
                if self.error is None {
                    assert(old(self).sent_log() =~= old(self).emitted_log()
                        + old(self).pending_messages());
                    assert(self.sent_log() =~= self.emitted_log() + self.pending_messages())
                        by {
                        assert(old(self).pending_messages()
                            =~= old(self).pending_messages().take(k)
                            + old(self).pending_messages().skip(k));
                        assert(self.pending_messages()
                            =~= old(self).pending_messages().skip(k));
                    };
                } else {
                    assert(self.sent_log() =~= self.emitted_log() + self.failed_log()) by {
                        assert(old(self).pending().len() == 0);
                        assert(self.emitted_log() =~= old(self).emitted_log());
                    };
                }
                assert(self.delivery_count_spec() == self.emitted_log().len() as int % seq_modulus())
                    by {
                    assert(self.emitted_log().len() == old(self).emitted_log().len() + k);
                    assert(old(self).delivery_count_spec()
                        == old(self).emitted_log().len() as int % seq_modulus());
                };
                assert forall|i: int| 0 <= i < self.pending().len()
                    implies #[trigger] self.pending()[i].tag
                        == self.emitted_log().len() + i by {
                    assert(self.pending()[i] == old(self).pending()[k + i]);
                };
            }
        }
        let reply = if flow.echo {
            Some(Flow {
                next_incoming_id: None,
                incoming_window: 0,
                next_outgoing_id: 0,
                outgoing_window: 0,
                handle: Some(self.id),
                delivery_count: Some(self.delivery_count),
                link_credit: Some(self.link_credit),
                available: None,
                drain: false,
                echo: false,
            })
        } else {
            None
        };
        (out, reply)
    }

    /// Fail the link terminally: every pending transfer is dropped and its
    /// tag reported so the caller can fail the matching promises.
    pub fn set_error(&mut self, err: AmqpTransportError) -> (failed: Vec<u32>)
        requires
            old(self).wf(),
        ensures
            final(self).wf(),
            final(self).id_spec() == old(self).id_spec(),
            final(self).name_spec() == old(self).name_spec(),
            final(self).remote_handle_spec() == old(self).remote_handle_spec(),
            final(self).error_spec() == Some(err),
            final(self).pending().len() == 0,
            final(self).emitted_log() == old(self).emitted_log(),
            final(self).sent_log() == old(self).sent_log(),
            final(self).credit() == old(self).credit(),
            final(self).delivery_count_spec() == old(self).delivery_count_spec(),
            failed@.len() == old(self).pending().len(),
            forall|i: int| 0 <= i < failed@.len() ==> #[trigger] failed@[i]
                == old(self).pending()[i].tag,
    {
        let mut failed: Vec<u32> = Vec::new();
        while self.pending_transfers.len() > 0
            invariant
                failed@.len() <= old(self).pending().len(),
                self.pending_transfers@ == old(self).pending().skip(failed@.len() as int),
                forall|i: int| 0 <= i < failed@.len() ==> #[trigger] failed@[i]
                    == old(self).pending()[i].tag,
                self.id == old(self).id_spec(),
                self.name@ == old(self).name_spec(),
                self.remote_handle == old(self).remote_handle_spec(),
                self.error == old(self).error_spec(),
                self.sent@ == old(self).sent_log(),
                self.emitted@ == old(self).emitted_log(),
                self.failed@ == old(self).failed_log(),
                self.next_tag == old(self).next_tag_spec(),
                self.link_credit == old(self).credit(),
                self.delivery_count == old(self).delivery_count_spec(),
            decreases self.pending_transfers@.len(),
        {
            let pt = self.pending_transfers.pop_front().unwrap();
            failed.push(pt.tag);
        }
        self.error = Some(err);
        self.failed = Ghost(if old(self).error_spec() is None {
            old(self).pending_messages()
        } else {
            old(self).failed_log()
        });
        proof {
            if old(self).error_spec() is None {
                assert(self.sent_log() =~= self.emitted_log() + self.failed_log());
            }
        }
        failed
    }

    /// The peer detached the link: same terminal failure as [`Self::set_error`].
    pub fn detached(&mut self, err: AmqpTransportError) -> (failed: Vec<u32>)
        requires
            old(self).wf(),
        ensures
            final(self).wf(),
            final(self).error_spec() == Some(err),
            final(self).pending().len() == 0,
            final(self).emitted_log() == old(self).emitted_log(),
            final(self).sent_log() == old(self).sent_log(),
            failed@.len() == old(self).pending().len(),
            forall|i: int| 0 <= i < failed@.len() ==> #[trigger] failed@[i]
                == old(self).pending()[i].tag,
    {
        self.set_error(err)
    }
}

/// Law: on a well-formed sender link, the transfers that reached the wire
/// are exactly the first sends, in call order; the delivery count equals the
/// number of emitted transfers modulo 2^32; and the credit, a `u32`, never
/// goes negative.
pub proof fn lemma_sender_fifo(l: SenderLink)
    requires
        l.wf(),
    ensures
        l.emitted_log().is_prefix_of(l.sent_log()),
        l.delivery_count_spec() == l.emitted_log().len() as int % seq_modulus(),
        l.credit() >= 0,
{
    if l.error_spec() is None {
        assert(l.emitted_log() =~= l.sent_log().take(l.emitted_log().len() as int));
    } else {
        assert(l.emitted_log() =~= l.sent_log().take(l.emitted_log().len() as int));
    }
}

/// Law: a peer Flow with effective delta `d` (the peer's counters against
/// ours) raises the credit by exactly `d` when `d` is positive, and floors
/// the contraction at zero otherwise.
pub proof fn lemma_flow_credit_delta(fdc: u32, fc: u32, dc: u32, credit: u32)
    requires
        fdc + fc - dc <= u32::MAX,
    ensures
        ({
            let d = (fdc + fc) - (dc + credit);
            spec_flow_credit(fdc, fc, dc) == if credit + d >= 0 {
                credit + d
            } else {
                0
            }
        }),
{
}

} // verus!
