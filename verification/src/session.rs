//! The session: window accounting, the link handle table, delivery-id
//! stamping, and the unsettled map correlating outgoing deliveries with the
//! peer's dispositions.
//!
//! Delivery ids are stamped strictly increasing from the session's first
//! outgoing id; the unsettled map is kept sorted by id, so every id names at
//! most one live promise and dispositions resolve promises in id order.
//! (On the wire delivery ids are a wrapping `u32`; disposition ranges never
//! span the wrap boundary by protocol, and the model stops short of the
//! id space's end rather than wrap.)

use std::collections::VecDeque;

use vstd::prelude::*;

use crate::error::{AmqpError, Condition};
use crate::link::TransferOut;
use crate::protocol::{seq_inc, spec_seq_add, Attach, Begin, Flow, Role, Transfer};

verus! {

/// The incoming window announced in Begin and in replenishing Flows.
pub const SESSION_WINDOW: u32 = 5000;

/// Replenish the incoming window once it falls below this.
pub const WINDOW_LOW_WATERMARK: u32 = 32;

/// One outgoing delivery awaiting a terminal disposition.
#[derive(Clone, Copy, Debug, PartialEq, Eq, Structural)]
pub struct UnsettledDelivery {
    /// The delivery id stamped on the Transfer.
    pub delivery_id: u32,
    /// The id of the sender link the delivery went out on.
    pub link: u32,
    /// The link-scoped tag naming the delivery's promise.
    pub tag: u32,
}

/// Whether a disposition range `[lo, hi]` covers the entry.
pub open spec fn spec_in_range(e: UnsettledDelivery, lo: u32, hi: u32) -> bool {
    lo <= e.delivery_id <= hi
}

/// Entries sorted strictly by delivery id: every id names at most one entry.
pub open spec fn spec_sorted(entries: Seq<UnsettledDelivery>) -> bool {
    forall|i: int, j: int|
        0 <= i < j < entries.len() ==> #[trigger] entries[i].delivery_id
            < #[trigger] entries[j].delivery_id
}

/// Every delivery id among the entries lies below `b`.
pub open spec fn spec_ids_below(entries: Seq<UnsettledDelivery>, b: int) -> bool {
    forall|i: int| 0 <= i < entries.len() ==> #[trigger] entries[i].delivery_id < b
}

/// The unsettled entries a disposition over `[lo, hi]` resolves, in stored
/// (id) order.
pub open spec fn spec_resolved(entries: Seq<UnsettledDelivery>, lo: u32, hi: u32)
    -> Seq<UnsettledDelivery>
    decreases entries.len(),
{
    if entries.len() == 0 {
        Seq::empty()
    } else if spec_in_range(entries[0], lo, hi) {
        seq![entries[0]] + spec_resolved(entries.drop_first(), lo, hi)
    } else {
        spec_resolved(entries.drop_first(), lo, hi)
    }
}

/// The unsettled entries such a disposition leaves in place, in order.
pub open spec fn spec_kept(entries: Seq<UnsettledDelivery>, lo: u32, hi: u32)
    -> Seq<UnsettledDelivery>
    decreases entries.len(),
{
    if entries.len() == 0 {
        Seq::empty()
    } else if spec_in_range(entries[0], lo, hi) {
        spec_kept(entries.drop_first(), lo, hi)
    } else {
        seq![entries[0]] + spec_kept(entries.drop_first(), lo, hi)
    }
}

/// How often `id` occurs among the entries.
pub open spec fn spec_id_count(entries: Seq<UnsettledDelivery>, id: u32) -> int {
    entries.filter(|e: UnsettledDelivery| e.delivery_id == id).len() as int
}

pub struct Session {
    local_channel: u16,
    remote_channel: Option<u16>,
    next_outgoing_id: u32,
    outgoing_window: u32,
    next_incoming_id: u32,
    incoming_window: u32,
    remote_incoming_window: u32,
    remote_outgoing_window: u32,
    handle_max: u32,
    handles: Vec<bool>,
    /// remote handle -> local handle, indexed by remote handle.
    remote_handles: Vec<Option<u32>>,
    unsettled: Vec<UnsettledDelivery>,
    deferred: VecDeque<(TransferOut, bool)>,
}

impl Session {
    pub closed spec fn local_channel_spec(self) -> u16 {
        self.local_channel
    }

    pub closed spec fn remote_channel_spec(self) -> Option<u16> {
        self.remote_channel
    }

    pub closed spec fn next_outgoing_id_spec(self) -> u32 {
        self.next_outgoing_id
    }

    pub closed spec fn next_incoming_id_spec(self) -> u32 {
        self.next_incoming_id
    }

    pub closed spec fn incoming_window_spec(self) -> u32 {
        self.incoming_window
    }

    pub closed spec fn outgoing_window_spec(self) -> u32 {
        self.outgoing_window
    }

    pub closed spec fn remote_incoming_window_spec(self) -> u32 {
        self.remote_incoming_window
    }

    pub closed spec fn remote_outgoing_window_spec(self) -> u32 {
        self.remote_outgoing_window
    }

    pub closed spec fn handle_max_spec(self) -> u32 {
        self.handle_max
    }

    pub closed spec fn handles_spec(self) -> Seq<bool> {
        self.handles@
    }

    pub closed spec fn remote_handles_spec(self) -> Seq<Option<u32>> {
        self.remote_handles@
    }

    /// The local handle an inbound remote handle maps to.
    pub open spec fn spec_handle_mapped(self, remote_handle: u32) -> Option<u32> {
        if remote_handle < self.remote_handles_spec().len() {
            self.remote_handles_spec()[remote_handle as int]
        } else {
            None
        }
    }

    pub closed spec fn unsettled_spec(self) -> Seq<UnsettledDelivery> {
        self.unsettled@
    }

    pub closed spec fn deferred_spec(self) -> Seq<(TransferOut, bool)> {
        self.deferred@
    }

    /// Whether local handle `h` names a live link.
    pub open spec fn handle_in_use(self, h: u32) -> bool {
        h < self.handles_spec().len() && self.handles_spec()[h as int]
    }

    /// Well-formedness: the unsettled map is sorted strictly by delivery id,
    /// every id in it has already been stamped, transfers are deferred only
    /// while the peer's window is closed, and the handle table never grows
    /// past `handle-max + 1` slots.
    pub open spec fn wf(self) -> bool {
        &&& spec_sorted(self.unsettled_spec())
        &&& spec_ids_below(self.unsettled_spec(), self.next_outgoing_id_spec() as int)
        &&& self.deferred_spec().len() > 0 ==> self.remote_incoming_window_spec() == 0
        &&& self.handles_spec().len() <= self.handle_max_spec() + 1
    }

    /// A fresh session on a local channel, announcing `incoming_window`.
    pub fn new(local_channel: u16, handle_max: u32, incoming_window: u32) -> (r: Session)
        ensures
            r.wf(),
            r.local_channel_spec() == local_channel,
            r.remote_channel_spec() is None,
            r.next_outgoing_id_spec() == 0,
            r.next_incoming_id_spec() == 0,
            r.incoming_window_spec() == incoming_window,
            r.outgoing_window_spec() == SESSION_WINDOW,
            r.remote_incoming_window_spec() == 0,
            r.remote_outgoing_window_spec() == 0,
            r.handle_max_spec() == handle_max,
            r.handles_spec() == Seq::<bool>::empty(),
            r.remote_handles_spec() == Seq::<Option<u32>>::empty(),
            r.unsettled_spec() == Seq::<UnsettledDelivery>::empty(),
            r.deferred_spec() == Seq::<(TransferOut, bool)>::empty(),
    {
        Session {
            local_channel,
            remote_channel: None,
            next_outgoing_id: 0,
            outgoing_window: SESSION_WINDOW,
            next_incoming_id: 0,
            incoming_window,
            remote_incoming_window: 0,
            remote_outgoing_window: 0,
            handle_max,
            handles: Vec::new(),
            remote_handles: Vec::new(),
            unsettled: Vec::new(),
            deferred: VecDeque::new(),
        }
    }

    pub fn local_channel(&self) -> (r: u16)
        ensures
            r == self.local_channel_spec(),
    {
        self.local_channel
    }

    /// The Begin performative announcing this session.
    pub fn local_begin(&self) -> (r: Begin)
        ensures
            r == (Begin {
                remote_channel: self.remote_channel_spec(),
                next_outgoing_id: self.next_outgoing_id_spec(),
                incoming_window: self.incoming_window_spec(),
                outgoing_window: self.outgoing_window_spec(),
                handle_max: self.handle_max_spec(),
            }),
    {
        Begin {
            remote_channel: self.remote_channel,
            next_outgoing_id: self.next_outgoing_id,
            incoming_window: self.incoming_window,
            outgoing_window: self.outgoing_window,
            handle_max: self.handle_max,
        }
    }

    /// Adopt the peer's Begin: its outgoing id seeds our incoming id, its
    /// windows seed our view of its windows.  The Begin exchange precedes
    /// every attach, so no transfer can be waiting yet.
    pub fn on_begin(&mut self, begin: &Begin, remote_channel: u16)
        requires
            old(self).wf(),
            old(self).deferred_spec().len() == 0,
        ensures
            final(self).wf(),
            final(self).remote_channel_spec() == Some(remote_channel),
            final(self).next_incoming_id_spec() == begin.next_outgoing_id,
            final(self).remote_incoming_window_spec() == begin.incoming_window,
            final(self).remote_outgoing_window_spec() == begin.outgoing_window,
            final(self).next_outgoing_id_spec() == old(self).next_outgoing_id_spec(),
            final(self).unsettled_spec() == old(self).unsettled_spec(),
            final(self).deferred_spec() == old(self).deferred_spec(),
            final(self).handles_spec() == old(self).handles_spec(),
            final(self).handle_max_spec() == old(self).handle_max_spec(),
            final(self).local_channel_spec() == old(self).local_channel_spec(),
            final(self).incoming_window_spec() == old(self).incoming_window_spec(),
            final(self).outgoing_window_spec() == old(self).outgoing_window_spec(),
    {
        self.remote_channel = Some(remote_channel);
        self.next_incoming_id = begin.next_outgoing_id;
        self.remote_incoming_window = begin.incoming_window;
        self.remote_outgoing_window = begin.outgoing_window;
    }

    /// Allocate the lowest free local handle, growing the table up to
    /// `handle-max + 1` slots; `None` when every handle is taken.
    pub fn alloc_handle(&mut self) -> (r: Option<u32>)
        requires
            old(self).wf(),
        ensures
            final(self).wf(),
            final(self).unsettled_spec() == old(self).unsettled_spec(),
            final(self).deferred_spec() == old(self).deferred_spec(),
            final(self).next_outgoing_id_spec() == old(self).next_outgoing_id_spec(),
            final(self).handle_max_spec() == old(self).handle_max_spec(),
            match r {
                Some(h) => {
                    &&& h <= old(self).handle_max_spec()
                    &&& !old(self).handle_in_use(h)
                    &&& forall|g: u32| g < h ==> old(self).handle_in_use(g)
                    &&& final(self).handle_in_use(h)
                    &&& forall|g: u32| g != h
                        ==> final(self).handle_in_use(g) == old(self).handle_in_use(g)
                },
                None => {
                    &&& forall|g: u32| g <= old(self).handle_max_spec()
                        ==> old(self).handle_in_use(g)
                    &&& final(self).handles_spec() == old(self).handles_spec()
                },
            },
    {
        let n = self.handles.len();
        let mut i: usize = 0;
        while i < n
            invariant
                old(self).wf(),
                n == self.handles@.len(),
                i <= n,
                *self == *old(self),
                forall|g: u32| g < i ==> old(self).handle_in_use(g),
            decreases n - i,
        {
            if !self.handles[i] {
                self.handles[i] = true;
                let h = i as u32;
                proof {
                    assert(self.handles_spec() =~= old(self).handles_spec().update(i as int,
                        true));
                    assert forall|g: u32| g != h implies self.handle_in_use(g)
                        == old(self).handle_in_use(g) by {
                        if g < self.handles_spec().len() {
                            assert(self.handles_spec()[g as int]
                                == old(self).handles_spec()[g as int]);
                        }
                    }
                }
                return Some(h);
            }
            i = i + 1;
        }
        if n <= self.handle_max as usize {
            self.handles.push(true);
            let h = n as u32;
            proof {
                assert(forall|g: u32| g < h ==> old(self).handle_in_use(g));
                assert forall|g: u32| g != h implies final(self).handle_in_use(g)
                    == old(self).handle_in_use(g) by {
                    if g < h {
                        assert(self.handles_spec()[g as int]
                            == old(self).handles_spec()[g as int]);
                    }
                }
            }
            Some(h)
        } else {
            proof {
                assert forall|g: u32| g <= old(self).handle_max_spec()
                    implies old(self).handle_in_use(g) by {
                    assert(g < n);
                }
            }
            None
        }
    }

    /// Release a local handle on detach.
    pub fn free_handle(&mut self, h: u32)
        requires
            old(self).wf(),
        ensures
            final(self).wf(),
            !final(self).handle_in_use(h),
            forall|g: u32| g != h
                ==> final(self).handle_in_use(g) == old(self).handle_in_use(g),
            final(self).unsettled_spec() == old(self).unsettled_spec(),
            final(self).deferred_spec() == old(self).deferred_spec(),
            final(self).next_outgoing_id_spec() == old(self).next_outgoing_id_spec(),
            final(self).handle_max_spec() == old(self).handle_max_spec(),
    {
        if (h as usize) < self.handles.len() {
            let i = h as usize;
            self.handles[i] = false;
            proof {
                assert(self.handles_spec() =~= old(self).handles_spec().update(h as int,
                    false));
            }
        }
    }

    /// Record that the peer's handle `remote` names the link at our local
    /// handle `local`.
    pub fn register_remote_handle(&mut self, remote: u32, local: u32)
        requires
            old(self).wf(),
            remote <= old(self).handle_max_spec(),
        ensures
            final(self).wf(),
            final(self).spec_handle_mapped(remote) == Some(local),
            forall|g: u32| g != remote
                ==> final(self).spec_handle_mapped(g) == old(self).spec_handle_mapped(g),
            final(self).handles_spec() == old(self).handles_spec(),
            final(self).handle_max_spec() == old(self).handle_max_spec(),
            final(self).unsettled_spec() == old(self).unsettled_spec(),
            final(self).deferred_spec() == old(self).deferred_spec(),
            final(self).next_outgoing_id_spec() == old(self).next_outgoing_id_spec(),
            final(self).next_incoming_id_spec() == old(self).next_incoming_id_spec(),
            final(self).incoming_window_spec() == old(self).incoming_window_spec(),
            final(self).remote_incoming_window_spec()
                == old(self).remote_incoming_window_spec(),
    {
        let target = remote as usize;
        while self.remote_handles.len() <= target
            invariant
                self.remote_handles@.len() >= old(self).remote_handles_spec().len(),
                forall|k: int| 0 <= k < self.remote_handles@.len()
                    ==> #[trigger] self.remote_handles@[k] == if k
                        < old(self).remote_handles_spec().len() {
                        old(self).remote_handles_spec()[k]
                    } else {
                        None::<u32>
                    },
                self.local_channel == old(self).local_channel_spec(),
                self.remote_channel == old(self).remote_channel_spec(),
                self.next_outgoing_id == old(self).next_outgoing_id_spec(),
                self.outgoing_window == old(self).outgoing_window_spec(),
                self.next_incoming_id == old(self).next_incoming_id_spec(),
                self.incoming_window == old(self).incoming_window_spec(),
                self.remote_incoming_window == old(self).remote_incoming_window_spec(),
                self.remote_outgoing_window == old(self).remote_outgoing_window_spec(),
                self.handle_max == old(self).handle_max_spec(),
                self.handles@ == old(self).handles_spec(),
                self.unsettled@ == old(self).unsettled_spec(),
                self.deferred@ == old(self).deferred_spec(),
            decreases target + 1 - self.remote_handles@.len(),
        {
            self.remote_handles.push(None);
        }
        let ghost padded = self.remote_handles@;
        self.remote_handles[target] = Some(local);
        proof {
            assert(self.remote_handles@ =~= padded.update(target as int, Some(local)));
            assert forall|g: u32| g != remote
                implies self.spec_handle_mapped(g) == old(self).spec_handle_mapped(g) by {
                if g < self.remote_handles@.len() {
                    assert(self.remote_handles@[g as int] == padded[g as int]);
                }
            }
        }
    }

    /// Forget a remote handle when its link detaches.
    pub fn unregister_remote_handle(&mut self, remote: u32)
        requires
            old(self).wf(),
        ensures
            final(self).wf(),
            final(self).spec_handle_mapped(remote) is None,
            forall|g: u32| g != remote
                ==> final(self).spec_handle_mapped(g) == old(self).spec_handle_mapped(g),
            final(self).handles_spec() == old(self).handles_spec(),
            final(self).unsettled_spec() == old(self).unsettled_spec(),
            final(self).deferred_spec() == old(self).deferred_spec(),
    {
        let target = remote as usize;
        if target < self.remote_handles.len() {
            self.remote_handles[target] = None;
        }
    }

    /// The local handle an inbound performative's handle routes to.
    pub fn route_handle(&self, remote_handle: u32) -> (r: Option<u32>)
        ensures
            r == self.spec_handle_mapped(remote_handle),
    {
        let idx = remote_handle as usize;
        if idx < self.remote_handles.len() {
            self.remote_handles[idx]
        } else {
            None
        }
    }

    /// Dispatch an inbound Attach: the lowest free local handle is taken
    /// for the new link, the peer's handle is remembered, and our end of
    /// the link takes the opposite role; `None` when every handle within
    /// `handle-max` is in use.
    pub fn on_attach(&mut self, attach: &Attach) -> (r: Option<(u32, Role)>)
        requires
            old(self).wf(),
            attach.handle <= old(self).handle_max_spec(),
        ensures
            final(self).wf(),
            final(self).unsettled_spec() == old(self).unsettled_spec(),
            final(self).deferred_spec() == old(self).deferred_spec(),
            final(self).next_outgoing_id_spec() == old(self).next_outgoing_id_spec(),
            match r {
                Some((h, role)) => {
                    &&& h <= old(self).handle_max_spec()
                    &&& !old(self).handle_in_use(h)
                    &&& forall|g: u32| g < h ==> old(self).handle_in_use(g)
                    &&& final(self).handle_in_use(h)
                    &&& forall|g: u32| g != h
                        ==> final(self).handle_in_use(g) == old(self).handle_in_use(g)
                    &&& final(self).spec_handle_mapped(attach.handle) == Some(h)
                    &&& role == if attach.role is Sender {
                        Role::Receiver
                    } else {
                        Role::Sender
                    }
                },
                None => {
                    &&& forall|g: u32| g <= old(self).handle_max_spec()
                        ==> old(self).handle_in_use(g)
                    &&& final(self).handles_spec() == old(self).handles_spec()
                },
            },
    {
        match self.alloc_handle() {
            Some(h) => {
                self.register_remote_handle(attach.handle, h);
                let role = match attach.role {
                    Role::Sender => Role::Receiver,
                    Role::Receiver => Role::Sender,
                };
                Some((h, role))
            },
            None => None,
        }
    }

    /// Stamp and emit one transfer, or defer it while the peer's incoming
    /// window is closed.  An unsettled transfer enters the unsettled map
    /// under its fresh delivery id.
    pub fn send_transfer(&mut self, t: TransferOut, settled: bool) -> (r: Option<Transfer>)
        requires
            old(self).wf(),
            old(self).next_outgoing_id_spec() < u32::MAX,
        ensures
            final(self).wf(),
            final(self).local_channel_spec() == old(self).local_channel_spec(),
            final(self).handles_spec() == old(self).handles_spec(),
            final(self).handle_max_spec() == old(self).handle_max_spec(),
            final(self).next_incoming_id_spec() == old(self).next_incoming_id_spec(),
            final(self).incoming_window_spec() == old(self).incoming_window_spec(),
            if old(self).remote_incoming_window_spec() == 0 {
                &&& r is None
                &&& final(self).deferred_spec() == old(self).deferred_spec().push((t, settled))
                &&& final(self).unsettled_spec() == old(self).unsettled_spec()
                &&& final(self).next_outgoing_id_spec() == old(self).next_outgoing_id_spec()
                &&& final(self).remote_incoming_window_spec() == 0
            } else {
                &&& (r matches Some(out) && out.handle == t.remote_handle
                    && out.delivery_id == Some(old(self).next_outgoing_id_spec())
                    && out.settled == settled && out.message == t.message)
                &&& final(self).deferred_spec() == old(self).deferred_spec()
                &&& final(self).next_outgoing_id_spec()
                    == old(self).next_outgoing_id_spec() + 1
                &&& final(self).remote_incoming_window_spec()
                    == old(self).remote_incoming_window_spec() - 1
                &&& final(self).unsettled_spec() == if settled {
                    old(self).unsettled_spec()
                } else {
                    old(self).unsettled_spec().push(UnsettledDelivery {
                        delivery_id: old(self).next_outgoing_id_spec(),
                        link: t.link,
                        tag: t.tag,
                    })
                }
            },
    {
        if self.remote_incoming_window == 0 {
            self.deferred.push_back((t, settled));
            return None;
        }
        let delivery_id = self.next_outgoing_id;
        self.next_outgoing_id = self.next_outgoing_id + 1;
        self.remote_incoming_window = self.remote_incoming_window - 1;
        if !settled {
            self.unsettled.push(UnsettledDelivery { delivery_id, link: t.link, tag: t.tag });
        }
        Some(Transfer {
            handle: t.remote_handle,
            delivery_id: Some(delivery_id),
            settled,
            message: t.message,
        })
    }

    /// Account one inbound Transfer against the incoming window: a closed
    /// window is a session-fatal `window-violation`; a window dropping below
    /// the low watermark is replenished with a session Flow.
    pub fn on_inbound_transfer(&mut self) -> (r: Result<Option<Flow>, AmqpError>)
        requires
            old(self).wf(),
        ensures
            final(self).wf(),
            final(self).unsettled_spec() == old(self).unsettled_spec(),
            final(self).deferred_spec() == old(self).deferred_spec(),
            final(self).handles_spec() == old(self).handles_spec(),
            final(self).next_outgoing_id_spec() == old(self).next_outgoing_id_spec(),
            final(self).remote_incoming_window_spec()
                == old(self).remote_incoming_window_spec(),
            if old(self).incoming_window_spec() == 0 {
                &&& r == Err::<Option<Flow>, AmqpError>(AmqpError {
                    condition: Condition::WindowViolation })
                &&& final(self).incoming_window_spec() == 0
                &&& final(self).next_incoming_id_spec() == old(self).next_incoming_id_spec()
            } else {
                &&& final(self).next_incoming_id_spec() == spec_seq_add(
                    old(self).next_incoming_id_spec(), 1)
                &&& if old(self).incoming_window_spec() - 1 < WINDOW_LOW_WATERMARK {
                    &&& final(self).incoming_window_spec() == SESSION_WINDOW
                    &&& (r matches Ok(Some(f)) && f.incoming_window == SESSION_WINDOW
                        && f.next_incoming_id == Some(final(self).next_incoming_id_spec())
                        && f.next_outgoing_id == final(self).next_outgoing_id_spec()
                        && f.handle is None)
                } else {
                    &&& final(self).incoming_window_spec()
                        == old(self).incoming_window_spec() - 1
                    &&& r == Ok::<Option<Flow>, AmqpError>(None)
                }
            },
    {
        if self.incoming_window == 0 {
            return Err(AmqpError { condition: Condition::WindowViolation });
        }
        self.incoming_window = self.incoming_window - 1;
        self.next_incoming_id = seq_inc(self.next_incoming_id);
        if self.incoming_window < WINDOW_LOW_WATERMARK {
            self.incoming_window = SESSION_WINDOW;
            Ok(Some(Flow {
                next_incoming_id: Some(self.next_incoming_id),
                incoming_window: SESSION_WINDOW,
                next_outgoing_id: self.next_outgoing_id,
                outgoing_window: self.outgoing_window,
                handle: None,
                delivery_count: None,
                link_credit: None,
                available: None,
                drain: false,
                echo: false,
            }))
        } else {
            Ok(None)
        }
    }

    /// Adopt the session-level fields of a peer Flow, then drain deferred
    /// transfers while the reopened window lasts.  A link-scoped Flow is
    /// routed onward by the caller via the returned handle.
    pub fn handle_flow(&mut self, flow: &Flow) -> (r: (Vec<Transfer>, Option<u32>))
        requires
            old(self).wf(),
            old(self).next_outgoing_id_spec() + old(self).deferred_spec().len() <= u32::MAX,
        ensures
            final(self).wf(),
            final(self).local_channel_spec() == old(self).local_channel_spec(),
            final(self).handles_spec() == old(self).handles_spec(),
            final(self).handle_max_spec() == old(self).handle_max_spec(),
            final(self).incoming_window_spec() == old(self).incoming_window_spec(),
            final(self).next_incoming_id_spec() == flow.next_outgoing_id,
            final(self).remote_outgoing_window_spec() == flow.outgoing_window,
            r.1 == flow.handle,
            ({
                let k = if old(self).deferred_spec().len() <= flow.incoming_window {
                    old(self).deferred_spec().len() as int
                } else {
                    flow.incoming_window as int
                };
                &&& r.0@.len() == k
                &&& final(self).deferred_spec() == old(self).deferred_spec().skip(k)
                &&& final(self).next_outgoing_id_spec()
                    == old(self).next_outgoing_id_spec() + k
                &&& final(self).remote_incoming_window_spec() == (flow.incoming_window - k) as u32
                &&& forall|i: int| 0 <= i < k ==> #[trigger] r.0@[i] == (Transfer {
                    handle: old(self).deferred_spec()[i].0.remote_handle,
                    delivery_id: Some((old(self).next_outgoing_id_spec() + i) as u32),
                    settled: old(self).deferred_spec()[i].1,
                    message: old(self).deferred_spec()[i].0.message,
                })
                &&& final(self).unsettled_spec() == old(self).unsettled_spec()
                    + spec_stamped(old(self).deferred_spec().take(k),
                        old(self).next_outgoing_id_spec() as int)
            }),
    {
        self.next_incoming_id = flow.next_outgoing_id;
        self.remote_outgoing_window = flow.outgoing_window;
        self.remote_incoming_window = flow.incoming_window;
        let mut out: Vec<Transfer> = Vec::new();
        proof {
            assert(old(self).deferred_spec().skip(0) =~= old(self).deferred_spec());
            assert(spec_stamped(old(self).deferred_spec().take(0),
                old(self).next_outgoing_id_spec() as int)
                =~= Seq::<UnsettledDelivery>::empty());
            assert(self.unsettled_spec() =~= old(self).unsettled_spec()
                + spec_stamped(old(self).deferred_spec().take(0),
                    old(self).next_outgoing_id_spec() as int));
        }
        while self.remote_incoming_window > 0 && self.deferred.len() > 0
            invariant
                old(self).wf(),
                old(self).next_outgoing_id_spec() + old(self).deferred_spec().len()
                    <= u32::MAX,
                out@.len() <= old(self).deferred_spec().len(),
                out@.len() <= flow.incoming_window,
                self.local_channel == old(self).local_channel_spec(),
                self.handles@ == old(self).handles_spec(),
                self.handle_max == old(self).handle_max_spec(),
                self.incoming_window == old(self).incoming_window_spec(),
                self.next_incoming_id == flow.next_outgoing_id,
                self.remote_outgoing_window == flow.outgoing_window,
                self.remote_channel == old(self).remote_channel_spec(),
                self.outgoing_window == old(self).outgoing_window_spec(),
                self.remote_incoming_window == flow.incoming_window - out@.len(),
                self.deferred@ == old(self).deferred_spec().skip(out@.len() as int),
                self.next_outgoing_id == old(self).next_outgoing_id_spec() + out@.len(),
                self.unsettled@ == old(self).unsettled_spec()
                    + spec_stamped(old(self).deferred_spec().take(out@.len() as int),
                        old(self).next_outgoing_id_spec() as int),
                spec_sorted(self.unsettled@),
                spec_ids_below(self.unsettled@, self.next_outgoing_id as int),
                forall|i: int| 0 <= i < out@.len() ==> #[trigger] out@[i] == (Transfer {
                    handle: old(self).deferred_spec()[i].0.remote_handle,
                    delivery_id: Some((old(self).next_outgoing_id_spec() + i) as u32),
                    settled: old(self).deferred_spec()[i].1,
                    message: old(self).deferred_spec()[i].0.message,
                }),
            decreases self.deferred@.len(),
        {
            let ghost n = out@.len() as int;
            let ghost pre = self.unsettled@;
            let (t, settled) = self.deferred.pop_front().unwrap();
            let delivery_id = self.next_outgoing_id;
            self.next_outgoing_id = self.next_outgoing_id + 1;
            self.remote_incoming_window = self.remote_incoming_window - 1;
            if !settled {
                self.unsettled.push(UnsettledDelivery {
                    delivery_id,
                    link: t.link,
                    tag: t.tag,
                });
            }
            out.push(Transfer {
                handle: t.remote_handle,
                delivery_id: Some(delivery_id),
                settled,
                message: t.message,
            });
            proof {
                let d = old(self).deferred_spec();
                let base = old(self).next_outgoing_id_spec() as int;
                assert(d.take(n + 1) =~= d.take(n).push(d[n]));
                lemma_stamped_push(d.take(n), d[n], base);
                assert(d.take(n).len() == n);
                if settled {
                    assert(self.unsettled@ =~= old(self).unsettled_spec()
                        + spec_stamped(d.take(n + 1), base));
                } else {
                    assert(spec_stamped(d.take(n + 1), base)
                        =~= spec_stamped(d.take(n), base).push(UnsettledDelivery {
                            delivery_id: (base + n) as u32,
                            link: d[n].0.link,
                            tag: d[n].0.tag,
                        }));
                    assert(self.unsettled@ =~= old(self).unsettled_spec()
                        + spec_stamped(d.take(n + 1), base));
                }
            }
        }
        (out, flow.handle)
    }

    /// Resolve every unsettled delivery a disposition range covers, in id
    /// order; the resolved entries leave the map for good.
    pub fn handle_disposition(&mut self, first: u32, last: Option<u32>)
        -> (r: Vec<UnsettledDelivery>)
        requires
            old(self).wf(),
        ensures
            final(self).wf(),
            final(self).local_channel_spec() == old(self).local_channel_spec(),
            final(self).handles_spec() == old(self).handles_spec(),
            final(self).handle_max_spec() == old(self).handle_max_spec(),
            final(self).deferred_spec() == old(self).deferred_spec(),
            final(self).next_outgoing_id_spec() == old(self).next_outgoing_id_spec(),
            final(self).next_incoming_id_spec() == old(self).next_incoming_id_spec(),
            final(self).incoming_window_spec() == old(self).incoming_window_spec(),
            final(self).remote_incoming_window_spec()
                == old(self).remote_incoming_window_spec(),
            ({
                let hi = last.unwrap_or(first);
                &&& r@ == spec_resolved(old(self).unsettled_spec(), first, hi)
                &&& final(self).unsettled_spec() == spec_kept(old(self).unsettled_spec(),
                    first, hi)
            }),
    {
        let hi = match last {
            Some(l) => l,
            None => first,
        };
        let ghost src = old(self).unsettled_spec();
        let n = self.unsettled.len();
        let mut resolved: Vec<UnsettledDelivery> = Vec::new();
        let mut kept: Vec<UnsettledDelivery> = Vec::new();
        let mut i: usize = 0;
        proof {
            assert(src.skip(0) =~= src);
        }
        while i < n
            invariant
                old(self).wf(),
                *self == *old(self),
                src == old(self).unsettled_spec(),
                n == src.len(),
                i <= n,
                resolved@ + spec_resolved(src.skip(i as int), first, hi)
                    == spec_resolved(src, first, hi),
                kept@ + spec_kept(src.skip(i as int), first, hi) == spec_kept(src, first, hi),
            decreases n - i,
        {
            let ghost r0 = resolved@;
            let ghost k0 = kept@;
            let e = self.unsettled[i];
            proof {
                assert(src.skip(i as int) =~= seq![src[i as int]]
                    + src.skip(i as int + 1));
                assert(src.skip(i as int)[0] == src[i as int]);
                assert(src.skip(i as int).drop_first() =~= src.skip(i as int + 1));
            }
            if first <= e.delivery_id && e.delivery_id <= hi {
                resolved.push(e);
                proof {
                    assert(resolved@ =~= r0 + seq![e]);
                    assert(spec_resolved(src.skip(i as int), first, hi)
                        == seq![e] + spec_resolved(src.skip(i as int + 1), first, hi));
                    assert(resolved@ + spec_resolved(src.skip(i as int + 1), first, hi)
                        =~= r0 + spec_resolved(src.skip(i as int), first, hi));
                    assert(spec_kept(src.skip(i as int), first, hi)
                        == spec_kept(src.skip(i as int + 1), first, hi));
                }
            } else {
                kept.push(e);
                proof {
                    assert(kept@ =~= k0 + seq![e]);
                    assert(spec_kept(src.skip(i as int), first, hi)
                        == seq![e] + spec_kept(src.skip(i as int + 1), first, hi));
                    assert(kept@ + spec_kept(src.skip(i as int + 1), first, hi)
                        =~= k0 + spec_kept(src.skip(i as int), first, hi));
                    assert(spec_resolved(src.skip(i as int), first, hi)
                        == spec_resolved(src.skip(i as int + 1), first, hi));
                }
            }
            i = i + 1;
        }
        proof {
            assert(src.skip(n as int) =~= Seq::<UnsettledDelivery>::empty());
            assert(resolved@ =~= spec_resolved(src, first, hi));
            assert(kept@ =~= spec_kept(src, first, hi));
            lemma_kept_wf(src, first, hi);
            assert forall|a: int| 0 <= a < kept@.len()
                implies #[trigger] kept@[a].delivery_id
                    < old(self).next_outgoing_id_spec() by {
                assert(src.contains(kept@[a]));
                let w = choose|w: int| 0 <= w < src.len() && src[w] == kept@[a];
                assert(src[w].delivery_id < old(self).next_outgoing_id_spec());
            }
        }
        self.unsettled = kept;
        resolved
    }

    /// Remove every unsettled delivery of one link: the link is detaching
    /// and the caller must fail the matching promises with the detach error.
    pub fn fail_link(&mut self, link: u32) -> (r: Vec<UnsettledDelivery>)
        requires
            old(self).wf(),
        ensures
            final(self).wf(),
            final(self).local_channel_spec() == old(self).local_channel_spec(),
            final(self).handles_spec() == old(self).handles_spec(),
            final(self).handle_max_spec() == old(self).handle_max_spec(),
            final(self).deferred_spec() == old(self).deferred_spec(),
            final(self).next_outgoing_id_spec() == old(self).next_outgoing_id_spec(),
            final(self).remote_incoming_window_spec()
                == old(self).remote_incoming_window_spec(),
            r@ == spec_link_resolved(old(self).unsettled_spec(), link),
            final(self).unsettled_spec() == spec_link_kept(old(self).unsettled_spec(), link),
    {
        let ghost src = old(self).unsettled_spec();
        let n = self.unsettled.len();
        let mut resolved: Vec<UnsettledDelivery> = Vec::new();
        let mut kept: Vec<UnsettledDelivery> = Vec::new();
        let mut i: usize = 0;
        proof {
            assert(src.skip(0) =~= src);
        }
        while i < n
            invariant
                old(self).wf(),
                *self == *old(self),
                src == old(self).unsettled_spec(),
                n == src.len(),
                i <= n,
                resolved@ + spec_link_resolved(src.skip(i as int), link)
                    == spec_link_resolved(src, link),
                kept@ + spec_link_kept(src.skip(i as int), link) == spec_link_kept(src, link),
            decreases n - i,
        {
            let ghost r0 = resolved@;
            let ghost k0 = kept@;
            let e = self.unsettled[i];
            proof {
                assert(src.skip(i as int) =~= seq![src[i as int]]
                    + src.skip(i as int + 1));
                assert(src.skip(i as int)[0] == src[i as int]);
                assert(src.skip(i as int).drop_first() =~= src.skip(i as int + 1));
            }
            if e.link == link {
                resolved.push(e);
                proof {
                    assert(resolved@ =~= r0 + seq![e]);
                    assert(resolved@ + spec_link_resolved(src.skip(i as int + 1), link)
                        =~= r0 + spec_link_resolved(src.skip(i as int), link));
                }
            } else {
                kept.push(e);
                proof {
                    assert(kept@ =~= k0 + seq![e]);
                    assert(kept@ + spec_link_kept(src.skip(i as int + 1), link)
                        =~= k0 + spec_link_kept(src.skip(i as int), link));
                }
            }
            i = i + 1;
        }
        proof {
            assert(src.skip(n as int) =~= Seq::<UnsettledDelivery>::empty());
            assert(resolved@ =~= spec_link_resolved(src, link));
            assert(kept@ =~= spec_link_kept(src, link));
            lemma_link_kept_wf(src, link);
            assert forall|a: int| 0 <= a < kept@.len()
                implies #[trigger] kept@[a].delivery_id
                    < old(self).next_outgoing_id_spec() by {
                assert(src.contains(kept@[a]));
                let w = choose|w: int| 0 <= w < src.len() && src[w] == kept@[a];
                assert(src[w].delivery_id < old(self).next_outgoing_id_spec());
            }
        }
        self.unsettled = kept;
        resolved
    }

    /// Drain the whole unsettled map: the session is ending and every
    /// remaining promise must be failed by the caller.
    pub fn drain_unsettled(&mut self) -> (r: Vec<UnsettledDelivery>)
        requires
            old(self).wf(),
        ensures
            final(self).wf(),
            r@ == old(self).unsettled_spec(),
            final(self).unsettled_spec() == Seq::<UnsettledDelivery>::empty(),
            final(self).deferred_spec() == old(self).deferred_spec(),
            final(self).handles_spec() == old(self).handles_spec(),
            final(self).local_channel_spec() == old(self).local_channel_spec(),
            final(self).handle_max_spec() == old(self).handle_max_spec(),
            final(self).next_outgoing_id_spec() == old(self).next_outgoing_id_spec(),
    {
        let mut drained: Vec<UnsettledDelivery> = Vec::new();
        std::mem::swap(&mut drained, &mut self.unsettled);
        drained
    }
}

/// The unsettled deliveries of one link, in stored order.
pub open spec fn spec_link_resolved(entries: Seq<UnsettledDelivery>, link: u32)
    -> Seq<UnsettledDelivery>
    decreases entries.len(),
{
    if entries.len() == 0 {
        Seq::empty()
    } else if entries[0].link == link {
        seq![entries[0]] + spec_link_resolved(entries.drop_first(), link)
    } else {
        spec_link_resolved(entries.drop_first(), link)
    }
}

/// The unsettled deliveries of every other link, in stored order.
pub open spec fn spec_link_kept(entries: Seq<UnsettledDelivery>, link: u32)
    -> Seq<UnsettledDelivery>
    decreases entries.len(),
{
    if entries.len() == 0 {
        Seq::empty()
    } else if entries[0].link == link {
        spec_link_kept(entries.drop_first(), link)
    } else {
        seq![entries[0]] + spec_link_kept(entries.drop_first(), link)
    }
}

/// What a link detach keeps is a sorted selection of what was there.
pub proof fn lemma_link_kept_wf(entries: Seq<UnsettledDelivery>, link: u32)
    requires
        spec_sorted(entries),
    ensures
        spec_sorted(spec_link_kept(entries, link)),
        forall|j: int| 0 <= j < spec_link_kept(entries, link).len()
            ==> entries.contains(#[trigger] spec_link_kept(entries, link)[j]),
    decreases entries.len(),
{
    if entries.len() > 0 {
        let tail = entries.drop_first();
        assert(spec_sorted(tail)) by {
            assert forall|i: int, j: int| 0 <= i < j < tail.len()
                implies #[trigger] tail[i].delivery_id
                    < #[trigger] tail[j].delivery_id by {
                assert(tail[i] == entries[i + 1] && tail[j] == entries[j + 1]);
            }
        }
        lemma_link_kept_wf(tail, link);
        let kt = spec_link_kept(tail, link);
        assert forall|j: int| 0 <= j < kt.len()
            implies entries.contains(#[trigger] kt[j]) by {
            let w = choose|w: int| 0 <= w < tail.len() && tail[w] == kt[j];
            assert(entries[w + 1] == kt[j]);
        }
        if entries[0].link != link {
            let k = spec_link_kept(entries, link);
            assert(k == seq![entries[0]] + kt);
            assert forall|i: int, j: int| 0 <= i < j < k.len()
                implies #[trigger] k[i].delivery_id < #[trigger] k[j].delivery_id by {
                if i == 0 {
                    let w = choose|w: int| 0 <= w < tail.len() && tail[w] == kt[j - 1];
                    assert(entries[w + 1] == k[j]);
                    assert(entries[0].delivery_id < entries[w + 1].delivery_id);
                } else {
                    assert(k[i] == kt[i - 1] && k[j] == kt[j - 1]);
                }
            }
        }
    }
}

/// The unsettled entries the deferred transfers `d` create when stamped
/// with consecutive delivery ids from `first`: one entry per transfer not
/// pre-settled.
pub open spec fn spec_stamped(d: Seq<(TransferOut, bool)>, first: int)
    -> Seq<UnsettledDelivery>
    decreases d.len(),
{
    if d.len() == 0 {
        Seq::empty()
    } else if d[0].1 {
        spec_stamped(d.drop_first(), first + 1)
    } else {
        seq![UnsettledDelivery {
            delivery_id: first as u32,
            link: d[0].0.link,
            tag: d[0].0.tag,
        }] + spec_stamped(d.drop_first(), first + 1)
    }
}

/// Appending one more deferred transfer extends the stamped entries at the
/// end.
pub proof fn lemma_stamped_push(d: Seq<(TransferOut, bool)>, x: (TransferOut, bool),
    first: int)
    ensures
        spec_stamped(d.push(x), first) == if x.1 {
            spec_stamped(d, first)
        } else {
            spec_stamped(d, first).push(UnsettledDelivery {
                delivery_id: (first + d.len()) as u32,
                link: x.0.link,
                tag: x.0.tag,
            })
        },
    decreases d.len(),
{
    reveal_with_fuel(spec_stamped, 4);
    if d.len() == 0 {
        assert(d.push(x)[0] == x);
        assert(d.push(x).drop_first() =~= Seq::<(TransferOut, bool)>::empty());
        if x.1 {
            assert(spec_stamped(d.push(x), first) =~= spec_stamped(d, first));
        } else {
            assert(spec_stamped(d.push(x), first)
                =~= seq![UnsettledDelivery {
                    delivery_id: first as u32,
                    link: x.0.link,
                    tag: x.0.tag,
                }] + spec_stamped(d.push(x).drop_first(), first + 1));
            assert(spec_stamped(d.push(x), first) =~= spec_stamped(d, first).push(
                UnsettledDelivery {
                    delivery_id: first as u32,
                    link: x.0.link,
                    tag: x.0.tag,
                }));
        }
    } else {
        assert(d.push(x)[0] == d[0]);
        assert(d.push(x).drop_first() =~= d.drop_first().push(x));
        lemma_stamped_push(d.drop_first(), x, first + 1);
        assert(d.drop_first().len() == d.len() - 1);
        if x.1 {
            assert(spec_stamped(d.push(x), first) =~= spec_stamped(d, first));
        } else {
            let e = UnsettledDelivery {
                delivery_id: (first + d.len()) as u32,
                link: x.0.link,
                tag: x.0.tag,
            };
            assert(spec_stamped(d.drop_first().push(x), first + 1)
                == spec_stamped(d.drop_first(), first + 1).push(e));
            if d[0].1 {
                assert(spec_stamped(d.push(x), first)
                    == spec_stamped(d.drop_first().push(x), first + 1));
                assert(spec_stamped(d, first) == spec_stamped(d.drop_first(), first + 1));
            } else {
                assert(spec_stamped(d.push(x), first)
                    =~= seq![UnsettledDelivery {
                        delivery_id: first as u32,
                        link: d[0].0.link,
                        tag: d[0].0.tag,
                    }] + spec_stamped(d.drop_first(), first + 1).push(e));
                assert(spec_stamped(d, first)
                    == seq![UnsettledDelivery {
                        delivery_id: first as u32,
                        link: d[0].0.link,
                        tag: d[0].0.tag,
                    }] + spec_stamped(d.drop_first(), first + 1));
            }
            assert(spec_stamped(d.push(x), first) =~= spec_stamped(d, first).push(e));
        }
    }
}

/// What a disposition keeps is a sorted selection of what was there.
pub proof fn lemma_kept_wf(entries: Seq<UnsettledDelivery>, lo: u32, hi: u32)
    requires
        spec_sorted(entries),
    ensures
        spec_sorted(spec_kept(entries, lo, hi)),
        forall|j: int| 0 <= j < spec_kept(entries, lo, hi).len()
            ==> entries.contains(#[trigger] spec_kept(entries, lo, hi)[j])
                && !spec_in_range(spec_kept(entries, lo, hi)[j], lo, hi),
    decreases entries.len(),
{
    if entries.len() > 0 {
        let tail = entries.drop_first();
        assert(spec_sorted(tail)) by {
            assert forall|i: int, j: int| 0 <= i < j < tail.len()
                implies #[trigger] tail[i].delivery_id
                    < #[trigger] tail[j].delivery_id by {
                assert(tail[i] == entries[i + 1] && tail[j] == entries[j + 1]);
            }
        }
        lemma_kept_wf(tail, lo, hi);
        let kt = spec_kept(tail, lo, hi);
        assert forall|j: int| 0 <= j < kt.len()
            implies entries.contains(#[trigger] kt[j]) by {
            let w = choose|w: int| 0 <= w < tail.len() && tail[w] == kt[j];
            assert(entries[w + 1] == kt[j]);
        }
        if !spec_in_range(entries[0], lo, hi) {
            let k = spec_kept(entries, lo, hi);
            assert(k == seq![entries[0]] + kt);
            assert forall|i: int, j: int| 0 <= i < j < k.len()
                implies #[trigger] k[i].delivery_id < #[trigger] k[j].delivery_id by {
                if i == 0 {
                    let w = choose|w: int| 0 <= w < tail.len() && tail[w] == kt[j - 1];
                    assert(entries[w + 1] == k[j]);
                    assert(entries[0].delivery_id < entries[w + 1].delivery_id);
                } else {
                    assert(k[i] == kt[i - 1] && k[j] == kt[j - 1]);
                }
            }
        }
    }
}

/// What a disposition resolves is a sorted selection of what was there:
/// promises resolve in delivery-id order.
pub proof fn lemma_resolved_wf(entries: Seq<UnsettledDelivery>, lo: u32, hi: u32)
    requires
        spec_sorted(entries),
    ensures
        spec_sorted(spec_resolved(entries, lo, hi)),
        forall|j: int| 0 <= j < spec_resolved(entries, lo, hi).len()
            ==> entries.contains(#[trigger] spec_resolved(entries, lo, hi)[j])
                && spec_in_range(spec_resolved(entries, lo, hi)[j], lo, hi),
    decreases entries.len(),
{
    if entries.len() > 0 {
        let tail = entries.drop_first();
        assert(spec_sorted(tail)) by {
            assert forall|i: int, j: int| 0 <= i < j < tail.len()
                implies #[trigger] tail[i].delivery_id
                    < #[trigger] tail[j].delivery_id by {
                assert(tail[i] == entries[i + 1] && tail[j] == entries[j + 1]);
            }
        }
        lemma_resolved_wf(tail, lo, hi);
        let rt = spec_resolved(tail, lo, hi);
        assert forall|j: int| 0 <= j < rt.len()
            implies entries.contains(#[trigger] rt[j]) by {
            let w = choose|w: int| 0 <= w < tail.len() && tail[w] == rt[j];
            assert(entries[w + 1] == rt[j]);
        }
        if spec_in_range(entries[0], lo, hi) {
            let k = spec_resolved(entries, lo, hi);
            assert(k == seq![entries[0]] + rt);
            assert forall|i: int, j: int| 0 <= i < j < k.len()
                implies #[trigger] k[i].delivery_id < #[trigger] k[j].delivery_id by {
                if i == 0 {
                    let w = choose|w: int| 0 <= w < tail.len() && tail[w] == rt[j - 1];
                    assert(entries[w + 1] == k[j]);
                    assert(entries[0].delivery_id < entries[w + 1].delivery_id);
                } else {
                    assert(k[i] == rt[i - 1] && k[j] == rt[j - 1]);
                }
            }
        }
    }
}

/// Law: a delivery resolves exactly once.  In a sorted unsettled map a
/// delivery id names at most one entry; a disposition range covering it
/// resolves that entry and removes it, so no later disposition — and no
/// later teardown of the map — can resolve it again, while a delivery the
/// range misses stays, in full, for its one later resolution.
pub proof fn lemma_resolve_exactly_once(entries: Seq<UnsettledDelivery>, lo: u32, hi: u32,
    id: u32)
    requires
        spec_sorted(entries),
    ensures
        spec_id_count(entries, id) <= 1,
        spec_id_count(spec_resolved(entries, lo, hi), id)
            + spec_id_count(spec_kept(entries, lo, hi), id) == spec_id_count(entries, id),
        lo <= id <= hi ==> spec_id_count(spec_kept(entries, lo, hi), id) == 0,
        !(lo <= id <= hi) ==> spec_id_count(spec_resolved(entries, lo, hi), id) == 0,
    decreases entries.len(),
{
    let pred = |e: UnsettledDelivery| e.delivery_id == id;
    if entries.len() == 0 {
        assert(entries.filter(pred) =~= Seq::<UnsettledDelivery>::empty());
        assert(spec_resolved(entries, lo, hi).filter(pred)
            =~= Seq::<UnsettledDelivery>::empty());
        assert(spec_kept(entries, lo, hi).filter(pred)
            =~= Seq::<UnsettledDelivery>::empty());
    } else {
        let tail = entries.drop_first();
        assert(spec_sorted(tail)) by {
            assert forall|i: int, j: int| 0 <= i < j < tail.len()
                implies #[trigger] tail[i].delivery_id
                    < #[trigger] tail[j].delivery_id by {
                assert(tail[i] == entries[i + 1] && tail[j] == entries[j + 1]);
            }
        }
        lemma_resolve_exactly_once(tail, lo, hi, id);
        lemma_filter_head(entries, pred);
        lemma_resolved_wf(tail, lo, hi);
        lemma_kept_wf(tail, lo, hi);
        if spec_in_range(entries[0], lo, hi) {
            lemma_filter_head(seq![entries[0]] + spec_resolved(tail, lo, hi), pred);
            assert((seq![entries[0]] + spec_resolved(tail, lo, hi)).drop_first()
                =~= spec_resolved(tail, lo, hi));
        } else {
            lemma_filter_head(seq![entries[0]] + spec_kept(tail, lo, hi), pred);
            assert((seq![entries[0]] + spec_kept(tail, lo, hi)).drop_first()
                =~= spec_kept(tail, lo, hi));
        }
        if entries[0].delivery_id == id {
            // the head is the one entry for `id`: no other may match
            assert(spec_id_count(tail, id) == 0) by {
                if tail.filter(pred).len() > 0 {
                    lemma_filter_member(tail, pred);
                    let w = choose|w: int| 0 <= w < tail.len() && pred(tail[w]);
                    assert(entries[0].delivery_id < entries[w + 1].delivery_id);
                }
            }
        }
    }
}

/// Law: a link detach fails each of the link's unsettled deliveries exactly
/// once.  Every entry lands either among the failed or among the kept,
/// never both; what a detach removed, no disposition and no teardown can
/// resolve again.
pub proof fn lemma_detach_exactly_once(entries: Seq<UnsettledDelivery>, link: u32, id: u32)
    requires
        spec_sorted(entries),
    ensures
        spec_id_count(entries, id) <= 1,
        spec_id_count(spec_link_resolved(entries, link), id)
            + spec_id_count(spec_link_kept(entries, link), id) == spec_id_count(entries, id),
    decreases entries.len(),
{
    let pred = |e: UnsettledDelivery| e.delivery_id == id;
    if entries.len() == 0 {
        assert(entries.filter(pred) =~= Seq::<UnsettledDelivery>::empty());
        assert(spec_link_resolved(entries, link).filter(pred)
            =~= Seq::<UnsettledDelivery>::empty());
        assert(spec_link_kept(entries, link).filter(pred)
            =~= Seq::<UnsettledDelivery>::empty());
    } else {
        let tail = entries.drop_first();
        assert(spec_sorted(tail)) by {
            assert forall|i: int, j: int| 0 <= i < j < tail.len()
                implies #[trigger] tail[i].delivery_id
                    < #[trigger] tail[j].delivery_id by {
                assert(tail[i] == entries[i + 1] && tail[j] == entries[j + 1]);
            }
        }
        lemma_detach_exactly_once(tail, link, id);
        lemma_filter_head(entries, pred);
        if entries[0].link == link {
            lemma_filter_head(seq![entries[0]] + spec_link_resolved(tail, link), pred);
            assert((seq![entries[0]] + spec_link_resolved(tail, link)).drop_first()
                =~= spec_link_resolved(tail, link));
        } else {
            lemma_filter_head(seq![entries[0]] + spec_link_kept(tail, link), pred);
            assert((seq![entries[0]] + spec_link_kept(tail, link)).drop_first()
                =~= spec_link_kept(tail, link));
        }
        if entries[0].delivery_id == id {
            assert(spec_id_count(tail, id) == 0) by {
                if tail.filter(pred).len() > 0 {
                    lemma_filter_member(tail, pred);
                    let w = choose|w: int| 0 <= w < tail.len() && pred(tail[w]);
                    assert(entries[0].delivery_id < entries[w + 1].delivery_id);
                }
            }
        }
    }
}

/// Filtering distributes over splitting off the head element.
pub proof fn lemma_filter_head(entries: Seq<UnsettledDelivery>,
    pred: spec_fn(UnsettledDelivery) -> bool)
    requires
        entries.len() > 0,
    ensures
        entries.filter(pred) == if pred(entries[0]) {
            seq![entries[0]] + entries.drop_first().filter(pred)
        } else {
            entries.drop_first().filter(pred)
        },
{
    let head = seq![entries[0]];
    let tail = entries.drop_first();
    assert(entries =~= head + tail);
    Seq::<UnsettledDelivery>::filter_distributes_over_add(head, tail, pred);
    reveal_with_fuel(Seq::<_>::filter, 2);
    assert(head.drop_last() =~= Seq::<UnsettledDelivery>::empty());
    if pred(entries[0]) {
        assert(head.filter(pred) =~= head);
    } else {
        assert(head.filter(pred) =~= Seq::<UnsettledDelivery>::empty());
        assert(Seq::<UnsettledDelivery>::empty() + tail.filter(pred)
            =~= tail.filter(pred));
    }
}

/// Transfer ingress, whole: account the inbound Transfer against the
/// session's incoming window — a closed window is a session-fatal
/// `window-violation` — then admit it on the receiver link the handle
/// routed to, which detaches on over-credit.  A replenishing session Flow,
/// when the window ran low, rides along with the link's verdict.
pub fn receive_transfer(session: &mut Session, link: &mut crate::rcvlink::ReceiverLink,
    transfer: Transfer) -> (r: Result<(Option<Flow>, crate::rcvlink::ReceiverAction),
    AmqpError>)
    requires
        old(session).wf(),
        old(link).wf(),
        !old(link).closed_spec(),
    ensures
        final(session).wf(),
        final(link).wf(),
        final(session).unsettled_spec() == old(session).unsettled_spec(),
        if old(session).incoming_window_spec() == 0 {
            &&& r == Err::<(Option<Flow>, crate::rcvlink::ReceiverAction), AmqpError>(
                AmqpError { condition: Condition::WindowViolation })
            &&& *final(link) == *old(link)
            &&& final(session).next_incoming_id_spec()
                == old(session).next_incoming_id_spec()
        } else {
            &&& final(session).next_incoming_id_spec() == spec_seq_add(
                old(session).next_incoming_id_spec(), 1)
            &&& (r matches Ok((_, action)) && if old(link).credit_spec() == 0 {
                &&& action is Detached
                &&& final(link).closed_spec()
                &&& final(link).queue_spec() == old(link).queue_spec()
            } else {
                &&& action is Queued
                &&& final(link).queue_spec() == old(link).queue_spec().push(transfer)
                &&& final(link).credit_spec() == old(link).credit_spec() - 1
            })
        },
{
    let flow = match session.on_inbound_transfer() {
        Ok(f) => f,
        Err(e) => {
            return Err(e);
        },
    };
    let action = link.handle_transfer(transfer);
    Ok((flow, action))
}

/// Everything unsettled across a connection's sessions, in channel order.
pub open spec fn spec_all_unsettled(sessions: Seq<Session>) -> Seq<UnsettledDelivery>
    decreases sessions.len(),
{
    if sessions.len() == 0 {
        Seq::empty()
    } else {
        sessions[0].unsettled_spec() + spec_all_unsettled(sessions.drop_first())
    }
}

/// Tear down every session of a closing connection: each unsettled map is
/// drained in channel order, and the caller fails every returned promise
/// with the connection's error.
pub fn end_sessions(sessions: &mut Vec<Session>) -> (r: Vec<UnsettledDelivery>)
    requires
        forall|i: int| 0 <= i < old(sessions)@.len() ==> (#[trigger] old(sessions)@[i]).wf(),
    ensures
        final(sessions)@.len() == old(sessions)@.len(),
        forall|i: int| 0 <= i < final(sessions)@.len()
            ==> (#[trigger] final(sessions)@[i]).wf()
                && final(sessions)@[i].unsettled_spec()
                    == Seq::<UnsettledDelivery>::empty(),
        r@ == spec_all_unsettled(old(sessions)@),
{
    let ghost src = old(sessions)@;
    let n = sessions.len();
    let mut out: Vec<UnsettledDelivery> = Vec::new();
    let mut i: usize = 0;
    proof {
        assert(src.skip(0) =~= src);
    }
    while i < n
        invariant
            forall|k: int| 0 <= k < src.len() ==> (#[trigger] src[k]).wf(),
            src == old(sessions)@,
            n == src.len(),
            sessions@.len() == n,
            i <= n,
            forall|k: int| i <= k < n ==> #[trigger] sessions@[k] == src[k],
            forall|k: int| 0 <= k < i ==> (#[trigger] sessions@[k]).wf()
                && sessions@[k].unsettled_spec() == Seq::<UnsettledDelivery>::empty(),
            out@ + spec_all_unsettled(src.skip(i as int)) == spec_all_unsettled(src),
        decreases n - i,
    {
        let ghost o0 = out@;
        proof {
            assert(src.skip(i as int) =~= seq![src[i as int]] + src.skip(i as int + 1));
            assert(src.skip(i as int)[0] == src[i as int]);
            assert(src.skip(i as int).drop_first() =~= src.skip(i as int + 1));
        }
        let s = &mut sessions[i];
        let mut drained = s.drain_unsettled();
        out.append(&mut drained);
        proof {
            assert(out@ =~= o0 + src[i as int].unsettled_spec());
            assert(out@ + spec_all_unsettled(src.skip(i as int + 1))
                =~= o0 + spec_all_unsettled(src.skip(i as int)));
        }
        i = i + 1;
    }
    proof {
        assert(src.skip(n as int) =~= Seq::<Session>::empty());
        assert(out@ =~= spec_all_unsettled(src));
    }
    out
}

/// A non-empty filter result exhibits a matching element.
pub proof fn lemma_filter_member(entries: Seq<UnsettledDelivery>,
    pred: spec_fn(UnsettledDelivery) -> bool)
    requires
        entries.filter(pred).len() > 0,
    ensures
        exists|w: int| 0 <= w < entries.len() && pred(#[trigger] entries[w]),
    decreases entries.len(),
{
    reveal_with_fuel(Seq::<_>::filter, 2);
    if entries.len() > 0 {
        if pred(entries.last()) {
            assert(0 <= entries.len() - 1 < entries.len()
                && pred(entries[entries.len() - 1]));
        } else {
            lemma_filter_member(entries.drop_last(), pred);
            let w = choose|w: int| 0 <= w < entries.drop_last().len()
                && pred(#[trigger] entries.drop_last()[w]);
            assert(entries[w] == entries.drop_last()[w]);
        }
    }
}

} // verus!
