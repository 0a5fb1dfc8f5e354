//! Idle-timeout policing and heartbeat emission.
//!
//! The connection resets `expire_local` on every inbound frame and
//! `expire_remote` on every outbound frame.  A timer tick calls [`Heartbeat::poll`]
//! with the current time: the engine closes the connection once the peer has
//! been silent for the local period, and emits an empty frame once we have
//! been silent towards the peer for the remote period.  Instants are
//! milliseconds on a monotone clock supplied by the caller.

use vstd::prelude::*;

verus! {

/// What the connection must do after a timer tick.
#[derive(Clone, Copy, Debug, PartialEq, Eq, Structural)]
pub enum HeartbeatAction {
    /// Neither deadline has passed.
    Idle,
    /// Emit an empty frame: we have been silent towards the peer too long.
    Heartbeat,
    /// Close the connection: the peer has been silent too long.
    Close,
}

pub struct Heartbeat {
    /// Instant of the last inbound frame.
    expire_local: u64,
    /// Instant of the last outbound frame.
    expire_remote: u64,
    /// Silence from the peer beyond this period closes the connection.
    local: u64,
    /// Silence towards the peer beyond this period emits a heartbeat,
    /// if the peer declared an idle timeout at all.
    remote: Option<u64>,
}

/// The action a tick at instant `now` must take, given the last-traffic
/// instants and the two periods.
pub open spec fn spec_heartbeat_action(hb: Heartbeat, now: u64) -> HeartbeatAction {
    if now >= hb.expire_local() + hb.local_period() {
        HeartbeatAction::Close
    } else if hb.remote_period() is Some && now >= hb.expire_remote()
        + hb.remote_period()->0 {
        HeartbeatAction::Heartbeat
    } else {
        HeartbeatAction::Idle
    }
}

impl Heartbeat {
    pub closed spec fn expire_local(self) -> u64 {
        self.expire_local
    }

    pub closed spec fn expire_remote(self) -> u64 {
        self.expire_remote
    }

    pub closed spec fn local_period(self) -> u64 {
        self.local
    }

    pub closed spec fn remote_period(self) -> Option<u64> {
        self.remote
    }

    /// A fresh heartbeat: both silence clocks start at `now`.
    pub fn new(local: u64, remote: Option<u64>, now: u64) -> (r: Heartbeat)
        ensures
            r.expire_local() == now,
            r.expire_remote() == now,
            r.local_period() == local,
            r.remote_period() == remote,
    {
        Heartbeat { expire_local: now, expire_remote: now, local, remote }
    }

    /// Record inbound traffic at `now` when `update` holds.
    pub fn update_local(&mut self, update: bool, now: u64)
        ensures
            final(self).expire_local() == if update { now } else { old(self).expire_local() },
            final(self).expire_remote() == old(self).expire_remote(),
            final(self).local_period() == old(self).local_period(),
            final(self).remote_period() == old(self).remote_period(),
    {
        if update {
            self.expire_local = now;
        }
    }

    /// Record outbound traffic at `now` when `update` holds; kept only when
    /// the peer declared an idle timeout.
    pub fn update_remote(&mut self, update: bool, now: u64)
        ensures
            final(self).expire_remote() == if update && old(self).remote_period() is Some {
                now
            } else {
                old(self).expire_remote()
            },
            final(self).expire_local() == old(self).expire_local(),
            final(self).local_period() == old(self).local_period(),
            final(self).remote_period() == old(self).remote_period(),
    {
        if update && self.remote.is_some() {
            self.expire_remote = now;
        }
    }

    /// The instant at which the next tick is due.
    pub fn next_expire(&self) -> (r: u64)
        requires
            self.expire_local() + self.local_period() <= u64::MAX,
            self.remote_period() is Some ==> self.expire_remote()
                + self.remote_period()->0 <= u64::MAX,
        ensures
            r == if self.remote_period() is Some {
                vstd::math::min(
                    (self.expire_local() + self.local_period()) as int,
                    (self.expire_remote() + self.remote_period()->0) as int,
                )
            } else {
                self.expire_local() + self.local_period()
            },
    {
        let local_deadline: u64 = self.expire_local + self.local;
        if let Some(remote) = self.remote {
            let remote_deadline: u64 = self.expire_remote + remote;
            if local_deadline <= remote_deadline {
                local_deadline
            } else {
                remote_deadline
            }
        } else {
            local_deadline
        }
    }

    /// A timer tick at instant `now`.  Closes on local silence, emits a
    /// heartbeat on remote silence, and advances the outbound silence clock
    /// when the heartbeat frame is (about to be) emitted.
    pub fn poll(&mut self, now: u64) -> (r: HeartbeatAction)
        requires
            now >= old(self).expire_local(),
            now >= old(self).expire_remote(),
        ensures
            r == spec_heartbeat_action(*old(self), now),
            final(self).expire_local() == old(self).expire_local(),
            final(self).local_period() == old(self).local_period(),
            final(self).remote_period() == old(self).remote_period(),
            final(self).expire_remote() == if r is Heartbeat {
                now
            } else {
                old(self).expire_remote()
            },
    {
        if now - self.expire_local >= self.local {
            return HeartbeatAction::Close;
        }
        if let Some(remote) = self.remote {
            if now - self.expire_remote >= remote {
                self.expire_remote = now;
                return HeartbeatAction::Heartbeat;
            }
        }
        HeartbeatAction::Idle
    }
}

/// Law: with the local period set to an idle timeout `t` and the remote
/// period to `t / 2`, a tick emits a heartbeat no later than `t / 2` after
/// the last outbound frame as long as the connection stays alive, and no
/// close is issued until `t` has elapsed since the last inbound frame.
pub proof fn lemma_idle_policy(hb: Heartbeat, now: u64, t: u64)
    requires
        hb.local_period() == t,
        hb.remote_period() == Some((t / 2) as u64),
    ensures
        spec_heartbeat_action(hb, now) is Close ==> now - hb.expire_local() >= t,
        now - hb.expire_remote() >= t / 2 && !(spec_heartbeat_action(hb, now) is Close)
            ==> spec_heartbeat_action(hb, now) is Heartbeat,
        now - hb.expire_local() < t ==> !(spec_heartbeat_action(hb, now) is Close),
{
}

} // verus!
