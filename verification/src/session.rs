use vstd::prelude::*;

use crate::bus::Broadcaster;
use crate::bus::delivered;
use crate::errors::HubError;
use crate::frames::encode_outbound;
use crate::frames::has_separator;
use crate::frames::outbound_frame;
use crate::frames::room_of;
use crate::frames::split_frame;
use crate::frames::text_of;
use crate::identity::IdentityDirectory;
use crate::rooms::RoomStore;

verus! {

/// The lifecycle of one connection's session.
#[derive(Clone, Copy, Debug, PartialEq, Eq, Structural)]
pub enum SessionPhase {
    Opening,
    Active,
    Closing,
    Closed,
}

/// What became of one inbound frame. No variant is fatal to the session:
/// failures while handling a frame are local to that frame.
#[derive(Clone, Copy, Debug, PartialEq, Eq, Structural)]
pub enum InboundOutcome {
    /// Appended to the addressed room's log and republished to every
    /// receiver.
    Published,
    /// Well formed but addressed to no existing room: the error is reported,
    /// the frame is discarded, nothing is broadcast.
    RoomNotFound,
    /// No separator: the frame is discarded silently.
    Malformed,
}

/// One live connection's binding of a user identity to a bus subscription.
/// The session holds no authoritative state — the directory and the room
/// store remain the sources of truth — only the receiver handle it carries
/// through its `Opening -> Active -> Closing -> Closed` lifecycle.
pub struct ConnectionSession {
    pub user_id: usize,
    pub receiver: usize,
    pub phase: SessionPhase,
}

impl ConnectionSession {
    /// The session's receiver handle names a live subscription of this bus.
    pub open spec fn valid_receiver(self, bus: Broadcaster) -> bool {
        (self.receiver as int) < bus.sub_count() && bus.is_live(self.receiver as int)
    }

    /// Opens a session for `user_id`: validates that the identity exists and
    /// takes a fresh bus subscription. An unknown id never enters `Active`
    /// and leaves the bus untouched.
    pub fn open(directory: &IdentityDirectory, bus: &mut Broadcaster, user_id: usize) -> (r:
        Result<ConnectionSession, HubError>)
        requires
            old(bus).wf(),
            old(bus).sub_count() < usize::MAX,
        ensures
            final(bus).wf(),
            final(bus).cap() == old(bus).cap(),
            (r is Ok) <==> user_id < directory@.len(),
            r is Err ==> *final(bus) == *old(bus) && r == Err::<ConnectionSession, HubError>(
                HubError::NotFound,
            ),
            r matches Ok(s) ==> ({
                &&& s.user_id == user_id
                &&& s.phase == SessionPhase::Active
                &&& s.receiver as nat == old(bus).sub_count()
                &&& s.valid_receiver(*final(bus))
                &&& final(bus).sub_count() == old(bus).sub_count() + 1
                &&& final(bus).pending(s.receiver as int) == Seq::<Seq<char>>::empty()
                &&& forall|j: int|
                    0 <= j < old(bus).sub_count() ==> final(bus).is_live(j) == old(bus).is_live(j)
                        && final(bus).pending(j) == old(bus).pending(j)
            }),
    {
        if directory.contains_user(user_id) {
            let receiver = bus.subscribe();
            Ok(ConnectionSession { user_id, receiver, phase: SessionPhase::Active })
        } else {
            Err(HubError::NotFound)
        }
    }

    /// The read-loop step for one inbound frame. A well-formed frame
    /// `"room-name\ntext"` is appended to the addressed room's log and the
    /// whole frame, prefixed by this session's author id, is published to
    /// every receiver. A missing room or a malformed frame is a local,
    /// recoverable condition: the session itself is untouched whatever the
    /// outcome, and nothing is appended or broadcast.
    pub fn handle_inbound(&self, rooms: &mut RoomStore, bus: &mut Broadcaster, frame: &str) -> (r:
        InboundOutcome)
        requires
            self.phase == SessionPhase::Active,
            old(rooms).wf(),
            old(bus).wf(),
        ensures
            final(rooms).wf(),
            final(bus).wf(),
            final(bus).cap() == old(bus).cap(),
            final(bus).sub_count() == old(bus).sub_count(),
            forall|j: int|
                0 <= j < old(bus).sub_count() ==> final(bus).is_live(j) == old(bus).is_live(j),
            (r == InboundOutcome::Malformed) <==> !has_separator(frame@),
            (r == InboundOutcome::RoomNotFound) <==> (has_separator(frame@)
                && !old(rooms).has_room(room_of(frame@))),
            (r == InboundOutcome::Published) <==> (has_separator(frame@) && old(rooms).has_room(
                room_of(frame@),
            )),
            r != InboundOutcome::Published ==> final(rooms)@ == old(rooms)@
                && *final(bus) == *old(bus),
            r == InboundOutcome::Published ==> ({
                let room = room_of(frame@);
                let out = outbound_frame(self.user_id as nat, frame@);
                &&& final(rooms)@.len() == old(rooms)@.len()
                &&& (forall|i: int|
                    0 <= i < old(rooms)@.len() && (#[trigger] old(rooms)@[i]).name@ != room
                        ==> final(rooms)@[i] == old(rooms)@[i])
                &&& (forall|i: int|
                    0 <= i < old(rooms)@.len() && (#[trigger] old(rooms)@[i]).name@ == room ==> {
                        &&& final(rooms)@[i].name == old(rooms)@[i].name
                        &&& final(rooms)@[i].user_set == old(rooms)@[i].user_set
                        &&& final(rooms)@[i].messages@.len() == old(rooms)@[i].messages@.len() + 1
                        &&& (forall|k: int|
                            0 <= k < old(rooms)@[i].messages@.len()
                                ==> final(rooms)@[i].messages@[k] == old(rooms)@[i].messages@[k])
                        &&& final(rooms)@[i].messages@.last().user_id == self.user_id
                        &&& final(rooms)@[i].messages@.last().message@ == text_of(frame@)
                    })
                &&& (forall|j: int|
                    0 <= j < old(bus).sub_count() && old(bus).is_live(j) ==> final(bus).pending(j)
                        == delivered(old(bus).pending(j), out, old(bus).cap()))
                &&& (forall|j: int|
                    0 <= j < old(bus).sub_count() && !old(bus).is_live(j) ==> final(bus).pending(j)
                        == old(bus).pending(j))
            }),
    {
        match split_frame(frame) {
            None => InboundOutcome::Malformed,
            Some((room, text)) => {
                match rooms.append_message(room.as_str(), self.user_id, text) {
                    Err(_) => InboundOutcome::RoomNotFound,
                    Ok(()) => {
                        let out = encode_outbound(self.user_id, frame);
                        bus.publish(&out);
                        InboundOutcome::Published
                    },
                }
            },
        }
    }

    /// The write-loop step: takes the next frame pending for this session's
    /// receiver, to be forwarded to the socket. Yields nothing when the
    /// receiver is drained.
    pub fn next_outbound(&self, bus: &mut Broadcaster) -> (r: Option<String>)
        requires
            self.phase == SessionPhase::Active,
            old(bus).wf(),
            self.valid_receiver(*old(bus)),
        ensures
            final(bus).wf(),
            final(bus).cap() == old(bus).cap(),
            final(bus).sub_count() == old(bus).sub_count(),
            self.valid_receiver(*final(bus)),
            forall|j: int|
                0 <= j < old(bus).sub_count() ==> final(bus).is_live(j) == old(bus).is_live(j),
            forall|j: int|
                0 <= j < old(bus).sub_count() && j != self.receiver ==> final(bus).pending(j)
                    == old(bus).pending(j),
            (r is Some) <==> old(bus).pending(self.receiver as int).len() > 0,
            r matches Some(f) ==> f@ == old(bus).pending(self.receiver as int)[0]
                && final(bus).pending(self.receiver as int) == old(bus).pending(
                self.receiver as int,
            ).drop_first(),
            r is None ==> final(bus).pending(self.receiver as int) == old(bus).pending(
                self.receiver as int,
            ),
    {
        bus.receive(self.receiver)
    }

    /// Either loop ending moves the session to `Closing`: the subscription
    /// is released, so the bus delivers nothing further to it, and every
    /// other receiver is untouched — one peer's end never reaches another
    /// session.
    pub fn begin_close(&mut self, bus: &mut Broadcaster)
        requires
            old(self).phase == SessionPhase::Active,
            old(bus).wf(),
            old(self).valid_receiver(*old(bus)),
        ensures
            final(self).phase == SessionPhase::Closing,
            final(self).user_id == old(self).user_id,
            final(self).receiver == old(self).receiver,
            final(bus).wf(),
            final(bus).cap() == old(bus).cap(),
            final(bus).sub_count() == old(bus).sub_count(),
            !final(bus).is_live(old(self).receiver as int),
            forall|j: int|
                0 <= j < old(bus).sub_count() && j != old(self).receiver ==> final(bus).is_live(j)
                    == old(bus).is_live(j) && final(bus).pending(j) == old(bus).pending(j),
    {
        bus.unsubscribe(self.receiver);
        self.phase = SessionPhase::Closing;
    }

    /// Terminal: once both loops have stopped the session is `Closed` and
    /// permits no further operation.
    pub fn finish_close(&mut self)
        requires
            old(self).phase == SessionPhase::Closing,
        ensures
            final(self).phase == SessionPhase::Closed,
            final(self).user_id == old(self).user_id,
            final(self).receiver == old(self).receiver,
    {
        self.phase = SessionPhase::Closed;
    }
}

} // verus!
