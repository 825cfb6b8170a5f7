use vstd::prelude::*;

use crate::errors::HubError;

verus! {

/// One entry of a room's log: who said what, in arrival order.
pub struct UserMessage {
    pub user_id: usize,
    pub message: String,
}

/// A named room. The name is unique over the store and serves as the room's
/// identity; the membership set only grows; the log is append-only.
pub struct Room {
    pub name: String,
    pub user_set: Vec<usize>,
    pub messages: Vec<UserMessage>,
}

impl Room {
    /// The membership list holds no user twice.
    pub open spec fn wf(self) -> bool {
        forall|i: int, j: int|
            0 <= i < j < self.user_set@.len() ==> #[trigger] self.user_set@[i]
                != #[trigger] self.user_set@[j]
    }

    /// `b` reads as the same room as `a`: same name, members and log.
    pub open spec fn room_equiv(a: Room, b: Room) -> bool {
        &&& a.name@ == b.name@
        &&& a.user_set@ == b.user_set@
        &&& a.messages@.len() == b.messages@.len()
        &&& forall|i: int|
            0 <= i < a.messages@.len() ==> (#[trigger] a.messages@[i]).user_id
                == b.messages@[i].user_id && a.messages@[i].message@ == b.messages@[i].message@
    }

    /// A deep copy of the room, handed out to callers as the current state.
    pub fn snapshot(&self) -> (r: Room)
        ensures
            Room::room_equiv(*self, r),
    {
        let mut msgs: Vec<UserMessage> = Vec::new();
        let n = self.messages.len();
        let mut i: usize = 0;
        while i < n
            invariant
                n == self.messages@.len(),
                0 <= i <= n,
                msgs@.len() == i,
                forall|j: int|
                    0 <= j < i ==> (#[trigger] msgs@[j]).user_id == self.messages@[j].user_id
                        && msgs@[j].message@ == self.messages@[j].message@,
            decreases n - i,
        {
            let m = &self.messages[i];
            msgs.push(UserMessage { user_id: m.user_id, message: m.message.clone() });
            i = i + 1;
        }
        let mut members: Vec<usize> = Vec::new();
        let k = self.user_set.len();
        let mut j: usize = 0;
        while j < k
            invariant
                k == self.user_set@.len(),
                0 <= j <= k,
                members@ == self.user_set@.subrange(0, j as int),
            decreases k - j,
        {
            members.push(self.user_set[j]);
            proof {
                assert(members@ =~= self.user_set@.subrange(0, j + 1 as int));
            }
            j = j + 1;
        }
        proof {
            assert(members@ =~= self.user_set@);
        }
        Room { name: self.name.clone(), user_set: members, messages: msgs }
    }
}

/// Membership after a join: unchanged when the user is already a member,
/// extended by the user otherwise. Membership only grows.
pub open spec fn join_members(members: Seq<usize>, user_id: usize) -> Seq<usize> {
    if members.contains(user_id) {
        members
    } else {
        members.push(user_id)
    }
}

/// Join is idempotent: joining again with the same user id leaves the
/// membership exactly as the first join left it — in particular of the same
/// size.
pub proof fn lemma_join_idempotent(members: Seq<usize>, user_id: usize)
    ensures
        join_members(join_members(members, user_id), user_id) == join_members(members, user_id),
        join_members(join_members(members, user_id), user_id).len() == join_members(
            members,
            user_id,
        ).len(),
{
    if !members.contains(user_id) {
        assert(members.push(user_id)[members.len() as int] == user_id);
        assert(members.push(user_id).contains(user_id));
    }
}

/// The store of all rooms, the sole source of truth for room existence,
/// membership and logs. Every operation is a point operation on one room.
pub struct RoomStore {
    rooms: Vec<Room>,
}

impl View for RoomStore {
    type V = Seq<Room>;

    closed spec fn view(&self) -> Seq<Room> {
        self.rooms@
    }
}

impl RoomStore {
    /// Room names are pairwise distinct and every room is well formed.
    pub open spec fn wf(self) -> bool {
        &&& forall|i: int, j: int|
            0 <= i < j < self@.len() ==> (#[trigger] self@[i]).name@ != (
            #[trigger] self@[j]).name@
        &&& forall|i: int| 0 <= i < self@.len() ==> (#[trigger] self@[i]).wf()
    }

    /// Whether a room of this name exists.
    pub open spec fn has_room(self, name: Seq<char>) -> bool {
        exists|i: int| 0 <= i < self@.len() && (#[trigger] self@[i]).name@ == name
    }

    pub fn new() -> (s: Self)
        ensures
            s@.len() == 0,
            s.wf(),
    {
        RoomStore { rooms: Vec::new() }
    }

    /// The position of the room of this name, if any.
    fn find(&self, name: &str) -> (r: Option<usize>)
        ensures
            r matches Some(i) ==> i < self@.len() && self@[i as int].name@ == name@,
            (r is Some) <==> self.has_room(name@),
    {
        let want: String = name.to_owned();
        let n = self.rooms.len();
        let mut i: usize = 0;
        while i < n
            invariant
                n == self@.len(),
                0 <= i <= n,
                want@ == name@,
                forall|j: int| 0 <= j < i ==> (#[trigger] self@[j]).name@ != name@,
            decreases n - i,
        {
            if self.rooms[i].name == want {
                return Some(i);
            }
            i = i + 1;
        }
        None
    }

    /// Creates a room owned by nobody in particular, with the creator as its
    /// first member and an empty log. A taken name is rejected with
    /// `Conflict` and the store — the existing room included — is untouched.
    pub fn create(&mut self, name: String, creator_id: usize) -> (r: Result<(), HubError>)
        requires
            old(self).wf(),
        ensures
            final(self).wf(),
            (r is Err) <==> old(self).has_room(name@),
            r is Err ==> final(self)@ == old(self)@ && r == Err::<(), HubError>(HubError::Conflict),
            r is Ok ==> final(self)@.len() == old(self)@.len() + 1,
            r is Ok ==> (forall|i: int|
                0 <= i < old(self)@.len() ==> final(self)@[i] == old(self)@[i]),
            r is Ok ==> final(self)@.last().name == name && final(self)@.last().user_set@
                == seq![creator_id] && final(self)@.last().messages@ == Seq::<UserMessage>::empty(),
    {
        match self.find(name.as_str()) {
            Some(_) => Err(HubError::Conflict),
            None => {
                let mut members: Vec<usize> = Vec::new();
                members.push(creator_id);
                proof {
                    assert(members@ =~= seq![creator_id]);
                }
                let room = Room { name, user_set: members, messages: Vec::new() };
                self.rooms.push(room);
                Ok(())
            },
        }
    }

    /// Adds the user to the room's membership — a no-op when already a
    /// member — and returns a snapshot of the room as joined. An unknown
    /// name is rejected with `NotFound` and nothing changes.
    pub fn join(&mut self, name: &str, user_id: usize) -> (r: Result<Room, HubError>)
        requires
            old(self).wf(),
        ensures
            final(self).wf(),
            (r is Ok) <==> old(self).has_room(name@),
            r is Err ==> final(self)@ == old(self)@ && r == Err::<Room, HubError>(
                HubError::NotFound,
            ),
            r is Ok ==> final(self)@.len() == old(self)@.len(),
            r is Ok ==> (forall|i: int|
                0 <= i < old(self)@.len() && (#[trigger] old(self)@[i]).name@ != name@
                    ==> final(self)@[i] == old(self)@[i]),
            r is Ok ==> (forall|i: int|
                0 <= i < old(self)@.len() && (#[trigger] old(self)@[i]).name@ == name@ ==> {
                    &&& final(self)@[i].name == old(self)@[i].name
                    &&& final(self)@[i].messages == old(self)@[i].messages
                    &&& final(self)@[i].user_set@ == join_members(old(self)@[i].user_set@, user_id)
                }),
            r matches Ok(snap) ==> (forall|i: int|
                0 <= i < final(self)@.len() && (#[trigger] final(self)@[i]).name@ == name@
                    ==> Room::room_equiv(final(self)@[i], snap)),
    {
        match self.find(name) {
            None => Err(HubError::NotFound),
            Some(i) => {
                let room = &mut self.rooms[i];
                if !members_contain(&room.user_set, user_id) {
                    room.user_set.push(user_id);
                }
                let snap = self.rooms[i].snapshot();
                Ok(snap)
            },
        }
    }

    /// Appends `{user_id, text}` to the addressed room's log. An unknown
    /// name is a recoverable condition: the store is untouched and
    /// `NotFound` is reported, never a crash.
    pub fn append_message(&mut self, name: &str, user_id: usize, text: String) -> (r: Result<
        (),
        HubError,
    >)
        requires
            old(self).wf(),
        ensures
            final(self).wf(),
            (r is Ok) <==> old(self).has_room(name@),
            r is Err ==> final(self)@ == old(self)@ && r == Err::<(), HubError>(HubError::NotFound),
            r is Ok ==> final(self)@.len() == old(self)@.len(),
            r is Ok ==> (forall|i: int|
                0 <= i < old(self)@.len() && (#[trigger] old(self)@[i]).name@ != name@
                    ==> final(self)@[i] == old(self)@[i]),
            r is Ok ==> (forall|i: int|
                0 <= i < old(self)@.len() && (#[trigger] old(self)@[i]).name@ == name@ ==> {
                    &&& final(self)@[i].name == old(self)@[i].name
                    &&& final(self)@[i].user_set == old(self)@[i].user_set
                    &&& final(self)@[i].messages@ == old(self)@[i].messages@.push(
                        (UserMessage { user_id, message: text }),
                    )
                    &&& final(self)@[i].messages@.len() == old(self)@[i].messages@.len() + 1
                    &&& final(self)@[i].messages@.last().user_id == user_id
                    &&& final(self)@[i].messages@.last().message@ == text@
                }),
    {
        match self.find(name) {
            None => Err(HubError::NotFound),
            Some(i) => {
                let room = &mut self.rooms[i];
                room.messages.push(UserMessage { user_id, message: text });
                Ok(())
            },
        }
    }

    /// Read-only view of every room.
    pub fn list_all(&self) -> (r: &Vec<Room>)
        ensures
            r@ == self@,
    {
        &self.rooms
    }
}

/// Whether the membership list holds this user.
fn members_contain(members: &Vec<usize>, user_id: usize) -> (b: bool)
    ensures
        b <==> members@.contains(user_id),
{
    let n = members.len();
    let mut i: usize = 0;
    while i < n
        invariant
            n == members@.len(),
            0 <= i <= n,
            forall|j: int| 0 <= j < i ==> members@[j] != user_id,
        decreases n - i,
    {
        if members[i] == user_id {
            proof {
                assert(members@.contains(user_id)) by {
                    assert(members@[i as int] == user_id);
                }
            }
            return true;
        }
        i = i + 1;
    }
    false
}

} // verus!
