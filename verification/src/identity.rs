use vstd::prelude::*;

verus! {

/// A registered identity. Created once at registration, immutable after,
/// never deleted.
pub struct User {
    pub id: usize,
    pub name: String,
}

/// The directory of registered users: the sole source of truth for which
/// identities exist. Ids are assigned monotonically from zero.
pub struct IdentityDirectory {
    users: Vec<User>,
}

impl View for IdentityDirectory {
    type V = Seq<User>;

    closed spec fn view(&self) -> Seq<User> {
        self.users@
    }
}

impl IdentityDirectory {
    /// Every stored user carries the id under which it was filed.
    pub open spec fn wf(self) -> bool {
        forall|i: int| 0 <= i < self@.len() ==> (#[trigger] self@[i]).id == i
    }

    pub fn new() -> (d: Self)
        ensures
            d@.len() == 0,
            d.wf(),
    {
        IdentityDirectory { users: Vec::new() }
    }

    /// Allocates the next id, stores the user, and returns the id. Never
    /// fails: the returned id always exceeds every previously assigned one.
    pub fn register(&mut self, name: String) -> (id: usize)
        requires
            old(self).wf(),
            old(self)@.len() < usize::MAX,
        ensures
            final(self).wf(),
            id == old(self)@.len(),
            final(self)@ == old(self)@.push((User { id, name })),
    {
        let id = self.users.len();
        self.users.push(User { id, name });
        id
    }

    /// Pure read: the user filed under `user_id`, present exactly when that
    /// id has been assigned.
    pub fn lookup(&self, user_id: usize) -> (r: Option<&User>)
        requires
            self.wf(),
        ensures
            (r is Some) <==> user_id < self@.len(),
            r matches Some(u) ==> *u == self@[user_id as int] && u.id == user_id,
    {
        if user_id < self.users.len() {
            Some(&self.users[user_id])
        } else {
            None
        }
    }

    pub fn contains_user(&self, user_id: usize) -> (b: bool)
        ensures
            b <==> user_id < self@.len(),
    {
        user_id < self.users.len()
    }

    pub fn user_count(&self) -> (n: usize)
        ensures
            n == self@.len(),
    {
        self.users.len()
    }

    pub fn all_users(&self) -> (r: &Vec<User>)
        ensures
            r@ == self@,
    {
        &self.users
    }
}

/// Registration is monotonic and unique: of any two users the directory ever
/// filed, the one registered later carries the strictly larger id, so all
/// assigned ids are pairwise distinct. Together with the contract of
/// `register` (the returned id equals the directory's size, which each call
/// grows by one) this covers every sequence of registrations.
pub proof fn lemma_registration_monotonic(d: IdentityDirectory, i: int, j: int)
    requires
        d.wf(),
        0 <= i < j < d@.len(),
    ensures
        d@[i].id < d@[j].id,
        d@[i].id != d@[j].id,
{
}

} // verus!
