use vstd::prelude::*;
use vstd::string::StringExecFns;
use crate::json::text_is;
use crate::model::{PublicUser, RoomConfig, UserId, public_of};

verus! {

/// A live room: its settings and the handle through which it takes commands.
pub struct RoomEntry<S> {
    pub config: RoomConfig,
    pub sink: S,
}

/// Why the registry refused an operation.
pub enum RegistryError {
    /// The user is already joined to a room.
    AlreadyConnected,
    /// A room of that name exists.
    DuplicateName,
    /// No room of that name exists.
    NotFound,
}

/// Whether a user may join a room, and why not.
pub struct CanConnect {
    pub can_connect: bool,
    pub reason: String,
}

/// A public room as the room list shows it.
pub struct RoomListing {
    pub name: String,
    pub owner: PublicUser,
}

/// The process-wide directory of live rooms and of the users joined to one.
pub struct Registry<S> {
    rooms: Vec<RoomEntry<S>>,
    users_connected: Vec<UserId>,
}

impl<S> Registry<S> {
    /// The live rooms, oldest first.
    pub closed spec fn rooms(&self) -> Seq<RoomEntry<S>> {
        self.rooms@
    }

    /// Ids of the users joined to some room.
    pub closed spec fn connected(&self) -> Seq<UserId> {
        self.users_connected@
    }

    pub open spec fn has_room(&self, name: Seq<char>) -> bool {
        exists|i: int| 0 <= i < self.rooms().len() && self.rooms()[i].config.name@ == name
    }

    pub open spec fn is_connected(&self, user: Seq<char>) -> bool {
        exists|i: int| 0 <= i < self.connected().len() && self.connected()[i]@ == user
    }

    /// Room name to its settings.
    pub open spec fn room_map(&self) -> Map<Seq<char>, RoomConfig> {
        Map::new(
            |n: Seq<char>| self.has_room(n),
            |n: Seq<char>|
                self.rooms()[choose|i: int| 0 <= i < self.rooms().len() && self.rooms()[i].config.name@ == n].config,
        )
    }

    /// The set of users joined to some room.
    pub open spec fn users_connected(&self) -> Set<Seq<char>> {
        Set::new(|u: Seq<char>| self.is_connected(u))
    }

    /// Names are unique among rooms, and a user is listed at most once.
    pub open spec fn wf(&self) -> bool {
        &&& unique_names(self.rooms())
        &&& unique_users(self.connected())
    }

    pub fn new() -> (r: Self)
        ensures
            r.wf(),
            r.rooms().len() == 0,
            r.connected().len() == 0,
    {
        Registry { rooms: Vec::new(), users_connected: Vec::new() }
    }

    fn find_room(&self, name: &String) -> (r: Option<usize>)
        ensures
            match r {
                Some(i) => i < self.rooms().len() && self.rooms()[i as int].config.name@ == name@,
                None => !self.has_room(name@),
            },
    {
        let mut i: usize = 0;
        while i < self.rooms.len()
            invariant
                i <= self.rooms@.len(),
                forall|j: int| 0 <= j < i ==> self.rooms@[j].config.name@ != name@,
            decreases self.rooms.len() - i,
        {
            if text_is(self.rooms[i].config.name.as_str(), name.as_str()) {
                return Some(i);
            }
            i = i + 1;
        }
        None
    }

    fn find_user(&self, user: &UserId) -> (r: Option<usize>)
        ensures
            match r {
                Some(i) => i < self.connected().len() && self.connected()[i as int]@ == user@,
                None => !self.is_connected(user@),
            },
    {
        let mut i: usize = 0;
        while i < self.users_connected.len()
            invariant
                i <= self.users_connected@.len(),
                forall|j: int| 0 <= j < i ==> self.users_connected@[j]@ != user@,
            decreases self.users_connected.len() - i,
        {
            if self.users_connected[i].0 == user.0 {
                return Some(i);
            }
            i = i + 1;
        }
        None
    }

    /// Checks whether `owner` may open a room called `name`.
    pub fn check_create(&self, owner: &UserId, name: &String) -> (r: Result<(), RegistryError>)
        ensures
            match r {
                Ok(()) => !self.is_connected(owner@) && !self.has_room(name@),
                Err(RegistryError::AlreadyConnected) => self.is_connected(owner@),
                Err(RegistryError::DuplicateName) => !self.is_connected(owner@) && self.has_room(name@),
                Err(RegistryError::NotFound) => false,
            },
    {
        if self.find_user(owner).is_some() {
            Err(RegistryError::AlreadyConnected)
        } else if self.find_room(name).is_some() {
            Err(RegistryError::DuplicateName)
        } else {
            Ok(())
        }
    }

    /// Registers a new room, unless its owner is joined to a room or its
    /// name is taken.
    pub fn create_room(&mut self, config: RoomConfig, sink: S) -> (r: Result<(), RegistryError>)
        requires
            old(self).wf(),
        ensures
            final(self).wf(),
            final(self).connected() == old(self).connected(),
            match r {
                Ok(()) => !old(self).is_connected(config.owner.id@) && !old(self).has_room(config.name@)
                    && final(self).rooms() == old(self).rooms().push(RoomEntry { config, sink }),
                Err(RegistryError::AlreadyConnected) => old(self).is_connected(config.owner.id@)
                    && final(self).rooms() == old(self).rooms(),
                Err(RegistryError::DuplicateName) => !old(self).is_connected(config.owner.id@)
                    && old(self).has_room(config.name@) && final(self).rooms() == old(self).rooms(),
                Err(RegistryError::NotFound) => false,
            },
    {
        match self.check_create(&config.owner.id, &config.name) {
            Err(e) => Err(e),
            Ok(()) => {
                let ghost name = config.name@;
                self.rooms.push(RoomEntry { config, sink });
                proof {
                    let o = old(self).rooms@;
                    let n = self.rooms@;
                    assert forall|a: int, b: int| 0 <= a < b < self.rooms().len() implies self.rooms()[a].config.name@ != self.rooms()[b].config.name@ by {
                        if b == n.len() - 1 {
                            assert(n[a] == o[a]);
                            assert(!(old(self).rooms()[a].config.name@ == name));
                        } else {
                            assert(n[a] == o[a] && n[b] == o[b]);
                            assert(old(self).rooms()[a].config.name@ != old(self).rooms()[b].config.name@);
                        }
                    }
                }
                Ok(())
            },
        }
    }

    /// Joins `user` to the room `name`; the room's handle is then had with
    /// `sink`.
    pub fn join(&mut self, user: &UserId, name: &String) -> (r: Result<(), RegistryError>)
        requires
            old(self).wf(),
        ensures
            final(self).wf(),
            final(self).rooms() == old(self).rooms(),
            match r {
                Ok(()) => !old(self).is_connected(user@) && old(self).has_room(name@)
                    && final(self).connected() == old(self).connected().push(*user),
                Err(RegistryError::AlreadyConnected) => old(self).is_connected(user@)
                    && final(self).connected() == old(self).connected(),
                Err(RegistryError::NotFound) => !old(self).is_connected(user@) && !old(self).has_room(name@)
                    && final(self).connected() == old(self).connected(),
                Err(RegistryError::DuplicateName) => false,
            },
    {
        if self.find_user(user).is_some() {
            return Err(RegistryError::AlreadyConnected);
        }
        if self.find_room(name).is_none() {
            return Err(RegistryError::NotFound);
        }
        self.users_connected.push(user.clone());
        proof {
            let o = old(self).users_connected@;
            let n = self.users_connected@;
            assert forall|a: int, b: int| 0 <= a < b < self.connected().len() implies self.connected()[a]@ != self.connected()[b]@ by {
                assert(self.connected() == n);
                assert(n[b] == *user || b < n.len() - 1);
                if b == n.len() - 1 {
                    assert(n[a] == o[a]);
                    assert(!(old(self).connected()[a]@ == user@));
                }
            }
        }
        Ok(())
    }

    /// The handle of the room `name`.
    pub fn sink(&self, name: &String) -> (r: Option<&S>)
        requires
            self.wf(),
        ensures
            match r {
                Some(s) => self.has_room(name@) && exists|i: int|
                    0 <= i < self.rooms().len() && self.rooms()[i].config.name@ == name@ && self.rooms()[i].sink == *s,
                None => !self.has_room(name@),
            },
    {
        match self.find_room(name) {
            Some(i) => Some(&self.rooms[i].sink),
            None => None,
        }
    }

    /// Releases `user`; a user not joined is left alone.
    pub fn leave(&mut self, user: &UserId)
        requires
            old(self).wf(),
        ensures
            final(self).wf(),
            final(self).rooms() == old(self).rooms(),
            !final(self).is_connected(user@),
            forall|u: Seq<char>| u != user@ ==> (final(self).is_connected(u) == old(self).is_connected(u)),
    {
        match self.find_user(user) {
            None => {},
            Some(i) => {
                self.users_connected.remove(i);
                proof {
                    let o = old(self).users_connected@;
                    let n = self.users_connected@;
                    assert forall|a: int| 0 <= a < n.len() implies n[a]@ != user@ by {
                        let oa = if a < i { a } else { a + 1 };
                        assert(n[a] == o[oa]);
                        if oa < i { assert(o[oa]@ != o[i as int]@); } else { assert(o[i as int]@ != o[oa]@); }
                    }
                    assert forall|a: int, b: int| 0 <= a < b < self.connected().len() implies self.connected()[a]@ != self.connected()[b]@ by {
                        let oa = if a < i { a } else { a + 1 };
                        let ob = if b < i { b } else { b + 1 };
                        assert(n[a] == o[oa] && n[b] == o[ob]);
                        assert(old(self).connected()[oa]@ != old(self).connected()[ob]@);
                    }
                    assert forall|u: Seq<char>| u != user@ implies (self.is_connected(u) == old(self).is_connected(u)) by {
                        if old(self).is_connected(u) {
                            let k = choose|k: int| 0 <= k < o.len() && o[k]@ == u;
                            let nk = if k < i { k } else { k - 1 };
                            assert(n[nk] == o[k]);
                            assert(self.connected()[nk]@ == u);
                        }
                        if self.is_connected(u) {
                            let k = choose|k: int| 0 <= k < n.len() && n[k]@ == u;
                            let ok = if k < i { k } else { k + 1 };
                            assert(n[k] == o[ok]);
                            assert(old(self).connected()[ok]@ == u);
                        }
                    }
                }
            },
        }
    }

    /// Forgets the room `name` once it has stopped.
    pub fn remove_room(&mut self, name: &String)
        requires
            old(self).wf(),
        ensures
            final(self).wf(),
            final(self).connected() == old(self).connected(),
            !final(self).has_room(name@),
            forall|n: Seq<char>| n != name@ ==> (final(self).has_room(n) == old(self).has_room(n)),
    {
        match self.find_room(name) {
            None => {},
            Some(i) => {
                self.rooms.remove(i);
                proof {
                    let o = old(self).rooms@;
                    let n = self.rooms@;
                    assert forall|a: int| 0 <= a < n.len() implies n[a].config.name@ != name@ by {
                        let oa = if a < i { a } else { a + 1 };
                        assert(n[a] == o[oa]);
                        if oa < i { assert(o[oa].config.name@ != o[i as int].config.name@); }
                        else { assert(o[i as int].config.name@ != o[oa].config.name@); }
                    }
                    assert forall|a: int, b: int| 0 <= a < b < self.rooms().len() implies self.rooms()[a].config.name@ != self.rooms()[b].config.name@ by {
                        let oa = if a < i { a } else { a + 1 };
                        let ob = if b < i { b } else { b + 1 };
                        assert(n[a] == o[oa] && n[b] == o[ob]);
                        assert(old(self).rooms()[oa].config.name@ != old(self).rooms()[ob].config.name@);
                    }
                    assert forall|x: Seq<char>| x != name@ implies (self.has_room(x) == old(self).has_room(x)) by {
                        if old(self).has_room(x) {
                            let k = choose|k: int| 0 <= k < o.len() && o[k].config.name@ == x;
                            let nk = if k < i { k } else { k - 1 };
                            assert(n[nk] == o[k]);
                            assert(self.rooms()[nk].config.name@ == x);
                        }
                        if self.has_room(x) {
                            let k = choose|k: int| 0 <= k < n.len() && n[k].config.name@ == x;
                            let ok = if k < i { k } else { k + 1 };
                            assert(n[k] == o[ok]);
                            assert(old(self).rooms()[ok].config.name@ == x);
                        }
                    }
                }
            },
        }
    }

    /// Whether `user` may join the room `name`, with the reason when not.
    pub fn can_connect(&self, user: &UserId, name: &String) -> (r: CanConnect)
        ensures
            r.can_connect == (!self.is_connected(user@) && self.has_room(name@)),
            self.is_connected(user@) ==> r.reason@ == "You are already connected to a room."@,
            !self.is_connected(user@) && !self.has_room(name@) ==> r.reason@ == "Room does not exist."@,
            r.can_connect ==> r.reason@.len() == 0,
    {
        if self.find_user(user).is_some() {
            CanConnect { can_connect: false, reason: String::from_str("You are already connected to a room.") }
        } else if self.find_room(name).is_none() {
            CanConnect { can_connect: false, reason: String::from_str("Room does not exist.") }
        } else {
            CanConnect { can_connect: true, reason: String::new() }
        }
    }

    /// The public rooms, oldest first, with their owners' public projection.
    pub fn list(&self) -> (r: Vec<RoomListing>)
        ensures
            r@ == public_listing(self.rooms()),
    {
        let mut r: Vec<RoomListing> = Vec::new();
        let mut i: usize = 0;
        while i < self.rooms.len()
            invariant
                i <= self.rooms@.len(),
                r@ == public_listing(self.rooms@.take(i as int)),
            decreases self.rooms.len() - i,
        {
            assert(self.rooms@.take(i + 1).drop_last() =~= self.rooms@.take(i as int));
            if self.rooms[i].config.public {
                r.push(RoomListing { name: self.rooms[i].config.name.clone(), owner: self.rooms[i].config.owner.to_public() });
            }
            i = i + 1;
        }
        assert(self.rooms@.take(i as int) =~= self.rooms@);
        r
    }
}

/// No two rooms of `rooms` share a name.
pub open spec fn unique_names<S>(rooms: Seq<RoomEntry<S>>) -> bool {
    forall|i: int, j: int| 0 <= i < j < rooms.len() ==> rooms[i].config.name@ != rooms[j].config.name@
}

/// No user id occurs twice in `users`.
pub open spec fn unique_users(users: Seq<UserId>) -> bool {
    forall|i: int, j: int| 0 <= i < j < users.len() ==> users[i]@ != users[j]@
}

/// The listing of the public rooms among `rooms`, in order.
pub open spec fn public_listing<S>(rooms: Seq<RoomEntry<S>>) -> Seq<RoomListing>
    decreases rooms.len(),
{
    if rooms.len() == 0 {
        Seq::empty()
    } else {
        let rest = public_listing(rooms.drop_last());
        let c = rooms.last().config;
        if c.public {
            rest.push(RoomListing { name: c.name, owner: public_of(c.owner) })
        } else {
            rest
        }
    }
}

} // verus!
