use vstd::prelude::*;
use crate::ids::{IdCounter, new_id, spec_issue};

verus! {

/// A client known to the server: its player name, its address and the
/// identifier of its player.
pub struct ClientEntry<A> {
    pub name: String,
    pub addr: A,
    pub id: u64,
}

/// The clients of a server, each name at most once.
pub struct Clients<A> {
    entries: Vec<ClientEntry<A>>,
}

/// The identifier registered under `name`, if any (the last entry wins).
pub open spec fn spec_lookup<A>(s: Seq<(Seq<char>, A, u64)>, name: Seq<char>) -> Option<u64>
    decreases s.len(),
{
    if s.len() == 0 {
        None
    } else if s.last().0 == name {
        Some(s.last().2)
    } else {
        spec_lookup(s.drop_last(), name)
    }
}

/// No name occurs twice.
pub open spec fn names_unique<A>(s: Seq<(Seq<char>, A, u64)>) -> bool {
    forall|i: int, j: int| 0 <= i < j < s.len() ==> s[i].0 != s[j].0
}

/// The answer to a login.
#[derive(Clone, Copy, Debug, PartialEq, Eq, Structural)]
pub enum LoginReply {
    /// The round has not been opened for joining.
    Denied,
    /// The client may play; `assigned` is the identifier of its new player
    /// when it had none yet.
    Welcome { assigned: Option<u64> },
}

/// The clients, the reply and the identifier counter after `name` tries to
/// log in from `addr`: refused unless the start area is open; a known name
/// is welcomed again as it is; a new name gets the next identifier and is
/// registered with its address.
pub open spec fn spec_login<A>(
    s: Seq<(Seq<char>, A, u64)>,
    name: Seq<char>,
    addr: A,
    open: bool,
    c: IdCounter,
) -> (Seq<(Seq<char>, A, u64)>, LoginReply, IdCounter) {
    if !open {
        (s, LoginReply::Denied, c)
    } else if spec_lookup(s, name) is Some {
        (s, LoginReply::Welcome { assigned: None }, c)
    } else {
        let (id, c2) = spec_issue(c);
        (s.push((name, addr, id)), LoginReply::Welcome { assigned: Some(id) }, c2)
    }
}

/// A name is registered exactly when some entry carries it.
pub proof fn lemma_lookup_finds<A>(s: Seq<(Seq<char>, A, u64)>, name: Seq<char>)
    ensures
        (spec_lookup(s, name) is Some) <==> (exists|k: int| 0 <= k < s.len() && #[trigger] s[k].0 == name),
        spec_lookup(s, name) matches Some(id) ==> (exists|k: int| 0 <= k < s.len() && #[trigger] s[k].0 == name && s[k].2 == id),
    decreases s.len(),
{
    if s.len() > 0 {
        lemma_lookup_finds(s.drop_last(), name);
        if spec_lookup(s.drop_last(), name) is Some {
            let k = choose|k: int| 0 <= k < s.drop_last().len() && #[trigger] s.drop_last()[k].0 == name;
            assert(s[k] == s.drop_last()[k]);
        }
        if exists|k: int| 0 <= k < s.len() && #[trigger] s[k].0 == name {
            let k = choose|k: int| 0 <= k < s.len() && #[trigger] s[k].0 == name;
            if k < s.len() - 1 {
                assert(s.drop_last()[k] == s[k]);
            }
        }
        match spec_lookup(s, name) {
            Some(id) => {
                if s.last().0 != name {
                    let k = choose|k: int| 0 <= k < s.drop_last().len() && #[trigger] s.drop_last()[k].0 == name && s.drop_last()[k].2 == id;
                    assert(s[k] == s.drop_last()[k]);
                } else {
                    assert(s[s.len() - 1] == s.last());
                }
            },
            None => {},
        }
    }
}

impl<A: Copy> Clients<A> {
    /// The clients as (name, address, identifier), in the order they joined.
    pub closed spec fn view(&self) -> Seq<(Seq<char>, A, u64)> {
        self.entries@.map_values(|e: ClientEntry<A>| (e.name@, e.addr, e.id))
    }

    /// No name is registered twice.
    pub closed spec fn wf(&self) -> bool {
        names_unique(self.view())
    }

    /// No clients.
    pub fn new() -> (c: Clients<A>)
        ensures
            c.wf(),
            c.view() == Seq::<(Seq<char>, A, u64)>::empty(),
    {
        let c = Clients { entries: Vec::new() };
        assert(c.view() =~= Seq::<(Seq<char>, A, u64)>::empty());
        c
    }

    /// How many clients are registered.
    pub fn len(&self) -> (n: usize)
        ensures
            n == self.view().len(),
    {
        self.entries.len()
    }

    /// The identifier of the player of the client called `name`, if it is registered.
    pub fn lookup(&self, name: &String) -> (id: Option<u64>)
        ensures
            id == spec_lookup(self.view(), name@),
    {
        let ghost s = self.view();
        let mut found: Option<u64> = None;
        let mut i: usize = 0;
        while i < self.entries.len()
            invariant
                i <= self.entries.len(),
                s == self.view(),
                s.len() == self.entries@.len(),
                found == spec_lookup(s.take(i as int), name@),
            decreases self.entries.len() - i,
        {
            proof {
                assert(s.take(i + 1).drop_last() =~= s.take(i as int));
                assert(s[i as int] == (self.entries@[i as int].name@, self.entries@[i as int].addr, self.entries@[i as int].id));
            }
            if self.entries[i].name == *name {
                found = Some(self.entries[i].id);
            }
            i += 1;
        }
        assert(s.take(s.len() as int) =~= s);
        found
    }

    /// The addresses of all clients, in the order they joined.
    pub fn addresses(&self) -> (addrs: Vec<A>)
        ensures
            addrs@ == self.view().map_values(|e: (Seq<char>, A, u64)| e.1),
    {
        let mut addrs: Vec<A> = Vec::new();
        let mut i: usize = 0;
        while i < self.entries.len()
            invariant
                i <= self.entries.len(),
                self.view().len() == self.entries@.len(),
                addrs@ == self.view().map_values(|e: (Seq<char>, A, u64)| e.1).take(i as int),
            decreases self.entries.len() - i,
        {
            addrs.push(self.entries[i].addr);
            i += 1;
            assert(addrs@ =~= self.view().map_values(|e: (Seq<char>, A, u64)| e.1).take(i as int));
        }
        assert(self.view().map_values(|e: (Seq<char>, A, u64)| e.1).take(self.entries.len() as int)
            =~= self.view().map_values(|e: (Seq<char>, A, u64)| e.1));
        addrs
    }

    /// Forgets all clients (the round is over).
    pub fn clear(&mut self)
        ensures
            final(self).wf(),
            final(self).view() == Seq::<(Seq<char>, A, u64)>::empty(),
    {
        self.entries.clear();
        assert(self.view() =~= Seq::<(Seq<char>, A, u64)>::empty());
    }

    /// `name` asks to join from `addr`; `open` is whether the start area is
    /// still open. New players take their identifier from `ids`.
    pub fn login(&mut self, name: &String, addr: A, open: bool, ids: &mut IdCounter) -> (reply: LoginReply)
        requires
            old(self).wf(),
        ensures
            final(self).wf(),
            (final(self).view(), reply, *final(ids)) == spec_login(old(self).view(), name@, addr, open, *old(ids)),
            !open ==> reply == LoginReply::Denied && final(self).view() == old(self).view() && *final(ids) == *old(ids),
            open ==> reply != LoginReply::Denied,
    {
        proof {
            lemma_login_cases(old(self).view(), name@, addr, open, *old(ids));
        }
        if !open {
            return LoginReply::Denied;
        }
        if self.lookup(name).is_some() {
            return LoginReply::Welcome { assigned: None };
        }
        let ghost s = self.view();
        let id = new_id(ids);
        let entry = ClientEntry { name: name.clone(), addr, id };
        self.entries.push(entry);
        proof {
            assert(self.view() =~= s.push((name@, addr, id)));
            lemma_lookup_finds(s, name@);
            assert forall|i: int, j: int| 0 <= i < j < self.view().len() implies self.view()[i].0 != self.view()[j].0 by {
                if j == s.len() {
                    assert(self.view()[i] == s[i]);
                } else {
                    assert(self.view()[i] == s[i] && self.view()[j] == s[j]);
                }
            }
        }
        LoginReply::Welcome { assigned: Some(id) }
    }
}

/// The players of `ids` other than `me`, in order: a client takes the key
/// state the server relays only for players it does not control itself.
pub fn remote_players(ids: &Vec<u64>, me: u64) -> (others: Vec<u64>)
    ensures
        others@ == ids@.filter(|id: u64| id != me),
{
    let ghost s = ids@;
    let mut others: Vec<u64> = Vec::new();
    let mut i: usize = 0;
    while i < ids.len()
        invariant
            i <= ids.len(),
            s == ids@,
            others@ == s.take(i as int).filter(|id: u64| id != me),
        decreases ids.len() - i,
    {
        let id = ids[i];
        proof {
            assert(s.take(i + 1).drop_last() =~= s.take(i as int));
            reveal_with_fuel(Seq::filter, 1);
        }
        if id != me {
            others.push(id);
        }
        i += 1;
    }
    assert(s.take(s.len() as int) =~= s);
    others
}

/// While the start area is closed every login is refused and changes
/// nothing, whether or not the name is known; while it is open no login is
/// refused: a known name gets no new player, a new one gets the counter's
/// next identifier and is added at the end.
pub proof fn lemma_login_cases<A>(
    s: Seq<(Seq<char>, A, u64)>,
    name: Seq<char>,
    addr: A,
    open: bool,
    c: IdCounter,
)
    ensures
        !open ==> spec_login(s, name, addr, open, c) == (s, LoginReply::Denied, c),
        open ==> spec_login(s, name, addr, open, c).1 != LoginReply::Denied,
        open && (exists|k: int| 0 <= k < s.len() && #[trigger] s[k].0 == name)
            ==> spec_login(s, name, addr, open, c) == (s, LoginReply::Welcome { assigned: None }, c),
        open && !(exists|k: int| 0 <= k < s.len() && #[trigger] s[k].0 == name) ==> {
            let (s1, r, c1) = spec_login(s, name, addr, open, c);
            &&& r == LoginReply::Welcome { assigned: Some(c.next) }
            &&& s1 == s.push((name, addr, c.next))
            &&& c1.next == (if c.next == u64::MAX { 0 } else { c.next + 1 })
        },
{
    lemma_lookup_finds(s, name);
}

/// Logging in is idempotent: a name that is already registered is welcomed
/// without a new player and changes nothing; a name that logs in while the
/// start area is open can be looked up afterwards and finds its player.
pub proof fn lemma_login_registers<A>(
    s: Seq<(Seq<char>, A, u64)>,
    name: Seq<char>,
    addr: A,
    again: A,
    c: IdCounter,
)
    ensures
        ({
            let (s1, _r1, c1) = spec_login(s, name, addr, true, c);
            &&& spec_lookup(s1, name) is Some
            &&& spec_login(s1, name, again, true, c1) == (s1, LoginReply::Welcome { assigned: None }, c1)
        }),
        spec_lookup(s, name) is None ==> ({
            let (s1, r1, c1) = spec_login(s, name, addr, true, c);
            &&& r1 == LoginReply::Welcome { assigned: Some(c.next) }
            &&& spec_lookup(s1, name) == Some(c.next)
        }),
{
    let (s1, _r1, _c1) = spec_login(s, name, addr, true, c);
    if spec_lookup(s, name) is None {
        assert(s1.drop_last() =~= s);
    }
}

} // verus!
