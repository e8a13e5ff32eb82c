//! Routing of incoming connections by URL path to a topology.
use vstd::prelude::*;

use crate::ids::UserId;
use crate::server::many_to_many::{self, ManyToManyServer};
use crate::server::one_to_many::{self, OneToManyServer};
use crate::server::one_to_one::{self, OneToOneServer};

verus! {

/// Where a connection is handed after its path was read.
#[derive(Debug, Clone, Copy, PartialEq, Eq, Structural)]
pub enum Endpoint {
    /// The liveness probe; it answers [`HEALTH_BODY`].
    Health,
    OneToOne,
    OneToMany,
    ManyToMany,
}

pub const HEALTH_PATH: &'static str = "/health";

pub const ONE_TO_ONE_PATH: &'static str = "/one-to-one";

pub const ONE_TO_MANY_PATH: &'static str = "/one-to-many";

pub const MANY_TO_MANY_PATH: &'static str = "/many-to-many";

/// The body of the answer to the liveness probe.
pub const HEALTH_BODY: &'static str = "OK";

/// The servers of the three topologies, shared by all connections, and the
/// counter from which every user of the process gets its identifier.
pub struct ServerState<S> {
    pub one_to_one: OneToOneServer<S>,
    pub one_to_many: OneToManyServer<S>,
    pub many_to_many: ManyToManyServer<S>,
    pub next_user: u64,
}

impl<S> ServerState<S> {
    /// Whether `k` is a user of any topology.
    pub open spec fn registered(&self, k: u64) -> bool {
        self.one_to_one.users().contains_key(k) || self.one_to_many.users().contains_key(k)
            || self.many_to_many.users().contains_key(k)
    }

    /// The users of the topology that an endpoint serves.
    pub open spec fn users_at(&self, e: Endpoint) -> Map<u64, S> {
        match e {
            Endpoint::OneToOne => self.one_to_one.users(),
            Endpoint::OneToMany => self.one_to_many.users(),
            Endpoint::ManyToMany => self.many_to_many.users(),
            Endpoint::Health => Map::empty(),
        }
    }

    /// Each server is well formed, every identifier in use came from the
    /// counter, and no identifier is in use in two topologies.
    pub open spec fn wf(&self) -> bool {
        &&& self.one_to_one.wf()
        &&& self.one_to_many.wf()
        &&& self.many_to_many.wf()
        &&& self.next_user >= 1
        &&& forall|k: u64| #[trigger] self.registered(k) ==> k < self.next_user
        &&& forall|k: u64|
            !(#[trigger] self.one_to_one.users().contains_key(k) && #[trigger] self.one_to_many.users().contains_key(k))
        &&& forall|k: u64|
            !(#[trigger] self.one_to_one.users().contains_key(k) && #[trigger] self.many_to_many.users().contains_key(k))
        &&& forall|k: u64|
            !(#[trigger] self.one_to_many.users().contains_key(k) && #[trigger] self.many_to_many.users().contains_key(k))
    }

    /// Three servers with no users and no sessions; the first user will be
    /// named `1`.
    pub fn new() -> (r: Self)
        ensures
            r.wf(),
            r.next_user == 1,
            r.one_to_one.users().is_empty() && r.one_to_one.sessions().is_empty(),
            r.one_to_many.users().is_empty() && r.one_to_many.sessions().is_empty(),
            r.many_to_many.users().is_empty() && r.many_to_many.sessions().is_empty(),
    {
        ServerState {
            one_to_one: OneToOneServer::new(),
            one_to_many: OneToManyServer::new(),
            many_to_many: ManyToManyServer::new(),
            next_user: 1,
        }
    }

    /// Registers a connection accepted on `endpoint` under the next
    /// identifier of the process. The liveness probe takes no users, and
    /// `None` also comes once every identifier has been handed out.
    pub fn connect(&mut self, endpoint: Endpoint, sink: S) -> (r: Option<UserId>)
        requires
            old(self).wf(),
        ensures
            final(self).wf(),
            final(self).one_to_one.sessions() == old(self).one_to_one.sessions(),
            final(self).one_to_many.sessions() == old(self).one_to_many.sessions(),
            final(self).many_to_many.sessions() == old(self).many_to_many.sessions(),
            r.is_some() == (!(endpoint is Health) && old(self).next_user < u64::MAX),
            match r {
                Some(u) => {
                    &&& u.0 == old(self).next_user
                    &&& !old(self).registered(u.0)
                    &&& final(self).next_user == old(self).next_user + 1
                    &&& final(self).users_at(endpoint) == old(self).users_at(endpoint).insert(u.0, sink)
                    &&& forall|e: Endpoint| e != endpoint ==> final(self).users_at(e) == old(self).users_at(e)
                },
                None => final(self).next_user == old(self).next_user && forall|e: Endpoint|
                    final(self).users_at(e) == old(self).users_at(e),
            },
    {
        if self.next_user == u64::MAX {
            return None;
        }
        let u = UserId(self.next_user);
        assert(!self.registered(u.0));
        let ok = match endpoint {
            Endpoint::OneToOne => self.one_to_one.connect_as(u, sink),
            Endpoint::OneToMany => self.one_to_many.connect_as(u, sink),
            Endpoint::ManyToMany => self.many_to_many.connect_as(u, sink),
            Endpoint::Health => false,
        };
        if !ok {
            return None;
        }
        self.next_user = self.next_user + 1;
        proof {
            assert forall|k: u64| #[trigger] self.registered(k) implies k < self.next_user by {
                if k != u.0 {
                    assert(old(self).registered(k));
                }
            }
        }
        Some(u)
    }

    /// Removes a user of the topology that `endpoint` serves, as that
    /// server's `disconnect` does.
    pub fn disconnect(&mut self, endpoint: Endpoint, u: UserId)
        requires
            old(self).wf(),
        ensures
            final(self).wf(),
            final(self).next_user == old(self).next_user,
            final(self).users_at(endpoint) == old(self).users_at(endpoint).remove(u.0),
            forall|e: Endpoint| e != endpoint ==> final(self).users_at(e) == old(self).users_at(e),
            endpoint is OneToOne ==> final(self).one_to_one.sessions() == one_to_one::sessions_without(
                old(self).one_to_one.sessions(),
                u,
            ),
            endpoint is OneToMany ==> final(self).one_to_many.sessions() == one_to_many::sessions_without(
                old(self).one_to_many.sessions(),
                u,
            ),
            endpoint is ManyToMany ==> final(self).many_to_many.sessions() == many_to_many::sessions_without(
                old(self).many_to_many.sessions(),
                u,
            ),
            !(endpoint is OneToOne) ==> final(self).one_to_one == old(self).one_to_one,
            !(endpoint is OneToMany) ==> final(self).one_to_many == old(self).one_to_many,
            !(endpoint is ManyToMany) ==> final(self).many_to_many == old(self).many_to_many,
    {
        match endpoint {
            Endpoint::OneToOne => self.one_to_one.disconnect(u),
            Endpoint::OneToMany => self.one_to_many.disconnect(u),
            Endpoint::ManyToMany => self.many_to_many.disconnect(u),
            Endpoint::Health => {},
        }
        proof {
            assert forall|k: u64| #[trigger] self.registered(k) implies k < self.next_user by {
                assert(old(self).registered(k));
            }
        }
    }
}

/// The endpoint of the first route whose path is `path`.
pub open spec fn lookup(routes: Seq<(Seq<char>, Endpoint)>, path: Seq<char>) -> Option<Endpoint>
    decreases routes.len(),
{
    if routes.len() == 0 {
        None
    } else if routes[0].0 == path {
        Some(routes[0].1)
    } else {
        lookup(routes.drop_first(), path)
    }
}

/// Routes of the full server.
pub open spec fn server_routes() -> Seq<(Seq<char>, Endpoint)> {
    seq![
        (HEALTH_PATH@, Endpoint::Health),
        (ONE_TO_ONE_PATH@, Endpoint::OneToOne),
        (ONE_TO_MANY_PATH@, Endpoint::OneToMany),
        (MANY_TO_MANY_PATH@, Endpoint::ManyToMany),
    ]
}

/// A table of routes together with the state that the endpoints serve.
pub struct Router<S> {
    pub routes: Vec<(String, Endpoint)>,
    pub state: ServerState<S>,
}

impl<S> Router<S> {
    pub open spec fn routes(&self) -> Seq<(Seq<char>, Endpoint)> {
        self.routes@.map_values(|r: (String, Endpoint)| (r.0@, r.1))
    }

    /// The endpoint that serves `path`, or `None` where no route matches.
    pub fn dispatch(&self, path: &str) -> (r: Option<Endpoint>)
        ensures
            r == lookup(self.routes(), path@),
    {
        let p = path.to_owned();
        assert(self.routes().subrange(0, self.routes().len() as int) =~= self.routes());
        let mut i: usize = 0;
        while i < self.routes.len()
            invariant
                i <= self.routes@.len(),
                p@ == path@,
                lookup(self.routes(), path@) == lookup(self.routes().subrange(i as int, self.routes().len() as int), path@),
            decreases self.routes@.len() - i,
        {
            let ghost rest = self.routes().subrange(i as int, self.routes().len() as int);
            assert(rest[0] == (self.routes@[i as int].0@, self.routes@[i as int].1));
            if self.routes[i].0 == p {
                return Some(self.routes[i].1);
            }
            assert(rest.drop_first() =~= self.routes().subrange(i + 1, self.routes().len() as int));
            i = i + 1;
        }
        None
    }
}

/// The full server: the liveness probe and the three topologies, over `state`.
pub fn create<S>(server_state: ServerState<S>) -> (r: Router<S>)
    ensures
        r.routes() == server_routes(),
        r.state == server_state,
{
    let mut routes: Vec<(String, Endpoint)> = Vec::new();
    routes.push((HEALTH_PATH.to_owned(), Endpoint::Health));
    routes.push((ONE_TO_ONE_PATH.to_owned(), Endpoint::OneToOne));
    routes.push((ONE_TO_MANY_PATH.to_owned(), Endpoint::OneToMany));
    routes.push((MANY_TO_MANY_PATH.to_owned(), Endpoint::ManyToMany));
    let r = Router { routes, state: server_state };
    assert(r.routes() =~= server_routes());
    r
}

/// A stand-alone one-to-one server with fresh state.
pub fn create_router<S>() -> (r: Router<S>)
    ensures
        r.routes() == seq![(ONE_TO_ONE_PATH@, Endpoint::OneToOne)],
        r.state.wf(),
        r.state.one_to_one.users().is_empty() && r.state.one_to_one.sessions().is_empty(),
{
    let mut routes: Vec<(String, Endpoint)> = Vec::new();
    routes.push((ONE_TO_ONE_PATH.to_owned(), Endpoint::OneToOne));
    let r = Router { routes, state: ServerState::new() };
    assert(r.routes() =~= seq![(ONE_TO_ONE_PATH@, Endpoint::OneToOne)]);
    r
}

} // verus!
