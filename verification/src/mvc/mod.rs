pub mod payload;
pub mod header;
pub mod request;
pub mod response;
pub mod middleware;
pub mod path_filter;
pub mod controller;

use vstd::prelude::*;
use crate::controller::room_controller::RoomController;
use crate::model::room::RoomView;
use crate::model::room_manager::RoomManager;
use crate::text::{lookup, put, first_match, is_first_match, lemma_first_match, entry_named};
use middleware::Middleware;
use path_filter::{PathFilter, spec_filter};
use request::{Request, RequestView};

verus! {

/// An instance registered with the container.
pub enum Instance {
    RoomManager(RoomManager),
    Middleware(PathFilter),
    Controller(RoomController),
}

/// The mathematical value of an `Instance`.
pub enum InstanceView {
    RoomManager(Seq<RoomView>),
    Middleware,
    Controller,
}

impl View for Instance {
    type V = InstanceView;

    open spec fn view(&self) -> InstanceView {
        match self {
            Instance::RoomManager(m) => InstanceView::RoomManager(m@),
            Instance::Middleware(_) => InstanceView::Middleware,
            Instance::Controller(_) => InstanceView::Controller,
        }
    }
}

/// What a transient registration builds afresh for each request: a controller.
#[derive(Debug, Clone, Copy, PartialEq, Eq, Structural)]
pub enum Factory {
    RoomController,
}

/// The names and values of registry entries, as characters.
pub open spec fn singletons_view(s: Seq<(String, Instance)>) -> Seq<(Seq<char>, InstanceView)> {
    s.map_values(|e: (String, Instance)| (e.0@, e.1@))
}

/// The names and values of registry entries, as characters.
pub open spec fn transients_view(s: Seq<(String, Factory)>) -> Seq<(Seq<char>, Factory)> {
    s.map_values(|e: (String, Factory)| (e.0@, e.1))
}

/// The mathematical value of an `Mvc`: its registrations in the order they were first made.
pub struct MvcView {
    pub singletons: Seq<(Seq<char>, InstanceView)>,
    pub transients: Seq<(Seq<char>, Factory)>,
}

/// The container of the instances that answer requests, each registered under a name.
pub struct Mvc {
    singletons: Vec<(String, Instance)>,
    transients: Vec<(String, Factory)>,
}

impl View for Mvc {
    type V = MvcView;

    closed spec fn view(&self) -> MvcView {
        MvcView {
            singletons: singletons_view(self.singletons@),
            transients: transients_view(self.transients@),
        }
    }
}

/// The request after the middlewares among `s` ran in order, from `start`, and the error of
/// the first that refused it, if one did.
pub open spec fn run_singletons(start: RequestView, s: Seq<(Seq<char>, InstanceView)>) -> (RequestView, Option<Seq<char>>)
    decreases s.len(),
{
    if s.len() == 0 {
        (start, None)
    } else {
        let (req, err) = run_singletons(start, s.drop_last());
        if err is Some {
            (req, err)
        } else if s.last().1 is Middleware {
            match spec_filter(req) {
                Ok(next) => (next, None),
                Err(m) => (req, Some(m)),
            }
        } else {
            (req, None)
        }
    }
}

/// The request after the middlewares of the container ran, and the error of the first that
/// refused it, if one did. The middlewares are the shared instances that are middlewares, in
/// the order they were registered; a factory builds a controller, never a middleware.
pub open spec fn run_middlewares(m: MvcView, start: RequestView) -> (RequestView, Option<Seq<char>>) {
    run_singletons(start, m.singletons)
}

/// The first shared instance named `key`, if any.
fn singleton_position(entries: &Vec<(String, Instance)>, key: &str) -> (r: Option<usize>)
    ensures
        r matches Some(i) ==> Some(i as int) == first_match(singletons_view(entries@), entry_named(key@)),
        r is None ==> first_match(singletons_view(entries@), entry_named(key@)) is None,
{
    let ghost s = singletons_view(entries@);
    let ghost p = entry_named::<InstanceView>(key@);
    proof { lemma_first_match(s, p); }
    let wanted = key.to_owned();
    let mut i: usize = 0;
    while i < entries.len()
        invariant
            i <= entries.len(),
            s == singletons_view(entries@),
            p == entry_named::<InstanceView>(key@),
            wanted@ == key@,
            forall|j: int| 0 <= j < i ==> !p(#[trigger] s[j]),
            forall|k: int| is_first_match(s, p, k) ==> first_match(s, p) == Some(k),
            first_match(s, p) is None <==> (forall|j: int| 0 <= j < s.len() ==> !p(#[trigger] s[j])),
        decreases entries.len() - i,
    {
        if entries[i].0 == wanted {
            assert(is_first_match(s, p, i as int));
            return Some(i);
        }
        i += 1;
    }
    None
}

/// The first factory named `key`, if any.
fn transient_position(entries: &Vec<(String, Factory)>, key: &str) -> (r: Option<usize>)
    ensures
        r matches Some(i) ==> Some(i as int) == first_match(transients_view(entries@), entry_named(key@)),
        r is None ==> first_match(transients_view(entries@), entry_named(key@)) is None,
{
    let ghost s = transients_view(entries@);
    let ghost p = entry_named::<Factory>(key@);
    proof { lemma_first_match(s, p); }
    let wanted = key.to_owned();
    let mut i: usize = 0;
    while i < entries.len()
        invariant
            i <= entries.len(),
            s == transients_view(entries@),
            p == entry_named::<Factory>(key@),
            wanted@ == key@,
            forall|j: int| 0 <= j < i ==> !p(#[trigger] s[j]),
            forall|k: int| is_first_match(s, p, k) ==> first_match(s, p) == Some(k),
            first_match(s, p) is None <==> (forall|j: int| 0 <= j < s.len() ==> !p(#[trigger] s[j])),
        decreases entries.len() - i,
    {
        if entries[i].0 == wanted {
            assert(is_first_match(s, p, i as int));
            return Some(i);
        }
        i += 1;
    }
    None
}

impl Mvc {
    /// A container with nothing registered.
    pub fn new() -> (r: Mvc)
        ensures
            r@.singletons == Seq::<(Seq<char>, InstanceView)>::empty(),
            r@.transients == Seq::<(Seq<char>, Factory)>::empty(),
    {
        let r = Mvc { singletons: Vec::new(), transients: Vec::new() };
        assert(r@.singletons =~= Seq::<(Seq<char>, InstanceView)>::empty());
        assert(r@.transients =~= Seq::<(Seq<char>, Factory)>::empty());
        r
    }

    /// Registers `instance` under `name`, to be shared by all requests, in place of what was
    /// registered so under that name.
    pub fn add_singleton(&mut self, name: &str, instance: Instance) -> (r: &mut Mvc)
        ensures
            (*r)@ == (MvcView { singletons: put(old(self)@.singletons, name@, instance@), ..old(self)@ }),
            *final(self) == *final(r),
    {
        let ghost v = instance@;
        match singleton_position(&self.singletons, name) {
            Some(i) => {
                self.singletons[i] = (name.to_owned(), instance);
                assert(self@.singletons =~= old(self)@.singletons.update(i as int, (name@, v)));
            },
            None => {
                self.singletons.push((name.to_owned(), instance));
                assert(self@.singletons =~= old(self)@.singletons.push((name@, v)));
            },
        }
        self
    }

    /// Registers `factory` under `name`, to build a fresh instance for each request, in place
    /// of what was registered so under that name.
    pub fn add_transient(&mut self, name: &str, factory: Factory) -> (r: &mut Mvc)
        ensures
            (*r)@ == (MvcView { transients: put(old(self)@.transients, name@, factory), ..old(self)@ }),
            *final(self) == *final(r),
    {
        match transient_position(&self.transients, name) {
            Some(i) => {
                self.transients[i] = (name.to_owned(), factory);
                assert(self@.transients =~= old(self)@.transients.update(i as int, (name@, factory)));
            },
            None => {
                self.transients.push((name.to_owned(), factory));
                assert(self@.transients =~= old(self)@.transients.push((name@, factory)));
            },
        }
        self
    }

    /// The factory registered under `key`, if any.
    pub fn get(&self, key: &str) -> (r: Option<Factory>)
        ensures
            r == lookup(self@.transients, key@),
    {
        match transient_position(&self.transients, key) {
            Some(i) => Some(self.transients[i].1),
            None => None,
        }
    }

    /// The shared instance registered under `key`, if any.
    pub fn get_singleton(&self, key: &str) -> (r: Option<&Instance>)
        ensures
            match r {
                Some(x) => lookup(self@.singletons, key@) == Some(x@),
                None => lookup(self@.singletons, key@) is None,
            },
    {
        match singleton_position(&self.singletons, key) {
            Some(i) => Some(&self.singletons[i].1),
            None => None,
        }
    }

    /// The shared instance registered under `key`, if any, to act on.
    pub fn get_singleton_mut(&mut self, key: &str) -> (r: Option<&mut Instance>)
        ensures
            match first_match(old(self)@.singletons, entry_named(key@)) {
                None => r is None && *final(self) == *old(self),
                Some(i) => r matches Some(x) && (*x)@ == old(self)@.singletons[i].1
                    && final(self)@ == (MvcView {
                        singletons: old(self)@.singletons.update(i, (key@, (*final(x))@)),
                        ..old(self)@
                    }),
            },
    {
        match singleton_position(&self.singletons, key) {
            Some(i) => {
                proof { lemma_singletons_view_update(); }
                Some(&mut self.singletons[i].1)
            },
            None => None,
        }
    }
}

impl Mvc {
    /// Runs the middlewares of the container on the request in the order they were
    /// registered, and stops at the first that refuses it.
    pub fn invoke_middlewares(&mut self, request: &mut Request) -> (r: Result<(), String>)
        ensures
            *final(self) == *old(self),
            final(request)@ == run_middlewares(old(self)@, old(request)@).0,
            match run_middlewares(old(self)@, old(request)@).1 {
                None => r is Ok,
                Some(m) => r matches Err(e) && e@ == m,
            },
    {
        let ghost start = request@;
        let ghost ss = self@.singletons;
        let mut i: usize = 0;
        while i < self.singletons.len()
            invariant
                i <= self.singletons.len(),
                ss == singletons_view(self.singletons@),
                ss == old(self)@.singletons,
                start == old(request)@,
                run_singletons(start, ss.take(i as int)) == (request@, None::<Seq<char>>),
            decreases self.singletons.len() - i,
        {
            assert(ss.take(i + 1).drop_last() =~= ss.take(i as int));
            if let Instance::Middleware(m) = &self.singletons[i].1 {
                if let Err(e) = m.execute(request) {
                    proof { lemma_run_singletons_stops(start, ss, i as int + 1); }
                    return Err(e);
                }
            }
            i += 1;
        }
        assert(ss.take(i as int) =~= ss);
        Ok(())
    }
}

/// Once a middleware refuses the request, the later ones leave the outcome as it is.
proof fn lemma_run_singletons_stops(start: RequestView, s: Seq<(Seq<char>, InstanceView)>, n: int)
    requires
        0 <= n <= s.len(),
        run_singletons(start, s.take(n)).1 is Some,
    ensures
        run_singletons(start, s) == run_singletons(start, s.take(n)),
    decreases s.len() - n,
{
    if n < s.len() {
        assert(s.take(n + 1).drop_last() =~= s.take(n));
        lemma_run_singletons_stops(start, s, n + 1);
    } else {
        assert(s.take(n) =~= s);
    }
}

/// Replacing the value of one entry replaces its view.
proof fn lemma_singletons_view_update()
    ensures
        forall|v: Seq<(String, Instance)>, i: int, x: Instance| 0 <= i < v.len() ==>
            #[trigger] singletons_view(v.update(i, (v[i].0, x))) == singletons_view(v).update(i, (v[i].0@, x@)),
{
    assert forall|v: Seq<(String, Instance)>, i: int, x: Instance| 0 <= i < v.len() implies
        #[trigger] singletons_view(v.update(i, (v[i].0, x))) == singletons_view(v).update(i, (v[i].0@, x@)) by {
        assert(singletons_view(v.update(i, (v[i].0, x))) =~= singletons_view(v).update(i, (v[i].0@, x@)));
    }
}

/// One registration with the container: a shared instance or a factory, under a name.
pub enum Registration {
    Shared(Seq<char>, InstanceView),
    Fresh(Seq<char>, Factory),
}

/// The container after one registration, as `add_singleton` and `add_transient` make it.
pub open spec fn register(m: MvcView, r: Registration) -> MvcView {
    match r {
        Registration::Shared(k, v) => MvcView { singletons: put(m.singletons, k, v), ..m },
        Registration::Fresh(k, f) => MvcView { transients: put(m.transients, k, f), ..m },
    }
}

/// The container after the registrations `rs`, in order.
pub open spec fn register_all(m: MvcView, rs: Seq<Registration>) -> MvcView
    decreases rs.len(),
{
    if rs.len() == 0 {
        m
    } else {
        register(register_all(m, rs.drop_last()), rs.last())
    }
}

/// The factory of the last registration among `rs` of a factory under `k`, if there is one.
pub open spec fn last_factory(rs: Seq<Registration>, k: Seq<char>) -> Option<Factory>
    decreases rs.len(),
{
    if rs.len() == 0 {
        None
    } else {
        match rs.last() {
            Registration::Fresh(k2, f) => if k2 == k {
                Some(f)
            } else {
                last_factory(rs.drop_last(), k)
            },
            Registration::Shared(_, _) => last_factory(rs.drop_last(), k),
        }
    }
}

/// After any registrations, `get` under a name gives the factory last registered under it, or
/// what it gave before them where none of them registers a factory under it; and a container
/// with no factories gives none.
pub proof fn lemma_get_reads_last_registration(m: MvcView, rs: Seq<Registration>, k: Seq<char>)
    ensures
        lookup(register_all(m, rs).transients, k) == match last_factory(rs, k) {
            Some(f) => Some(f),
            None => lookup(m.transients, k),
        },
        m.transients.len() == 0 && last_factory(rs, k) is None ==> lookup(register_all(m, rs).transients, k) is None,
    decreases rs.len(),
{
    if m.transients.len() == 0 {
        lemma_first_match(m.transients, entry_named::<Factory>(k));
    }
    if rs.len() > 0 {
        lemma_get_reads_last_registration(m, rs.drop_last(), k);
        let before = register_all(m, rs.drop_last());
        match rs.last() {
            Registration::Fresh(k2, f) => {
                crate::text::lemma_lookup_put(before.transients, k2, f, k);
            },
            Registration::Shared(_, _) => {},
        }
    }
}

} // verus!
