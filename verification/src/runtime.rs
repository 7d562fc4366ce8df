//! The routing decisions of the client runtime: responses of TDLib that
//! carry the `@extra` of a request go to that request, at most once; the
//! others are updates for the client named by `@client_id`.

use vstd::prelude::*;

verus! {

/// Where a response of TDLib goes.
#[derive(Clone, Copy, Debug, PartialEq, Eq, Structural)]
pub enum Delivery {
    /// To the pending request with this `@extra`, which then no longer waits.
    Request(u32),
    /// Nothing waits for this `@extra` (never asked, or given up): dropped.
    Unrequested(u32),
    /// An update for the client with this id, which listens for updates.
    Update(i32),
    /// An update for a client that nobody listens to: dropped.
    NoListener(i32),
    /// An update that could not be read: dropped.
    Unreadable(i32),
}

/// The requests waiting for a response and the clients listening for
/// updates.
pub struct Dispatcher {
    requests: Vec<u32>,
    clients: Vec<i32>,
}

/// Model of a dispatcher: the `@extra` of each waiting request and the id
/// of each listening client.
pub struct DispatcherView {
    pub requests: Set<u32>,
    pub clients: Set<i32>,
}

impl View for Dispatcher {
    type V = DispatcherView;

    closed spec fn view(&self) -> DispatcherView {
        DispatcherView { requests: self.requests@.to_set(), clients: self.clients@.to_set() }
    }
}

/// The `@extra` that a response answers: its value, cut to 32 bits.
pub open spec fn extra_key(extra: u64) -> u32 {
    extra as u32
}

/// The client an update is for: the `@client_id` cut to 32 bits, or 0
/// when the response names none.
pub open spec fn client_key(client_id: Option<i64>) -> i32 {
    match client_id {
        Some(c) => c as i32,
        None => 0,
    }
}

/// How a response changes the dispatcher and where it goes. A response
/// with an `@extra` answers a request; any other is an update.
pub open spec fn dispatch_spec(
    s: DispatcherView,
    extra: Option<u64>,
    client_id: Option<i64>,
    readable: bool,
) -> (DispatcherView, Delivery) {
    match extra {
        Some(e) => {
            let x = extra_key(e);
            if s.requests.contains(x) {
                (DispatcherView { requests: s.requests.remove(x), clients: s.clients }, Delivery::Request(x))
            } else {
                (s, Delivery::Unrequested(x))
            }
        },
        None => {
            let c = client_key(client_id);
            if !readable {
                (s, Delivery::Unreadable(c))
            } else if s.clients.contains(c) {
                (s, Delivery::Update(c))
            } else {
                (s, Delivery::NoListener(c))
            }
        },
    }
}

fn position_u32(v: &Vec<u32>, x: u32) -> (r: Option<usize>)
    ensures
        match r {
            Some(k) => k < v.len() && v@[k as int] == x,
            None => !v@.contains(x),
        },
{
    let mut k: usize = 0;
    while k < v.len()
        invariant
            k <= v.len(),
            forall|a: int| 0 <= a < k ==> v@[a] != x,
        decreases v.len() - k,
    {
        if v[k] == x {
            return Some(k);
        }
        k += 1;
    }
    None
}

fn position_i32(v: &Vec<i32>, x: i32) -> (r: Option<usize>)
    ensures
        match r {
            Some(k) => k < v.len() && v@[k as int] == x,
            None => !v@.contains(x),
        },
{
    let mut k: usize = 0;
    while k < v.len()
        invariant
            k <= v.len(),
            forall|a: int| 0 <= a < k ==> v@[a] != x,
        decreases v.len() - k,
    {
        if v[k] == x {
            return Some(k);
        }
        k += 1;
    }
    None
}

impl Dispatcher {
    /// No request and no client is recorded twice.
    pub closed spec fn wf(&self) -> bool {
        self.requests@.no_duplicates() && self.clients@.no_duplicates()
    }

    /// A dispatcher with no waiting request and no listening client.
    pub fn new() -> (r: Self)
        ensures
            r.wf(),
            r@.requests == Set::<u32>::empty(),
            r@.clients == Set::<i32>::empty(),
    {
        let r = Dispatcher { requests: Vec::new(), clients: Vec::new() };
        assert(r@.requests =~= Set::<u32>::empty());
        assert(r@.clients =~= Set::<i32>::empty());
        r
    }

    /// Records that a request with this `@extra` waits for its response.
    pub fn subscribe(&mut self, extra: u32)
        requires
            old(self).wf(),
        ensures
            final(self).wf(),
            final(self)@.requests == old(self)@.requests.insert(extra),
            final(self)@.clients == old(self)@.clients,
    {
        if position_u32(&self.requests, extra).is_none() {
            let ghost before = self.requests@;
            self.requests.push(extra);
            proof {
                assert(self.requests@ == before.push(extra));
                assert forall|y| self.requests@.contains(y) <==> before.to_set().insert(extra).contains(y) by {
                    if before.contains(y) {
                        let t = choose|t: int| 0 <= t < before.len() && before[t] == y;
                        assert(self.requests@[t] == y);
                    }
                    if y == extra {
                        assert(self.requests@[before.len() as int] == extra);
                    }
                    if self.requests@.contains(y) {
                        let t = choose|t: int| 0 <= t < self.requests@.len() && self.requests@[t] == y;
                        if t < before.len() {
                            assert(before[t] == y);
                        }
                    }
                }
                assert(self.requests@.to_set() =~= before.to_set().insert(extra));
            }
        } else {
            proof {
                assert(self.requests@.to_set() =~= self.requests@.to_set().insert(extra));
            }
        }
    }

    /// Records that the request with this `@extra` no longer waits.
    pub fn unsubscribe(&mut self, extra: u32)
        requires
            old(self).wf(),
        ensures
            final(self).wf(),
            final(self)@.requests == old(self)@.requests.remove(extra),
            final(self)@.clients == old(self)@.clients,
    {
        match position_u32(&self.requests, extra) {
            Some(k) => {
                let ghost before = self.requests@;
                self.requests.remove(k);
                proof {
                    assert(self.requests@ == before.remove(k as int));
                    assert(self.requests@.to_set() =~= before.to_set().remove(extra)) by {
                        assert forall|y: u32| self.requests@.contains(y) <==> before.to_set().remove(extra).contains(y) by {
                            if self.requests@.contains(y) {
                                let t = choose|t: int| 0 <= t < self.requests@.len() && self.requests@[t] == y;
                                if t < k {
                                    assert(before[t] == y);
                                    assert(t != k);
                                } else {
                                    assert(before[t + 1] == y);
                                    assert(t + 1 != k);
                                }
                            }
                            if before.to_set().remove(extra).contains(y) {
                                let t = choose|t: int| 0 <= t < before.len() && before[t] == y;
                                assert(t != k);
                                if t < k {
                                    assert(self.requests@[t] == y);
                                } else {
                                    assert(self.requests@[t - 1] == y);
                                }
                            }
                        }
                    }
                }
            },
            None => {
                proof {
                    assert(self.requests@.to_set() =~= self.requests@.to_set().remove(extra));
                }
            },
        }
    }

    /// Records that the client with this id listens for updates.
    pub fn register_client(&mut self, client_id: i32)
        requires
            old(self).wf(),
        ensures
            final(self).wf(),
            final(self)@.clients == old(self)@.clients.insert(client_id),
            final(self)@.requests == old(self)@.requests,
    {
        if position_i32(&self.clients, client_id).is_none() {
            let ghost before = self.clients@;
            self.clients.push(client_id);
            proof {
                assert(self.clients@ == before.push(client_id));
                assert forall|y| self.clients@.contains(y) <==> before.to_set().insert(client_id).contains(y) by {
                    if before.contains(y) {
                        let t = choose|t: int| 0 <= t < before.len() && before[t] == y;
                        assert(self.clients@[t] == y);
                    }
                    if y == client_id {
                        assert(self.clients@[before.len() as int] == client_id);
                    }
                    if self.clients@.contains(y) {
                        let t = choose|t: int| 0 <= t < self.clients@.len() && self.clients@[t] == y;
                        if t < before.len() {
                            assert(before[t] == y);
                        }
                    }
                }
                assert(self.clients@.to_set() =~= before.to_set().insert(client_id));
            }
        } else {
            proof {
                assert(self.clients@.to_set() =~= self.clients@.to_set().insert(client_id));
            }
        }
    }

    /// Records that the client with this id no longer listens.
    pub fn unregister_client(&mut self, client_id: i32)
        requires
            old(self).wf(),
        ensures
            final(self).wf(),
            final(self)@.clients == old(self)@.clients.remove(client_id),
            final(self)@.requests == old(self)@.requests,
    {
        match position_i32(&self.clients, client_id) {
            Some(k) => {
                let ghost before = self.clients@;
                self.clients.remove(k);
                proof {
                    assert(self.clients@ == before.remove(k as int));
                    assert(self.clients@.to_set() =~= before.to_set().remove(client_id)) by {
                        assert forall|y: i32| self.clients@.contains(y) <==> before.to_set().remove(client_id).contains(y) by {
                            if self.clients@.contains(y) {
                                let t = choose|t: int| 0 <= t < self.clients@.len() && self.clients@[t] == y;
                                if t < k {
                                    assert(before[t] == y);
                                    assert(t != k);
                                } else {
                                    assert(before[t + 1] == y);
                                    assert(t + 1 != k);
                                }
                            }
                            if before.to_set().remove(client_id).contains(y) {
                                let t = choose|t: int| 0 <= t < before.len() && before[t] == y;
                                assert(t != k);
                                if t < k {
                                    assert(self.clients@[t] == y);
                                } else {
                                    assert(self.clients@[t - 1] == y);
                                }
                            }
                        }
                    }
                }
            },
            None => {
                proof {
                    assert(self.clients@.to_set() =~= self.clients@.to_set().remove(client_id));
                }
            },
        }
    }

    /// Routes a response: `extra` is its `@extra` when that is a number,
    /// `client_id` its `@client_id` when that is a number, and `readable`
    /// whether it reads as an update.
    pub fn dispatch(&mut self, extra: Option<u64>, client_id: Option<i64>, readable: bool) -> (d: Delivery)
        requires
            old(self).wf(),
        ensures
            final(self).wf(),
            (final(self)@, d) == dispatch_spec(old(self)@, extra, client_id, readable),
    {
        match extra {
            Some(e) => {
                let x = e as u32;
                assert(x == extra_key(e));
                match position_u32(&self.requests, x) {
                    Some(_) => {
                        self.unsubscribe(x);
                        Delivery::Request(x)
                    },
                    None => Delivery::Unrequested(x),
                }
            },
            None => {
                let c: i32 = match client_id {
                    Some(v) => v as i32,
                    None => 0,
                };
                assert(c == client_key(client_id));
                if !readable {
                    Delivery::Unreadable(c)
                } else if position_i32(&self.clients, c).is_some() {
                    Delivery::Update(c)
                } else {
                    Delivery::NoListener(c)
                }
            },
        }
    }
}

/// A response to a waiting request reaches it: after `subscribe(x)`, a
/// response whose `@extra` is `x` is delivered to that request.
pub proof fn lemma_subscribed_request_answered(s: DispatcherView, extra: u64, client_id: Option<i64>, readable: bool)
    ensures
        dispatch_spec(
            DispatcherView { requests: s.requests.insert(extra_key(extra)), clients: s.clients },
            Some(extra),
            client_id,
            readable,
        ).1 == Delivery::Request(extra_key(extra)),
{
}

/// A request is answered at most once: the same response dispatched again
/// finds nothing waiting for it.
pub proof fn lemma_answered_once(s: DispatcherView, extra: u64, client_id: Option<i64>, readable: bool)
    ensures
        dispatch_spec(dispatch_spec(s, Some(extra), client_id, readable).0, Some(extra), client_id, readable).1
            == Delivery::Unrequested(extra_key(extra)),
{
}

/// Updates never change which requests wait or which clients listen.
pub proof fn lemma_updates_keep_state(s: DispatcherView, client_id: Option<i64>, readable: bool)
    ensures
        dispatch_spec(s, None, client_id, readable).0 == s,
{
}

} // verus!
