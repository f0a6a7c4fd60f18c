//! Many ports, one drain, a reply per port.
//!
//! [`Hub::new`] builds the shared hub with its drain and its ports. A port has
//! room for one message on its way to the drain and for one reply on its way
//! back. The drain waits for all ports at once and takes every message that is
//! pending; with each it gets the means to reply. Which port comes first in a
//! batch moves on by one from batch to batch.
use crate::bits::{bit, bit_set, lemma_has_bit, lemma_has_low_mask, lemma_has_ops, lemma_has_zero, lemma_trailing_zeros, lemma_zero_iff, low_mask};
use crate::gate::names::{append_decimal, decimal, leaked};
use crate::gate::signal_set::{SignalId, SignalSet};
use crate::slot::pipe::{NoHook, Pipe};
use crate::waiter::{BlockingWaiter, ParkWaiter, Step, Waiter};
use core::marker::PhantomData;
use vstd::prelude::*;
use vstd::string::StringExecFns;

verus! {

/// Bit of the coordinator that stands for shutdown.
pub const SHUTDOWN_BIT: u8 = 63;

/// Most ports that a hub can have.
pub const MAX_HUB_PORTS: usize = 63;

/// The transport has ended.
#[derive(Debug, Clone, Copy, PartialEq, Eq, Structural)]
pub struct Shutdown;

/// Name under which port `i` is registered.
pub open spec fn port_name(i: int) -> Seq<char> {
    "hub_port_"@ + decimal(i as nat)
}

/// Make up that name.
fn numbered_port(i: usize) -> (name: &'static str)
    ensures
        name@ == port_name(i as int),
{
    let mut text: String = String::from_str("hub_port_");
    append_decimal(&mut text, i);
    leaked(text)
}

/// State that the drain and the ports share.
pub struct Hub<In, Out, W: Waiter = ParkWaiter> {
    /// Bit `i` is set iff port `i` has a message pending.
    pub coordinator: SignalSet<W>,
    /// The pending messages.
    pub inbound: Vec<Option<In>>,
    /// The replies.
    pub outbound: Vec<Pipe<Out, NoHook, W>>,
    /// The bits of all ports.
    pub full_mask: u64,
}

/// Means to reply to one message.
#[derive(Debug)]
pub struct HubReply {
    /// Port that sent the message.
    pub idx: usize,
}

/// A message taken by the drain: its port, the message, the means to reply.
pub type HubMessage<In> = (usize, In, HubReply);

/// The message `v` of port `i`.
pub open spec fn message<In>(i: int, v: In) -> HubMessage<In> {
    (i as usize, v, HubReply { idx: i as usize })
}

/// The pending messages of the ports from `lo` up to `hi`, in port order.
pub open spec fn batch<In>(inbound: Seq<Option<In>>, lo: int, hi: int) -> Seq<HubMessage<In>>
    decreases hi - lo,
{
    if hi <= lo {
        Seq::empty()
    } else {
        match inbound[hi - 1] {
            Some(v) => batch(inbound, lo, hi - 1).push(message(hi - 1, v)),
            None => batch(inbound, lo, hi - 1),
        }
    }
}

/// The pending messages of all ports, starting at port `start`.
pub open spec fn batch_from<In>(inbound: Seq<Option<In>>, start: int) -> Seq<HubMessage<In>> {
    batch(inbound, start, inbound.len() as int) + batch(inbound, 0, start)
}

/// Some port has a message pending.
pub open spec fn any_pending<In>(inbound: Seq<Option<In>>) -> bool {
    exists|i: int| 0 <= i < inbound.len() && (#[trigger] inbound[i]) is Some
}

/// Ports without a pending message.
pub open spec fn none_pending<In>(n: nat) -> Seq<Option<In>> {
    Seq::new(n, |i: int| None::<In>)
}

impl<In, Out, W: Waiter> Hub<In, Out, W> {
    /// Number of ports.
    pub open spec fn n(&self) -> int {
        self.inbound@.len() as int
    }

    /// Validity: the coordinator says exactly which ports have a message.
    pub open spec fn wf(&self) -> bool {
        &&& self.coordinator.wf()
        &&& self.coordinator.chunks@.len() == 1
        &&& 0 < self.n() <= MAX_HUB_PORTS
        &&& self.outbound@.len() == self.n()
        &&& self.full_mask == low_mask(self.n())
        &&& forall|i: int|
            0 <= i < self.n() ==> ((#[trigger] self.inbound@[i]) is Some <==> bit_set(
                self.coordinator.chunks@[0],
                i,
            ))
    }

    /// The hub was told to shut down.
    pub open spec fn signaled(&self) -> bool {
        bit_set(self.coordinator.chunks@[0], SHUTDOWN_BIT as int)
    }

    /// A hub with `n` ports. Each has a gate of the coordinator to itself,
    /// registered under a name of its own.
    pub fn new(n: usize) -> (r: (Self, HubDrain<In, Out, W>, Vec<HubPort<In, Out, W>>))
        requires
            0 < n <= MAX_HUB_PORTS,
        ensures
            r.0.wf(),
            r.0.n() == n,
            r.0.inbound@ == none_pending::<In>(n as nat),
            !r.0.signaled(),
            r.0.coordinator.waiter == W::initial(),
            r.0.coordinator.next_id == n,
            forall|i: int| 0 <= i < n ==> #[trigger] r.0.coordinator.named(i, port_name(i)),
            forall|i: int|
                0 <= i < n ==> (#[trigger] r.0.outbound@[i]) == (Pipe {
                    waiter: W::initial(),
                    slot: None::<Out>,
                    hook: NoHook,
                }),
            r.1.start(n as int) == 0,
            r.2@.len() == n,
            forall|i: int| 0 <= i < n ==> (#[trigger] r.2@[i]).idx() == i,
    {
        let mut coordinator: SignalSet<W> = SignalSet::new();
        let mut full_mask: u64 = 0;
        let mut inbound: Vec<Option<In>> = Vec::new();
        let mut outbound: Vec<Pipe<Out, NoHook, W>> = Vec::new();
        let mut ports: Vec<HubPort<In, Out, W>> = Vec::new();
        proof {
            assert forall|k: int| 0 <= k < 64 implies !#[trigger] bit_set(full_mask, k) by {
                lemma_has_zero(k);
            }
        }
        let mut i: usize = 0;
        while i < n
            invariant
                i <= n <= MAX_HUB_PORTS,
                coordinator.wf(),
                coordinator.chunks@ == seq![0u64],
                coordinator.next_id == i,
                coordinator.waiter == W::initial(),
                forall|j: int| 0 <= j < i ==> #[trigger] coordinator.named(j, port_name(j)),
                inbound@.len() == i,
                outbound@.len() == i,
                ports@.len() == i,
                forall|k: int| 0 <= k < 64 ==> #[trigger] bit_set(full_mask, k) == (k < i),
                forall|j: int|
                    #![trigger inbound@[j]]
                    #![trigger outbound@[j]]
                    #![trigger ports@[j]]
                    0 <= j < i ==> {
                        &&& inbound@[j] is None
                        &&& outbound@[j] == (Pipe {
                            waiter: W::initial(),
                            slot: None::<Out>,
                            hook: NoHook,
                        })
                        &&& ports@[j].idx() == j
                    },
            decreases n - i,
        {
            let name: &'static str = numbered_port(i);
            let ghost gates = coordinator;
            let id: SignalId = coordinator.create(name);
            assert forall|j: int| 0 <= j < i + 1 implies #[trigger] coordinator.named(
                j,
                port_name(j),
            ) by {
                assert(j < i ==> gates.named(j, port_name(j)));
            }
            let ghost before = full_mask;
            full_mask = full_mask | id.mask();
            proof {
                assert forall|k: int| 0 <= k < 64 implies #[trigger] bit_set(full_mask, k) == (k
                    < i + 1) by {
                    lemma_has_ops(before, bit(i as int), k);
                    lemma_has_bit(k, i as int);
                }
            }
            inbound.push(None);
            outbound.push(Pipe::new());
            ports.push(HubPort { idx: i, shared: PhantomData });
            i = i + 1;
        }
        proof {
            assert forall|k: int| 0 <= k < 64 implies #[trigger] bit_set(full_mask, k) == bit_set(
                low_mask(n as int),
                k,
            ) by {
                lemma_has_low_mask(n as int, k);
            }
            crate::bits::lemma_same_bits(full_mask, low_mask(n as int));
            lemma_has_zero(SHUTDOWN_BIT as int);
            assert forall|k: int| 0 <= k < n implies !#[trigger] bit_set(0, k) by {
                lemma_has_zero(k);
            }
            assert(inbound@ =~= none_pending::<In>(n as nat));
            vstd::arithmetic::div_mod::lemma_small_mod(0, n as nat);
        }
        let hub: Hub<In, Out, W> = Hub { coordinator, inbound, outbound, full_mask };
        (hub, HubDrain { cursor: 0, shared: PhantomData }, ports)
    }

    /// Number of ports.
    pub fn len(&self) -> (n: usize)
        ensures
            n == self.n(),
    {
        self.inbound.len()
    }

    /// The coordinator bits of all ports.
    pub fn full_mask(&self) -> (m: u64)
        ensures
            m == self.full_mask,
    {
        self.full_mask
    }

    /// This hub is `before` with `message` pending at port `at`; the drain is
    /// woken.
    pub open spec fn posted(&self, before: Self, at: int, message: In) -> bool {
        &&& self.inbound@ == before.inbound@.update(at, Some(message))
        &&& self.outbound == before.outbound
        &&& self.full_mask == before.full_mask
        &&& self.signaled() == before.signaled()
        &&& self.coordinator.waiter == before.coordinator.waiter.woken()
        &&& self.coordinator.gates_kept(before.coordinator)
    }

    /// This hub is `before` with nothing pending at any port.
    pub open spec fn emptied(&self, before: Self) -> bool {
        &&& self.inbound@ == none_pending::<In>(before.n() as nat)
        &&& self.outbound == before.outbound
        &&& self.full_mask == before.full_mask
        &&& self.signaled() == before.signaled()
        &&& self.coordinator.waiter == before.coordinator.waiter
        &&& self.coordinator.gates_kept(before.coordinator)
    }

    /// True iff a blocked drain has something to do.
    pub fn can_recv(&self) -> (b: bool)
        requires
            self.wf(),
        ensures
            b == (any_pending(self.inbound@) || self.signaled()),
    {
        let state: u64 = self.coordinator.state();
        proof {
            lemma_active(*self, state & self.full_mask);
            lemma_has_ops(state, bit(SHUTDOWN_BIT as int), SHUTDOWN_BIT as int);
        }
        state & self.full_mask != 0 || state & (1u64 << (SHUTDOWN_BIT as u64)) != 0
    }
}

/// The active bits of a hub are those of the ports with a message.
proof fn lemma_active<In, Out, W: Waiter>(hub: Hub<In, Out, W>, active: u64)
    requires
        hub.wf(),
        active == hub.coordinator.chunks@[0] & hub.full_mask,
    ensures
        active != 0 <==> any_pending(hub.inbound@),
        forall|k: int|
            0 <= k < 64 ==> #[trigger] bit_set(active, k) == (k < hub.n()
                && hub.inbound@[k] is Some),
{
    assert forall|k: int| 0 <= k < 64 implies #[trigger] bit_set(active, k) == (k < hub.n()
        && hub.inbound@[k] is Some) by {
        lemma_has_ops(hub.coordinator.chunks@[0], hub.full_mask, k);
        lemma_has_low_mask(hub.n(), k);
    }
    lemma_zero_iff(active);
    if any_pending(hub.inbound@) {
        let i = choose|i: int| 0 <= i < hub.n() && (#[trigger] hub.inbound@[i]) is Some;
        assert(bit_set(active, i));
    }
    if active != 0 {
        lemma_trailing_zeros(active);
        let t = vstd::std_specs::bits::u64_trailing_zeros(active) as int;
        assert(bit_set(active, t));
        assert(hub.inbound@[t] is Some);
    }
}

/// Handle of one port.
pub struct HubPort<In, Out, W: Waiter = ParkWaiter> {
    idx: usize,
    shared: PhantomData<(In, Out, W)>,
}

impl<In, Out, W: Waiter> HubPort<In, Out, W> {
    /// Index of this port.
    pub closed spec fn idx(&self) -> int {
        self.idx as int
    }

    /// This port belongs to `hub`.
    pub open spec fn wf(&self, hub: Hub<In, Out, W>) -> bool {
        &&& hub.wf()
        &&& 0 <= self.idx() < hub.n()
    }

    /// Index of this port.
    pub fn index(&self) -> (i: usize)
        ensures
            i == self.idx(),
    {
        self.idx
    }

    /// Register whoever waits for the reply.
    pub fn bind(&self, hub: &mut Hub<In, Out, W>)
        requires
            self.wf(*old(hub)),
        ensures
            final(hub).wf(),
            final(hub).outbound@ == old(hub).outbound@.update(
                self.idx(),
                Pipe {
                    waiter: old(hub).outbound@[self.idx()].waiter.bound(),
                    ..old(hub).outbound@[self.idx()]
                },
            ),
            final(hub).inbound == old(hub).inbound,
            final(hub).coordinator == old(hub).coordinator,
            final(hub).full_mask == old(hub).full_mask,
    {
        hub.outbound[self.idx].set_consumer();
    }

    /// True iff the drain has taken what this port has sent.
    pub fn is_idle(&self, hub: &Hub<In, Out, W>) -> (b: bool)
        requires
            self.wf(*hub),
        ensures
            b == (hub.inbound@[self.idx()] is None),
    {
        !hub.coordinator.is_open(SignalId::new(self.idx as u8))
    }

    /// Send a message. The port is idle.
    pub fn send(&self, hub: &mut Hub<In, Out, W>, v: In)
        requires
            self.wf(*old(hub)),
            old(hub).inbound@[self.idx()] is None,
        ensures
            final(hub).wf(),
            final(hub).posted(*old(hub), self.idx(), v),
    {
        let ghost word = hub.coordinator.chunks@[0];
        hub.inbound[self.idx] = Some(v);
        hub.coordinator.release(SignalId::new(self.idx as u8));
        proof {
            assert forall|k: int| 0 <= k < 64 implies #[trigger] bit_set(
                hub.coordinator.chunks@[0],
                k,
            ) == (bit_set(word, k) || k == self.idx()) by {
                lemma_has_ops(word, bit(self.idx()), k);
                lemma_has_bit(k, self.idx());
            }
            assert forall|i: int| 0 <= i < hub.n() implies ((#[trigger] hub.inbound@[i]) is Some
                <==> bit_set(hub.coordinator.chunks@[0], i)) by {
                assert(old(hub).inbound@[i] is Some <==> bit_set(word, i));
            }
        }
    }

    /// Send a message without waiting. It comes back iff the port is not idle.
    pub fn try_send(&self, hub: &mut Hub<In, Out, W>, v: In) -> (r: Result<(), In>)
        requires
            self.wf(*old(hub)),
        ensures
            final(hub).wf(),
            r == (if old(hub).inbound@[self.idx()] is None {
                Ok(())
            } else {
                Err(v)
            }),
            r is Ok ==> final(hub).posted(*old(hub), self.idx(), v),
            r is Err ==> *final(hub) == *old(hub),
    {
        if !self.is_idle(hub) {
            return Err(v);
        }
        self.send(hub, v);
        Ok(())
    }

    /// Take the reply, if it is there.
    pub fn try_recv_reply(&self, hub: &mut Hub<In, Out, W>) -> (r: Option<Out>)
        requires
            self.wf(*old(hub)),
        ensures
            final(hub).wf(),
            r == old(hub).outbound@[self.idx()].slot,
            final(hub).outbound@ == old(hub).outbound@.update(
                self.idx(),
                old(hub).outbound@[self.idx()].after_recv(),
            ),
            final(hub).inbound == old(hub).inbound,
            final(hub).coordinator == old(hub).coordinator,
            final(hub).full_mask == old(hub).full_mask,
    {
        hub.outbound[self.idx].try_recv()
    }
}

impl<In, Out, W: BlockingWaiter> HubPort<In, Out, W> {
    /// One pass of waiting for the reply: done with the reply; otherwise the
    /// next pass is due when the pipe of this port has data.
    pub fn recv_reply(&self, hub: &mut Hub<In, Out, W>) -> (r: Step<Out, ()>)
        requires
            self.wf(*old(hub)),
        ensures
            final(hub).wf(),
            r == (match old(hub).outbound@[self.idx()].slot {
                Some(v) => Step::Done(v),
                None => Step::Wait(()),
            }),
            final(hub).outbound@ == old(hub).outbound@.update(
                self.idx(),
                old(hub).outbound@[self.idx()].after_recv(),
            ),
            final(hub).inbound == old(hub).inbound,
            final(hub).coordinator == old(hub).coordinator,
            final(hub).full_mask == old(hub).full_mask,
    {
        hub.outbound[self.idx].recv()
    }

    /// Send a message through an idle port and make the first pass of waiting
    /// for the reply; further passes are those of [`HubPort::recv_reply`].
    pub fn call(&self, hub: &mut Hub<In, Out, W>, v: In) -> (r: Step<Out, ()>)
        requires
            self.wf(*old(hub)),
            old(hub).inbound@[self.idx()] is None,
        ensures
            final(hub).wf(),
            final(hub).inbound@ == old(hub).inbound@.update(self.idx(), Some(v)),
            final(hub).signaled() == old(hub).signaled(),
            final(hub).coordinator.waiter == old(hub).coordinator.waiter.woken(),
            final(hub).coordinator.gates_kept(old(hub).coordinator),
            final(hub).full_mask == old(hub).full_mask,
            r == (match old(hub).outbound@[self.idx()].slot {
                Some(v) => Step::Done(v),
                None => Step::Wait(()),
            }),
            final(hub).outbound@ == old(hub).outbound@.update(
                self.idx(),
                old(hub).outbound@[self.idx()].after_recv(),
            ),
    {
        self.send(hub, v);
        self.recv_reply(hub)
    }
}

/// Handle of the drain.
pub struct HubDrain<In, Out, W: Waiter = ParkWaiter> {
    cursor: u32,
    shared: PhantomData<(In, Out, W)>,
}

impl<In, Out, W: Waiter> HubDrain<In, Out, W> {
    /// Port that comes first in the next batch of a hub with `n` ports.
    pub closed spec fn start(&self, n: int) -> int {
        self.cursor as int % n
    }

    /// The port that comes first is one of the `n` ports.
    pub proof fn lemma_start_in_range(&self, n: int)
        requires
            n > 0,
        ensures
            0 <= self.start(n) < n,
    {
        vstd::arithmetic::div_mod::lemma_mod_pos_bound(self.cursor as int, n);
    }

    /// Register the drain.
    pub fn bind(&self, hub: &mut Hub<In, Out, W>)
        requires
            old(hub).wf(),
        ensures
            final(hub).wf(),
            final(hub).coordinator == (SignalSet {
                waiter: old(hub).coordinator.waiter.bound(),
                ..old(hub).coordinator
            }),
            final(hub).inbound == old(hub).inbound,
            final(hub).outbound == old(hub).outbound,
            final(hub).full_mask == old(hub).full_mask,
    {
        hub.coordinator.set_worker();
    }

    /// Number of ports.
    pub fn len(&self, hub: &Hub<In, Out, W>) -> (n: usize)
        ensures
            n == hub.n(),
    {
        hub.len()
    }

    /// A handle that ends the hub.
    pub fn shutdown_handle(&self) -> HubShutdown<In, Out, W> {
        HubShutdown { shared: PhantomData }
    }

    /// Take the messages that `mask` marks: those pending at the ports from
    /// `lo` up to `hi`.
    fn drain_mask(
        hub: &mut Hub<In, Out, W>,
        mask: u64,
        Ghost(lo): Ghost<int>,
        Ghost(hi): Ghost<int>,
        out: &mut Vec<HubMessage<In>>,
    )
        requires
            old(hub).wf(),
            0 <= lo <= hi <= old(hub).n(),
            forall|k: int|
                0 <= k < 64 ==> #[trigger] bit_set(mask, k) == (lo <= k < hi && bit_set(
                    old(hub).coordinator.chunks@[0],
                    k,
                )),
        ensures
            final(hub).wf(),
            final(hub).n() == old(hub).n(),
            forall|i: int|
                0 <= i < old(hub).n() ==> (#[trigger] final(hub).inbound@[i]) == (if lo <= i < hi {
                    None
                } else {
                    old(hub).inbound@[i]
                }),
            final(hub).outbound == old(hub).outbound,
            final(hub).full_mask == old(hub).full_mask,
            final(hub).signaled() == old(hub).signaled(),
            forall|k: int|
                0 <= k < 64 && !(lo <= k < hi) ==> #[trigger] bit_set(
                    final(hub).coordinator.chunks@[0],
                    k,
                ) == bit_set(old(hub).coordinator.chunks@[0], k),
            final(hub).coordinator.waiter == old(hub).coordinator.waiter,
            final(hub).coordinator.gates_kept(old(hub).coordinator),
            final(out)@ == old(out)@ + batch(old(hub).inbound@, lo, hi),
    {
        let ghost before = *hub;
        let ghost n = hub.n();
        let ghost mut at: int = lo;
        let mut m: u64 = mask;
        assert(out@ =~= old(out)@ + batch(before.inbound@, lo, lo));
        while m != 0
            invariant
                before == *old(hub),
                before.wf(),
                hub.wf(),
                hub.n() == n,
                before.n() == n,
                0 <= lo <= at <= hi <= n <= MAX_HUB_PORTS,
                hub.outbound == before.outbound,
                hub.full_mask == before.full_mask,
                hub.coordinator.waiter == before.coordinator.waiter,
                hub.coordinator.gates_kept(before.coordinator),
                forall|k: int|
                    0 <= k < 64 ==> #[trigger] bit_set(m, k) == (at <= k < hi && bit_set(
                        before.coordinator.chunks@[0],
                        k,
                    )),
                forall|k: int|
                    0 <= k < 64 ==> #[trigger] bit_set(hub.coordinator.chunks@[0], k) == (bit_set(
                        before.coordinator.chunks@[0],
                        k,
                    ) && !(lo <= k < at)),
                forall|i: int|
                    0 <= i < n ==> (#[trigger] hub.inbound@[i]) == (if lo <= i < at {
                        None
                    } else {
                        before.inbound@[i]
                    }),
                out@ == old(out)@ + batch(before.inbound@, lo, at),
            decreases hi - at, m,
        {
            let b: u32 = m.trailing_zeros();
            proof {
                lemma_trailing_zeros(m);
                assert(bit_set(m, b as int));
                assert(at <= b < hi);
            }
            let i: usize = b as usize;
            let only: u64 = 1u64 << (b as u64);
            let ghost rest = m;
            let ghost word = hub.coordinator.chunks@[0];
            m = m & !only;
            proof {
                assert forall|k: int| 0 <= k < 64 implies #[trigger] bit_set(m, k) == (i + 1 <= k
                    < hi && bit_set(before.coordinator.chunks@[0], k)) by {
                    lemma_has_ops(rest, only, k);
                    lemma_has_bit(k, i as int);
                    if k < i {
                        assert(!bit_set(rest, k));
                    }
                }
                assert forall|j: int| at <= j < i implies (#[trigger] before.inbound@[j]) is None by {
                    assert(!bit_set(rest, j));
                }
                lemma_batch_skips(before.inbound@, lo, at, i as int);
                assert(hub.inbound@[i as int] is Some);
            }
            let mut cell: Option<In> = None;
            std::mem::swap(&mut hub.inbound[i], &mut cell);
            hub.coordinator.lock_mask(only);
            proof {
                assert forall|k: int| 0 <= k < 64 implies #[trigger] bit_set(
                    hub.coordinator.chunks@[0],
                    k,
                ) == (bit_set(before.coordinator.chunks@[0], k) && !(lo <= k < i + 1)) by {
                    lemma_has_ops(word, only, k);
                    lemma_has_bit(k, i as int);
                    if at <= k < i {
                        assert(!bit_set(rest, k));
                    }
                }
                assert forall|j: int| 0 <= j < n implies (#[trigger] hub.inbound@[j]) == (if lo <= j
                    < i + 1 {
                    None
                } else {
                    before.inbound@[j]
                }) by {
                    if at <= j < i {
                        assert(!bit_set(rest, j));
                        assert(before.inbound@[j] is None);
                    }
                }
                assert forall|j: int| 0 <= j < n implies ((#[trigger] hub.inbound@[j]) is Some <==>
                bit_set(hub.coordinator.chunks@[0], j)) by {
                    assert(before.inbound@[j] is Some <==> bit_set(
                        before.coordinator.chunks@[0],
                        j,
                    ));
                }
            }
            match cell {
                Some(v) => {
                    out.push((i, v, HubReply { idx: i }));
                },
                None => {},
            }
            proof {
                at = i + 1;
                assert(out@ =~= old(out)@ + batch(before.inbound@, lo, at));
            }
        }
        proof {
            lemma_zero_iff(m);
            assert forall|i: int| at <= i < hi implies (#[trigger] before.inbound@[i]) is None by {
                assert(!bit_set(m, i));
            }
            lemma_batch_skips(before.inbound@, lo, at, hi);
            assert forall|k: int| 0 <= k < 64 && !(lo <= k < hi) implies #[trigger] bit_set(
                hub.coordinator.chunks@[0],
                k,
            ) == bit_set(before.coordinator.chunks@[0], k) by {}
        }
    }

    /// Take every pending message in port order.
    fn drain_available(&self, hub: &mut Hub<In, Out, W>, out: &mut Vec<HubMessage<In>>)
        requires
            old(hub).wf(),
        ensures
            final(hub).wf(),
            final(hub).emptied(*old(hub)),
            final(out)@ == old(out)@ + batch(old(hub).inbound@, 0, old(hub).n()),
    {
        let state: u64 = hub.coordinator.state();
        let active: u64 = state & hub.full_mask;
        proof {
            lemma_active(*hub, active);
        }
        Self::drain_mask(hub, active, Ghost(0), Ghost(hub.n()), out);
        assert(hub.inbound@ =~= none_pending::<In>(old(hub).n() as nat));
    }

    /// Take every pending message, starting at the port whose turn it is.
    fn drain_in_turn(&mut self, hub: &mut Hub<In, Out, W>, out: &mut Vec<HubMessage<In>>)
        requires
            old(hub).wf(),
        ensures
            final(hub).wf(),
            final(hub).emptied(*old(hub)),
            final(out)@ == old(out)@ + batch_from(
                old(hub).inbound@,
                old(self).start(old(hub).n()),
            ),
            final(self).start(old(hub).n()) == (old(self).start(old(hub).n()) + 1) % old(hub).n(),
    {
        let n: usize = hub.len();
        let start: usize = self.cursor as usize % n;
        let active: u64 = hub.coordinator.state() & hub.full_mask;
        let split: u64 = if start == 0 {
            0
        } else {
            proof {
                assert(start < 64 ==> (1u64 << (start as u64)) >= 1) by (bit_vector);
            }
            (1u64 << (start as u64)) - 1
        };
        let high: u64 = active & !split;
        let low: u64 = active & split;
        let ghost before = *hub;
        proof {
            lemma_active(before, active);
            assert forall|k: int| 0 <= k < 64 implies #[trigger] bit_set(split, k) == (k < start) by {
                lemma_has_low_mask(start as int, k);
                lemma_has_zero(k);
            }
            assert forall|k: int| 0 <= k < 64 implies #[trigger] bit_set(high, k) == (start <= k < n
                && bit_set(before.coordinator.chunks@[0], k)) by {
                lemma_has_ops(active, split, k);
                assert(bit_set(active, k) == (k < n && before.inbound@[k] is Some));
            }
            assert forall|k: int| 0 <= k < 64 implies #[trigger] bit_set(low, k) == (0 <= k < start
                && bit_set(before.coordinator.chunks@[0], k)) by {
                lemma_has_ops(active, split, k);
                assert(bit_set(active, k) == (k < n && before.inbound@[k] is Some));
            }
        }
        Self::drain_mask(hub, high, Ghost(start as int), Ghost(n as int), out);
        let ghost middle = *hub;
        proof {
            assert forall|k: int| 0 <= k < 64 implies #[trigger] bit_set(low, k) == (0 <= k < start
                && bit_set(middle.coordinator.chunks@[0], k)) by {}
            lemma_batch_depends_on_range(before.inbound@, middle.inbound@, 0, start as int);
        }
        Self::drain_mask(hub, low, Ghost(0), Ghost(start as int), out);
        self.cursor = ((start + 1) % n) as u32;
        proof {
            assert(hub.inbound@ =~= none_pending::<In>(n as nat));
            assert(out@ =~= old(out)@ + batch_from(before.inbound@, start as int));
            assert(((start + 1) as int % n as int) % n as int == (start + 1) as int % n as int) by {
                vstd::arithmetic::div_mod::lemma_mod_twice((start + 1) as int, n as int);
            }
        }
    }

    /// Take every pending message without waiting, starting at the port whose
    /// turn it is. False iff there is none.
    pub fn try_recv_batch(
        &mut self,
        hub: &mut Hub<In, Out, W>,
        out: &mut Vec<HubMessage<In>>,
    ) -> (b: bool)
        requires
            old(hub).wf(),
        ensures
            final(hub).wf(),
            b == any_pending(old(hub).inbound@),
            final(hub).emptied(*old(hub)),
            b ==> {
                &&& final(out)@ == old(out)@ + batch_from(
                    old(hub).inbound@,
                    old(self).start(old(hub).n()),
                )
                &&& final(self).start(old(hub).n()) == (old(self).start(old(hub).n()) + 1) % old(hub).n()
            },
            !b ==> final(out)@ == old(out)@ && *final(self) == *old(self),
    {
        let active: u64 = hub.coordinator.state() & hub.full_mask;
        proof {
            lemma_active(*hub, active);
        }
        if active == 0 {
            assert(hub.inbound@ =~= none_pending::<In>(hub.n() as nat));
            return false;
        }
        self.drain_in_turn(hub, out);
        true
    }
}

impl<In, Out, W: BlockingWaiter> HubDrain<In, Out, W> {
    /// One pass of a blocking batch receive. After shutdown everything pending
    /// is taken in port order, and the pass ends with [`Shutdown`]. Before it,
    /// everything pending is taken, starting at the port whose turn it is; if
    /// there is nothing, the next pass is due when [`Hub::can_recv`] holds.
    pub fn recv_batch(
        &mut self,
        hub: &mut Hub<In, Out, W>,
        out: &mut Vec<HubMessage<In>>,
    ) -> (r: Step<Result<(), Shutdown>, ()>)
        requires
            old(hub).wf(),
        ensures
            final(hub).wf(),
            final(hub).emptied(*old(hub)),
            r == (if old(hub).signaled() {
                Step::Done(Err(Shutdown))
            } else if any_pending(old(hub).inbound@) {
                Step::Done(Ok(()))
            } else {
                Step::<Result<(), Shutdown>, ()>::Wait(())
            }),
            final(out)@ == old(out)@ + (if old(hub).signaled() {
                batch(old(hub).inbound@, 0, old(hub).n())
            } else {
                batch_from(old(hub).inbound@, old(self).start(old(hub).n()))
            }),
            final(self).start(old(hub).n()) == (if r == Step::<Result<(), Shutdown>, ()>::Done(
                Ok(()),
            ) {
                (old(self).start(old(hub).n()) + 1) % old(hub).n()
            } else {
                old(self).start(old(hub).n())
            }),
    {
        let state: u64 = hub.coordinator.state();
        let active: u64 = state & hub.full_mask;
        proof {
            lemma_active(*hub, active);
        }
        if state & (1u64 << (SHUTDOWN_BIT as u64)) != 0 {
            self.drain_available(hub, out);
            return Step::Done(Err(Shutdown));
        }
        if active == 0 {
            proof {
                assert(hub.inbound@ =~= none_pending::<In>(hub.n() as nat));
                let start = self.start(hub.n());
                lemma_batch_skips(hub.inbound@, start, start, hub.n());
                lemma_batch_skips(hub.inbound@, 0, 0, start);
                assert(out@ + batch_from(hub.inbound@, start) =~= out@);
            }
            return Step::Wait(());
        }
        self.drain_in_turn(hub, out);
        Step::Done(Ok(()))
    }
}

/// Ports without a message add nothing to a batch.
proof fn lemma_batch_skips<In>(inbound: Seq<Option<In>>, lo: int, a: int, b: int)
    requires
        0 <= lo <= a <= b <= inbound.len(),
        forall|i: int| a <= i < b ==> (#[trigger] inbound[i]) is None,
    ensures
        batch(inbound, lo, b) == batch(inbound, lo, a),
    decreases b - a,
{
    if a < b {
        lemma_batch_skips(inbound, lo, a, b - 1);
    }
}

/// A batch depends on its ports only.
proof fn lemma_batch_depends_on_range<In>(
    x: Seq<Option<In>>,
    y: Seq<Option<In>>,
    lo: int,
    hi: int,
)
    requires
        0 <= lo <= hi <= x.len(),
        x.len() == y.len(),
        forall|i: int| lo <= i < hi ==> (#[trigger] x[i]) == y[i],
    ensures
        batch(x, lo, hi) == batch(y, lo, hi),
    decreases hi - lo,
{
    if lo < hi {
        lemma_batch_depends_on_range(x, y, lo, hi - 1);
    }
}

/// Handle that ends a hub.
pub struct HubShutdown<In, Out, W: Waiter = ParkWaiter> {
    shared: PhantomData<(In, Out, W)>,
}

impl<In, Out, W: Waiter> Clone for HubShutdown<In, Out, W> {
    fn clone(&self) -> Self {
        HubShutdown { shared: PhantomData }
    }
}

impl<In, Out, W: Waiter> HubShutdown<In, Out, W> {
    /// Tell the hub to shut down; the drain is woken the first time.
    pub fn signal(&self, hub: &mut Hub<In, Out, W>)
        requires
            old(hub).wf(),
        ensures
            final(hub).wf(),
            final(hub).signaled(),
            final(hub).inbound == old(hub).inbound,
            final(hub).outbound == old(hub).outbound,
            final(hub).full_mask == old(hub).full_mask,
            final(hub).coordinator.gates_kept(old(hub).coordinator),
            final(hub).coordinator.waiter == (if old(hub).signaled() {
                old(hub).coordinator.waiter
            } else {
                old(hub).coordinator.waiter.woken()
            }),
    {
        let ghost word = hub.coordinator.chunks@[0];
        hub.coordinator.release(SignalId::new(SHUTDOWN_BIT));
        proof {
            assert forall|k: int| 0 <= k < 64 implies #[trigger] bit_set(
                hub.coordinator.chunks@[0],
                k,
            ) == (bit_set(word, k) || k == 63) by {
                lemma_has_ops(word, bit(63), k);
                lemma_has_bit(k, 63);
            }
            assert forall|i: int| 0 <= i < hub.n() implies ((#[trigger] hub.inbound@[i]) is Some
                <==> bit_set(hub.coordinator.chunks@[0], i)) by {
                assert(old(hub).inbound@[i] is Some <==> bit_set(word, i));
            }
        }
    }

    /// True iff the hub was told to shut down.
    pub fn is_signaled(&self, hub: &Hub<In, Out, W>) -> (b: bool)
        requires
            hub.wf(),
        ensures
            b == hub.signaled(),
    {
        hub.coordinator.is_open(SignalId::new(SHUTDOWN_BIT))
    }
}

impl HubReply {
    /// Send the reply to the port that the message came from, whose previous
    /// reply has been taken.
    pub fn send<In, Out, W: Waiter>(self, hub: &mut Hub<In, Out, W>, v: Out)
        requires
            old(hub).wf(),
            self.idx < old(hub).n(),
            old(hub).outbound@[self.idx as int].slot is None,
        ensures
            final(hub).wf(),
            final(hub).outbound@ == old(hub).outbound@.update(
                self.idx as int,
                old(hub).outbound@[self.idx as int].after_send(v),
            ),
            final(hub).inbound == old(hub).inbound,
            final(hub).coordinator == old(hub).coordinator,
            final(hub).full_mask == old(hub).full_mask,
    {
        hub.outbound[self.idx].send(v);
    }

    /// The pipe that the reply goes through.
    pub fn pipe<'a, In, Out, W: Waiter>(&self, hub: &'a Hub<In, Out, W>) -> (p: &'a Pipe<
        Out,
        NoHook,
        W,
    >)
        requires
            hub.wf(),
            self.idx < hub.n(),
        ensures
            *p == hub.outbound@[self.idx as int],
    {
        &hub.outbound[self.idx]
    }
}

/// Entry `k` of a batch, of the ports from `lo` up to `hi`, is the message of
/// a port that has one.
pub proof fn a_batch_holds_pending_messages<In>(
    inbound: Seq<Option<In>>,
    lo: int,
    hi: int,
    k: int,
)
    requires
        0 <= lo <= hi <= inbound.len() <= MAX_HUB_PORTS,
        0 <= k < batch(inbound, lo, hi).len(),
    ensures
        lo <= batch(inbound, lo, hi)[k].0 < hi,
        inbound[batch(inbound, lo, hi)[k].0 as int] == Some(batch(inbound, lo, hi)[k].1),
        batch(inbound, lo, hi)[k].2.idx == batch(inbound, lo, hi)[k].0,
        forall|j: int|
            0 <= j < k ==> (#[trigger] batch(inbound, lo, hi)[j]).0 < batch(inbound, lo, hi)[k].0,
    decreases hi - lo,
{
    if lo < hi {
        let shorter = batch(inbound, lo, hi - 1);
        if k < shorter.len() {
            a_batch_holds_pending_messages(inbound, lo, hi - 1, k);
        }
        assert forall|j: int| 0 <= j < k implies (#[trigger] batch(inbound, lo, hi)[j]).0 < batch(
            inbound,
            lo,
            hi,
        )[k].0 by {
            if k >= shorter.len() {
                a_batch_holds_pending_messages(inbound, lo, hi - 1, j);
            }
            assert(batch(inbound, lo, hi)[j] == shorter[j]);
        }
    }
}

/// The message of every port with one is in the batch.
pub proof fn a_batch_misses_no_message<In>(inbound: Seq<Option<In>>, lo: int, hi: int, i: int)
    requires
        0 <= lo <= i < hi <= inbound.len() <= MAX_HUB_PORTS,
        inbound[i] is Some,
    ensures
        batch(inbound, lo, hi).contains(message(i, inbound[i]->Some_0)),
    decreases hi - lo,
{
    if i == hi - 1 {
        let all = batch(inbound, lo, hi);
        assert(all[all.len() - 1] == message(i, inbound[i]->Some_0));
    } else {
        a_batch_misses_no_message(inbound, lo, hi - 1, i);
        let shorter = batch(inbound, lo, hi - 1);
        let k = choose|k: int|
            0 <= k < shorter.len() && shorter[k] == message(i, inbound[i]->Some_0);
        assert(batch(inbound, lo, hi)[k] == shorter[k]);
    }
}

/// A batch takes the message of each port exactly once, wherever it starts.
pub proof fn each_message_is_taken_once<In>(inbound: Seq<Option<In>>, start: int)
    requires
        0 <= start <= inbound.len() <= MAX_HUB_PORTS,
    ensures
        forall|i: int|
            0 <= i < inbound.len() && (#[trigger] inbound[i]) is Some ==> batch_from(
                inbound,
                start,
            ).contains(message(i, inbound[i]->Some_0)),
        forall|j: int, k: int|
            0 <= j < k < batch_from(inbound, start).len() ==> (#[trigger] batch_from(
                inbound,
                start,
            )[j]).0 != (#[trigger] batch_from(inbound, start)[k]).0,
{
    let n = inbound.len() as int;
    let high = batch(inbound, start, n);
    let low = batch(inbound, 0, start);
    let all = batch_from(inbound, start);
    assert forall|i: int| 0 <= i < n && (#[trigger] inbound[i]) is Some implies all.contains(
        message(i, inbound[i]->Some_0),
    ) by {
        let m = message(i, inbound[i]->Some_0);
        if i >= start {
            a_batch_misses_no_message(inbound, start, n, i);
            let k = choose|k: int| 0 <= k < high.len() && high[k] == m;
            assert(all[k] == m);
        } else {
            a_batch_misses_no_message(inbound, 0, start, i);
            let k = choose|k: int| 0 <= k < low.len() && low[k] == m;
            assert(all[high.len() + k] == m);
        }
    }
    assert forall|j: int, k: int| 0 <= j < k < all.len() implies (#[trigger] all[j]).0 != (
    #[trigger] all[k]).0 by {
        if k < high.len() {
            a_batch_holds_pending_messages(inbound, start, n, k);
        } else {
            a_batch_holds_pending_messages(inbound, 0, start, k - high.len());
            if j < high.len() {
                a_batch_holds_pending_messages(inbound, start, n, j);
            }
        }
    }
}

/// Port that comes first after `k` batches, when `start` comes first now.
pub open spec fn start_after(start: int, n: int, k: nat) -> int
    decreases k,
{
    if k == 0 {
        start
    } else {
        (start_after(start, n, (k - 1) as nat) + 1) % n
    }
}

/// Every port comes first in turn: of any `n` batches in a row, `port` is
/// first in one.
pub proof fn every_port_comes_first_in_turn(start: int, n: int, port: int)
    requires
        0 <= start < n,
        0 <= port < n,
    ensures
        exists|k: nat| k < n && #[trigger] start_after(start, n, k) == port,
{
    let k: nat = if port >= start {
        (port - start) as nat
    } else {
        (port - start + n) as nat
    };
    lemma_start_after(start, n, k);
    assert(start_after(start, n, k) == port);
}

proof fn lemma_start_after(start: int, n: int, k: nat)
    requires
        0 <= start < n,
        k < n,
    ensures
        start_after(start, n, k) == if start + k < n {
            start + k
        } else {
            start + k - n
        },
    decreases k,
{
    if k > 0 {
        lemma_start_after(start, n, (k - 1) as nat);
        let s = start_after(start, n, (k - 1) as nat);
        if s + 1 < n {
            vstd::arithmetic::div_mod::lemma_small_mod((s + 1) as nat, n as nat);
        } else {
            vstd::arithmetic::div_mod::lemma_mod_self_0(n);
        }
    }
}

/// A call is answered: the message that an idle port posts is taken by the
/// next batch, and the reply that is sent to it is what the port gets.
pub proof fn a_call_is_answered<In, Out, W: Waiter>(
    before: Hub<In, Out, W>,
    posted: Hub<In, Out, W>,
    port: int,
    question: In,
    start: int,
    answer: Out,
)
    requires
        posted.wf(),
        posted.posted(before, port, question),
        0 <= port < before.n(),
        0 <= start < before.n(),
        posted.outbound@[port].slot is None,
    ensures
        batch_from(posted.inbound@, start).contains(message(port, question)),
        posted.outbound@[port].after_send(answer).slot == Some(answer),
        posted.outbound@[port].after_send(answer).after_recv().slot is None,
{
    each_message_is_taken_once(posted.inbound@, start);
    assert(posted.inbound@[port] == Some(question));
}

} // verus!
