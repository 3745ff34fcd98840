//! Recurring sources: idle and timeout callbacks the event loop re-arms.
//!
//! A recurring source is a subscription without an emitting object. The
//! event loop fires it, hands the handler's [`Continue`] decision back to the
//! bridge, and the bridge re-arms the source only while the decision says to:
//! the first `Continue(false)` removes the source and releases its closure,
//! so a handler that stops after its decision is never fired again — exactly
//! as many dispatches as decisions, never one more.
//!
//! Like signal registration, scheduling is allowed only on the thread that
//! owns the event loop.

use crate::bridge::Bridge;
use crate::bridge::BridgeError;
use crate::bridge::BridgeModel;
use crate::bridge::SubModel;
use crate::bridge::Subscription;
use crate::bridge::Target;
use crate::bridge::TargetModel;
use crate::bridge::bridge_wf;
use crate::bridge::has_live_sub;
use crate::bridge::has_object;
use crate::bridge::has_sub;
use crate::bridge::lemma_count_live_le_len;
use crate::bridge::lemma_count_live_push;
use crate::bridge::lemma_count_live_update;
use crate::bridge::lemma_sub_at_is;
use crate::bridge::object_at;
use crate::bridge::sub_at;
use crate::bridge::sub_index;
use crate::dispatch::ReturnShape;
use crate::payload::PayloadShape;
use crate::signal::Continue;
use vstd::prelude::*;

verus! {

/// Whether a target is a recurring source rather than an object's signal.
pub open spec fn is_recurring(t: TargetModel) -> bool {
    t is Idle || t is Timer
}

/// The subscription a scheduling call creates: a recurring source carries no
/// arguments and replies with a re-arm decision.
pub open spec fn new_source(m: BridgeModel, target: TargetModel) -> SubModel {
    SubModel {
        id: m.next_sub,
        target,
        shape: PayloadShape::NoArgs,
        ret: ReturnShape::Rearm,
        live: true,
        dispatches: 0,
    }
}

/// What scheduling a recurring source does: refused from a foreign thread
/// with nothing registered and nothing allocated; otherwise one new live
/// source under a fresh identifier, and one more allocation outstanding.
pub open spec fn spec_schedule(m: BridgeModel, thread: u64, target: TargetModel) -> (
    BridgeModel,
    Result<u64, BridgeError>,
) {
    if thread != m.owner_thread {
        (m, Result::Err(BridgeError::WrongThreadError))
    } else {
        (
            BridgeModel {
                next_sub: (m.next_sub + 1) as u64,
                subs: m.subs.push(new_source(m, target)),
                live_closures: (m.live_closures + 1) as u64,
                ..m
            },
            Result::Ok(m.next_sub),
        )
    }
}

impl Bridge {
    /// Registers a recurring source for the event loop.
    ///
    /// Refused with [`BridgeError::WrongThreadError`] from any thread but the
    /// event loop's owner, before anything is registered or allocated.
    pub fn schedule(&mut self, current_thread: u64, target: Target) -> (r: Result<
        u64,
        BridgeError,
    >)
        requires
            bridge_wf(old(self)@),
            old(self)@.next_sub < u64::MAX,
            is_recurring(target@),
        ensures
            bridge_wf(final(self)@),
            (final(self)@, r) == spec_schedule(old(self)@, current_thread, target@),
    {
        let ghost m = self@;
        if current_thread != self.owner_thread {
            return Err(BridgeError::WrongThreadError);
        }
        let id = self.next_sub;
        let sub = Subscription {
            id,
            target,
            shape: PayloadShape::NoArgs,
            ret: ReturnShape::Rearm,
            live: true,
            dispatches: 0,
        };
        self.subs.push(sub);
        self.next_sub = self.next_sub + 1;
        proof {
            lemma_count_live_le_len(m.subs);
        }
        self.live_closures = self.live_closures + 1;
        proof {
            assert(self@.subs =~= m.subs.push(new_source(m, target@)));
            assert(self@ =~= spec_schedule(m, current_thread, target@).0);
            lemma_count_live_push(m.subs, new_source(m, target@));
            assert forall|k: int| 0 <= k < self@.subs.len() implies (#[trigger] self@.subs[k].live
                ==> (self@.subs[k].target matches TargetModel::Signal { object, .. }
                ==> has_object(self@.objects, object) && object_at(self@.objects, object).refcount
                > 0)) by {
                if self@.subs[k].live {
                    if k < m.subs.len() {
                        assert(m.subs[k].live && m.subs[k].target == self@.subs[k].target);
                    } else {
                        assert(self@.subs[k].target == target@);
                    }
                }
            }
        }
        Ok(id)
    }
}

/// Schedules a callback for the event loop's idle time.
pub fn idle_add(bridge: &mut Bridge, current_thread: u64) -> (r: Result<u64, BridgeError>)
    requires
        bridge_wf(old(bridge)@),
        old(bridge)@.next_sub < u64::MAX,
    ensures
        bridge_wf(final(bridge)@),
        (final(bridge)@, r) == spec_schedule(old(bridge)@, current_thread, TargetModel::Idle),
{
    bridge.schedule(current_thread, Target::Idle)
}

/// Schedules a callback to fire every `interval` milliseconds.
pub fn timeout_add(bridge: &mut Bridge, current_thread: u64, interval: u32) -> (r: Result<
    u64,
    BridgeError,
>)
    requires
        bridge_wf(old(bridge)@),
        old(bridge)@.next_sub < u64::MAX,
    ensures
        bridge_wf(final(bridge)@),
        (final(bridge)@, r) == spec_schedule(
            old(bridge)@,
            current_thread,
            TargetModel::Timer { interval_ms: interval as u64 },
        ),
{
    bridge.schedule(current_thread, Target::Timer { interval_ms: interval as u64 })
}

/// Schedules a callback to fire every `interval` seconds.
pub fn timeout_add_seconds(bridge: &mut Bridge, current_thread: u64, interval: u32) -> (r: Result<
    u64,
    BridgeError,
>)
    requires
        bridge_wf(old(bridge)@),
        old(bridge)@.next_sub < u64::MAX,
    ensures
        bridge_wf(final(bridge)@),
        (final(bridge)@, r) == spec_schedule(
            old(bridge)@,
            current_thread,
            TargetModel::Timer { interval_ms: (1000 * interval as u64) as u64 },
        ),
{
    let ms: u64 = 1000 * (interval as u64);
    bridge.schedule(current_thread, Target::Timer { interval_ms: ms })
}

/// What one firing of a recurring source does: one more dispatch is
/// recorded, and the source stays armed exactly when the handler's decision
/// says to — on `false` it is removed and its closure allocation released.
pub open spec fn spec_fire(m: BridgeModel, id: u64, keep: bool) -> BridgeModel {
    let i = sub_index(m.subs, id);
    let s = m.subs[i];
    BridgeModel {
        subs: m.subs.update(
            i,
            SubModel { dispatches: (s.dispatches + 1) as u64, live: keep, ..s },
        ),
        live_closures: if keep {
            m.live_closures
        } else {
            (m.live_closures - 1) as u64
        },
        ..m
    }
}

impl Bridge {
    /// One firing of a recurring source, with the handler's re-arm decision.
    ///
    /// Only the event loop fires a source, on its own thread, and only while
    /// the source is still armed; the decision `Continue(false)` removes it.
    pub fn fire_recurring(&mut self, current_thread: u64, sub_id: u64, decision: Continue)
        requires
            bridge_wf(old(self)@),
            current_thread == old(self)@.owner_thread,
            has_live_sub(old(self)@.subs, sub_id),
            is_recurring(sub_at(old(self)@.subs, sub_id).target),
            sub_at(old(self)@.subs, sub_id).dispatches < u64::MAX,
        ensures
            bridge_wf(final(self)@),
            final(self)@ == spec_fire(old(self)@, sub_id, decision.0),
    {
        let ghost m = self@;
        proof {
            let w = choose|w: int|
                0 <= w < m.subs.len() && m.subs[w].id == sub_id && m.subs[w].live;
            lemma_sub_at_is(m.subs, sub_id, w);
        }
        let n = self.subs.len();
        let mut i: usize = 0;
        while i < n
            invariant
                i <= n,
                n == self.subs.len(),
                old(self)@ == m,
                self@ == m,
                bridge_wf(m),
                has_sub(m.subs, sub_id),
                sub_at(m.subs, sub_id).live,
                sub_at(m.subs, sub_id).dispatches < u64::MAX,
                forall|k: int| 0 <= k < i ==> m.subs[k].id != sub_id,
            decreases n - i,
        {
            if self.subs[i].id == sub_id {
                proof {
                    lemma_sub_at_is(m.subs, sub_id, i as int);
                    lemma_count_live_update(
                        m.subs,
                        i as int,
                        SubModel {
                            dispatches: (m.subs[i as int].dispatches + 1) as u64,
                            live: decision.0,
                            ..m.subs[i as int]
                        },
                    );
                }
                let sub = &mut self.subs[i];
                sub.dispatches = sub.dispatches + 1;
                sub.live = decision.0;
                if !decision.0 {
                    self.live_closures = self.live_closures - 1;
                }
                proof {
                    assert(self@.subs =~= spec_fire(m, sub_id, decision.0).subs);
                    assert(self@ =~= spec_fire(m, sub_id, decision.0));
                    lemma_fire_wf(m, sub_id, decision.0, self@, i as int);
                }
                return;
            }
            i = i + 1;
        }
        proof {
            assert(!has_sub(m.subs, sub_id));
            assert(false);
        }
    }
}

/// Firing keeps the bridge well formed.
proof fn lemma_fire_wf(m: BridgeModel, id: u64, keep: bool, m1: BridgeModel, i: int)
    requires
        bridge_wf(m),
        0 <= i < m.subs.len(),
        m.subs[i].id == id,
        m.subs[i].live,
        sub_index(m.subs, id) == i,
        m1 == spec_fire(m, id, keep),
    ensures
        bridge_wf(m1),
{
    lemma_count_live_update(
        m.subs,
        i,
        SubModel { dispatches: (m.subs[i].dispatches + 1) as u64, live: keep, ..m.subs[i] },
    );
    assert forall|a: int, b: int| 0 <= a < b < m1.subs.len() implies m1.subs[a].id
        != m1.subs[b].id by {
        assert(m.subs[a].id != m.subs[b].id);
    }
    assert forall|k: int| 0 <= k < m1.subs.len() implies (#[trigger] m1.subs[k].id) < m1.next_sub by {
        assert(m.subs[k].id < m.next_sub);
    }
    assert forall|k: int| 0 <= k < m1.subs.len() implies (#[trigger] m1.subs[k].live ==> (
    m1.subs[k].target matches TargetModel::Signal { object, .. } ==> has_object(m1.objects, object)
        && object_at(m1.objects, object).refcount > 0)) by {
        if m1.subs[k].live {
            assert(m.subs[k].live && m.subs[k].target == m1.subs[k].target);
        }
    }
}

/// An event loop driving one recurring source: invokes the handler for its
/// decision and fires the source, as long as the source is still armed and
/// at most `fuel` times, and returns how often it fired.
///
/// The contract pins the loop's shape: the source's dispatch counter moves
/// by exactly the number returned — one dispatch per handler decision, never
/// one more — a source still armed afterwards means the fuel ran out, and a
/// source that was already disarmed is never fired at all.
pub fn run_recurring<F: Fn(u64) -> Continue>(
    bridge: &mut Bridge,
    current_thread: u64,
    sub_id: u64,
    handler: F,
    fuel: u64,
) -> (fired: u64)
    requires
        bridge_wf(old(bridge)@),
        current_thread == old(bridge)@.owner_thread,
        has_sub(old(bridge)@.subs, sub_id),
        is_recurring(sub_at(old(bridge)@.subs, sub_id).target),
        sub_at(old(bridge)@.subs, sub_id).dispatches + fuel <= u64::MAX,
        forall|k: u64| call_requires(handler, (k,)),
    ensures
        bridge_wf(final(bridge)@),
        fired <= fuel,
        has_sub(final(bridge)@.subs, sub_id),
        sub_at(final(bridge)@.subs, sub_id).dispatches == sub_at(
            old(bridge)@.subs,
            sub_id,
        ).dispatches + fired,
        sub_at(final(bridge)@.subs, sub_id).target == sub_at(old(bridge)@.subs, sub_id).target,
        has_live_sub(final(bridge)@.subs, sub_id) ==> fired == fuel,
        !has_live_sub(old(bridge)@.subs, sub_id) ==> fired == 0 && final(bridge)@ == old(bridge)@,
{
    let ghost m0 = bridge@;
    let mut fired: u64 = 0;
    let mut go = fuel > 0 && bridge.handler_is_connected(sub_id);
    while go
        invariant
            bridge_wf(bridge@),
            old(bridge)@ == m0,
            current_thread == m0.owner_thread,
            bridge@.owner_thread == m0.owner_thread,
            fired <= fuel,
            has_sub(bridge@.subs, sub_id),
            sub_at(bridge@.subs, sub_id).target == sub_at(m0.subs, sub_id).target,
            is_recurring(sub_at(bridge@.subs, sub_id).target),
            sub_at(bridge@.subs, sub_id).dispatches == sub_at(m0.subs, sub_id).dispatches + fired,
            sub_at(m0.subs, sub_id).dispatches + fuel <= u64::MAX,
            forall|k: u64| call_requires(handler, (k,)),
            go ==> fired < fuel && has_live_sub(bridge@.subs, sub_id),
            !go ==> fired == fuel || !has_live_sub(bridge@.subs, sub_id),
            !has_live_sub(m0.subs, sub_id) ==> fired == 0 && bridge@ == m0,
        decreases fuel - fired,
    {
        let ghost before = bridge@;
        let decision = handler(fired);
        bridge.fire_recurring(current_thread, sub_id, decision);
        proof {
            lemma_fire_step(before, sub_id, decision.0);
        }
        fired = fired + 1;
        go = fired < fuel && bridge.handler_is_connected(sub_id);
    }
    fired
}

/// A whole run of a recurring source: the event loop fires the source once
/// per decision, for as long as the source is still armed.
pub open spec fn spec_run_recurring(m: BridgeModel, id: u64, decisions: Seq<bool>) -> BridgeModel
    decreases decisions.len(),
{
    if decisions.len() == 0 {
        m
    } else if has_live_sub(m.subs, id) {
        spec_run_recurring(spec_fire(m, id, decisions[0]), id, decisions.drop_first())
    } else {
        m
    }
}

/// One firing under a decision: the source's counter grows by one, it stays
/// armed exactly on `true`, nothing else about it changes, and the bridge
/// stays well formed.
proof fn lemma_fire_step(m: BridgeModel, id: u64, keep: bool)
    requires
        bridge_wf(m),
        has_live_sub(m.subs, id),
        sub_at(m.subs, id).dispatches < u64::MAX,
    ensures
        bridge_wf(spec_fire(m, id, keep)),
        has_sub(spec_fire(m, id, keep).subs, id),
        sub_index(spec_fire(m, id, keep).subs, id) == sub_index(m.subs, id),
        sub_at(spec_fire(m, id, keep).subs, id) == (SubModel {
            dispatches: (sub_at(m.subs, id).dispatches + 1) as u64,
            live: keep,
            ..sub_at(m.subs, id)
        }),
        has_live_sub(spec_fire(m, id, keep).subs, id) <==> keep,
{
    let w = choose|w: int| 0 <= w < m.subs.len() && m.subs[w].id == id && m.subs[w].live;
    lemma_sub_at_is(m.subs, id, w);
    let m1 = spec_fire(m, id, keep);
    lemma_fire_wf(m, id, keep, m1, w);
    assert(m1.subs[w].id == id);
    assert(forall|k: int| 0 <= k < m1.subs.len() ==> m1.subs[k].id == m.subs[k].id);
    lemma_sub_at_is(m1.subs, id, w);
    if keep {
        assert(m1.subs[w].live);
    } else {
        assert(!has_live_sub(m1.subs, id)) by {
            if has_live_sub(m1.subs, id) {
                let k = choose|k: int|
                    0 <= k < m1.subs.len() && m1.subs[k].id == id && m1.subs[k].live;
                if k != w {
                    assert(m.subs[k].id != m.subs[w].id || !(0 <= k < w || 0 <= w < k));
                    assert(false);
                }
                assert(false);
            }
        }
    }
}

/// A handler that decides to stop on its `n`-th invocation is dispatched
/// exactly `n` times and then removed: the run records `n` more dispatches
/// on the source, leaves it disarmed, and fires it on no later decision,
/// however many follow.
pub proof fn lemma_recurring_stops_exactly(m: BridgeModel, id: u64, decisions: Seq<bool>, n: int)
    requires
        bridge_wf(m),
        has_live_sub(m.subs, id),
        0 < n <= decisions.len(),
        forall|k: int| 0 <= k < n - 1 ==> decisions[k] == true,
        decisions[n - 1] == false,
        sub_at(m.subs, id).dispatches + n <= u64::MAX,
    ensures
        has_sub(spec_run_recurring(m, id, decisions).subs, id),
        sub_at(spec_run_recurring(m, id, decisions).subs, id).dispatches == sub_at(
            m.subs,
            id,
        ).dispatches + n,
        !has_live_sub(spec_run_recurring(m, id, decisions).subs, id),
    decreases n,
{
    let m1 = spec_fire(m, id, decisions[0]);
    lemma_fire_step(m, id, decisions[0]);
    if n == 1 {
        lemma_run_recurring_dead(m1, id, decisions.drop_first());
    } else {
        assert(decisions[0] == true);
        lemma_recurring_stops_exactly(m1, id, decisions.drop_first(), n - 1);
    }
}

/// Once a source is disarmed, a run fires it on no decision at all: the
/// bridge no longer changes.
proof fn lemma_run_recurring_dead(m: BridgeModel, id: u64, decisions: Seq<bool>)
    requires
        !has_live_sub(m.subs, id),
    ensures
        spec_run_recurring(m, id, decisions) == m,
    decreases decisions.len(),
{
    if decisions.len() != 0 {
        lemma_run_recurring_dead(m, id, decisions.drop_first());
    }
}

} // verus!
