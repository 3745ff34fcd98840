//! The callback bridge: subscriptions between native objects and handlers.
//!
//! The bridge mirrors the native toolkit's bookkeeping for signal
//! connections. A native object is known by a numeric identity, a reference
//! count owned by the toolkit, and the table of signals its type can emit,
//! each with its argument and return shape. Connecting a handler registers a
//! subscription and hands the closure's single heap allocation to the native
//! side; the allocation is released exactly once — by an explicit disconnect,
//! or by the destruction notification that fires when the object's reference
//! count reaches zero. `live_closures` counts the allocations currently
//! outstanding, and every operation's contract says precisely how it moves.
//!
//! One thread owns the native event loop. Registration from any other thread
//! is refused outright, before any native call, and dispatch only ever
//! happens on the owning thread.

use crate::dispatch::DispatchOutcome;
use crate::dispatch::FatalReason;
use crate::dispatch::HandlerReply;
use crate::dispatch::ReturnShape;
use crate::dispatch::dispatch_payload;
use crate::dispatch::reply_fits;
use crate::dispatch::spec_raw_reply_of;
use crate::payload::EventPayload;
use crate::payload::PayloadShape;
use crate::payload::RawEvent;
use crate::payload::raw_fits;
use crate::payload::spec_payload_of;
use crate::payload::spec_text_ok;
use vstd::prelude::*;

verus! {

/// How the binding holds a native object reference: owning the only
/// reference, sharing the toolkit's reference count, or borrowing for the
/// duration of a call.
#[derive(Clone, Copy, Debug, Eq, PartialEq, Structural)]
pub enum Ownership {
    Full,
    Shared,
    Borrowed,
}

/// A typed handle to a native object: its identity and how it is held.
/// Never a raw pointer — the toolkit keeps the object, the bridge keeps the
/// name.
#[derive(Clone, Copy, Debug, Eq, PartialEq, Structural)]
pub struct NativeHandle {
    pub id: u64,
    pub ownership: Ownership,
}

/// One signal a native type can emit: its name and both shapes. The set of
/// descriptors an object carries is the capability table resolved when the
/// object is registered.
pub struct SignalDesc {
    pub name: String,
    pub shape: PayloadShape,
    pub ret: ReturnShape,
}

/// Ghost model of a signal descriptor.
pub struct SignalDescModel {
    pub name: Seq<char>,
    pub shape: PayloadShape,
    pub ret: ReturnShape,
}

impl View for SignalDesc {
    type V = SignalDescModel;

    open spec fn view(&self) -> SignalDescModel {
        SignalDescModel { name: self.name@, shape: self.shape, ret: self.ret }
    }
}

/// A native object as the bridge sees it: identity, the toolkit's reference
/// count, and the signals its type can emit.
pub struct NativeObject {
    pub id: u64,
    pub refcount: u64,
    pub signals: Vec<SignalDesc>,
}

/// Ghost model of a native object.
pub struct ObjectModel {
    pub id: u64,
    pub refcount: u64,
    pub signals: Seq<SignalDescModel>,
}

impl View for NativeObject {
    type V = ObjectModel;

    open spec fn view(&self) -> ObjectModel {
        ObjectModel {
            id: self.id,
            refcount: self.refcount,
            signals: self.signals@.map_values(|s: SignalDesc| s@),
        }
    }
}

/// What a subscription is attached to: a named signal of an object, or a
/// recurring source the event loop re-arms.
pub enum Target {
    Signal { object: u64, name: String },
    Idle,
    Timer { interval_ms: u64 },
}

/// Ghost model of a subscription target.
pub enum TargetModel {
    Signal { object: u64, name: Seq<char> },
    Idle,
    Timer { interval_ms: u64 },
}

impl View for Target {
    type V = TargetModel;

    open spec fn view(&self) -> TargetModel {
        match self {
            Target::Signal { object, name } => TargetModel::Signal { object: *object, name: name@ },
            Target::Idle => TargetModel::Idle,
            Target::Timer { interval_ms } => TargetModel::Timer { interval_ms: *interval_ms },
        }
    }
}

/// One registered handler: its identifier, what it listens to, the shapes it
/// expects, whether its closure allocation is still held, and how many times
/// it has been dispatched.
pub struct Subscription {
    pub id: u64,
    pub target: Target,
    pub shape: PayloadShape,
    pub ret: ReturnShape,
    pub live: bool,
    pub dispatches: u64,
}

/// Ghost model of a subscription.
pub struct SubModel {
    pub id: u64,
    pub target: TargetModel,
    pub shape: PayloadShape,
    pub ret: ReturnShape,
    pub live: bool,
    pub dispatches: u64,
}

impl View for Subscription {
    type V = SubModel;

    open spec fn view(&self) -> SubModel {
        SubModel {
            id: self.id,
            target: self.target@,
            shape: self.shape,
            ret: self.ret,
            live: self.live,
            dispatches: self.dispatches,
        }
    }
}

/// Why an operation was refused.
#[derive(Clone, Copy, Debug, Eq, PartialEq, Structural)]
pub enum BridgeError {
    /// The caller is not the thread that owns the event loop.
    WrongThreadError,
    /// The native layer refused the registration: no such live object, or a
    /// signal name its type does not emit.
    BindingError,
}

/// The callback bridge.
pub struct Bridge {
    pub owner_thread: u64,
    pub next_sub: u64,
    pub objects: Vec<NativeObject>,
    pub subs: Vec<Subscription>,
    pub live_closures: u64,
}

/// Ghost model of the whole bridge.
#[verifier::ext_equal]
pub struct BridgeModel {
    pub owner_thread: u64,
    pub next_sub: u64,
    pub objects: Seq<ObjectModel>,
    pub subs: Seq<SubModel>,
    pub live_closures: u64,
}

impl View for Bridge {
    type V = BridgeModel;

    open spec fn view(&self) -> BridgeModel {
        BridgeModel {
            owner_thread: self.owner_thread,
            next_sub: self.next_sub,
            objects: self.objects@.map_values(|o: NativeObject| o@),
            subs: self.subs@.map_values(|s: Subscription| s@),
            live_closures: self.live_closures,
        }
    }
}

/// The number of subscriptions whose closure allocation is still held.
pub open spec fn count_live(subs: Seq<SubModel>) -> nat
    decreases subs.len(),
{
    if subs.len() == 0 {
        0
    } else {
        count_live(subs.drop_last()) + if subs.last().live {
            1nat
        } else {
            0nat
        }
    }
}

/// Every object identity occurs at most once.
pub open spec fn object_ids_unique(objects: Seq<ObjectModel>) -> bool {
    forall|i: int, j: int|
        0 <= i < j < objects.len() ==> objects[i].id != objects[j].id
}

/// Within one object, every signal name occurs at most once.
pub open spec fn signal_names_unique(o: ObjectModel) -> bool {
    forall|i: int, j: int|
        0 <= i < j < o.signals.len() ==> o.signals[i].name != o.signals[j].name
}

/// Every subscription identifier occurs at most once.
pub open spec fn sub_ids_unique(subs: Seq<SubModel>) -> bool {
    forall|i: int, j: int|
        0 <= i < j < subs.len() ==> subs[i].id != subs[j].id
}

/// Whether the bridge knows an object under this identity.
pub open spec fn has_object(objects: Seq<ObjectModel>, id: u64) -> bool {
    exists|i: int| 0 <= i < objects.len() && objects[i].id == id
}

/// The position of the object with this identity.
pub open spec fn object_index(objects: Seq<ObjectModel>, id: u64) -> int {
    choose|i: int| 0 <= i < objects.len() && objects[i].id == id
}

/// The object registered under this identity.
pub open spec fn object_at(objects: Seq<ObjectModel>, id: u64) -> ObjectModel {
    objects[object_index(objects, id)]
}

/// Whether an object's type emits a signal of this name.
pub open spec fn has_signal(o: ObjectModel, name: Seq<char>) -> bool {
    exists|j: int| 0 <= j < o.signals.len() && o.signals[j].name == name
}

/// The descriptor of the named signal.
pub open spec fn signal_at(o: ObjectModel, name: Seq<char>) -> SignalDescModel {
    o.signals[choose|j: int| 0 <= j < o.signals.len() && o.signals[j].name == name]
}

/// Whether the bridge holds a subscription under this identifier.
pub open spec fn has_sub(subs: Seq<SubModel>, id: u64) -> bool {
    exists|i: int| 0 <= i < subs.len() && subs[i].id == id
}

/// The position of the subscription with this identifier.
pub open spec fn sub_index(subs: Seq<SubModel>, id: u64) -> int {
    choose|i: int| 0 <= i < subs.len() && subs[i].id == id
}

/// The subscription registered under this identifier.
pub open spec fn sub_at(subs: Seq<SubModel>, id: u64) -> SubModel {
    subs[sub_index(subs, id)]
}

/// Whether a subscription with this identifier still holds its closure.
pub open spec fn has_live_sub(subs: Seq<SubModel>, id: u64) -> bool {
    exists|i: int| 0 <= i < subs.len() && subs[i].id == id && subs[i].live
}

/// Well-formedness of the bridge's bookkeeping: identities are unambiguous,
/// identifiers never outrun the counter that issues them, the outstanding
/// allocation count is exactly the number of live subscriptions, and a live
/// signal subscription always points at a known object that the toolkit
/// still holds — so a dispatch can never reach a destroyed object.
pub open spec fn bridge_wf(m: BridgeModel) -> bool {
    &&& object_ids_unique(m.objects)
    &&& (forall|i: int| 0 <= i < m.objects.len() ==> signal_names_unique(#[trigger] m.objects[i]))
    &&& sub_ids_unique(m.subs)
    &&& (forall|i: int| 0 <= i < m.subs.len() ==> (#[trigger] m.subs[i].id) < m.next_sub)
    &&& m.subs.len() <= m.next_sub
    &&& m.live_closures == count_live(m.subs)
    &&& (forall|i: int|
        0 <= i < m.subs.len() ==> (#[trigger] m.subs[i].live ==> (m.subs[i].target matches
        TargetModel::Signal { object, .. } ==> has_object(m.objects, object) && object_at(
            m.objects,
            object,
        ).refcount > 0)))
}

/// Appending a subscription adds its liveness to the live count.
pub proof fn lemma_count_live_push(subs: Seq<SubModel>, s: SubModel)
    ensures
        count_live(subs.push(s)) == count_live(subs) + if s.live {
            1nat
        } else {
            0nat
        },
{
    assert(subs.push(s).drop_last() =~= subs);
    assert(subs.push(s).last() == s);
}

/// At most every subscription is live.
pub proof fn lemma_count_live_le_len(subs: Seq<SubModel>)
    ensures
        count_live(subs) <= subs.len(),
    decreases subs.len(),
{
    if subs.len() > 0 {
        lemma_count_live_le_len(subs.drop_last());
    }
}

/// With unambiguous identities, looking an object up by identity finds
/// exactly the element that carries it.
pub proof fn lemma_object_at_is(objects: Seq<ObjectModel>, id: u64, i: int)
    requires
        object_ids_unique(objects),
        0 <= i < objects.len(),
        objects[i].id == id,
    ensures
        has_object(objects, id),
        object_index(objects, id) == i,
        object_at(objects, id) == objects[i],
{
    assert(has_object(objects, id));
    let j = object_index(objects, id);
    if i < j {
        assert(objects[i].id != objects[j].id);
    } else if j < i {
        assert(objects[j].id != objects[i].id);
    }
}

/// With unambiguous identifiers, looking a subscription up by identifier
/// finds exactly the element that carries it.
pub proof fn lemma_sub_at_is(subs: Seq<SubModel>, id: u64, i: int)
    requires
        sub_ids_unique(subs),
        0 <= i < subs.len(),
        subs[i].id == id,
    ensures
        has_sub(subs, id),
        sub_index(subs, id) == i,
        sub_at(subs, id) == subs[i],
{
    assert(has_sub(subs, id));
    let j = sub_index(subs, id);
    if i < j {
        assert(subs[i].id != subs[j].id);
    } else if j < i {
        assert(subs[j].id != subs[i].id);
    }
}

/// With unambiguous names, looking a signal up by name finds exactly the
/// descriptor that carries it.
pub proof fn lemma_signal_at_is(o: ObjectModel, name: Seq<char>, j: int)
    requires
        signal_names_unique(o),
        0 <= j < o.signals.len(),
        o.signals[j].name == name,
    ensures
        has_signal(o, name),
        signal_at(o, name) == o.signals[j],
{
    assert(has_signal(o, name));
    let k = choose|k: int| 0 <= k < o.signals.len() && o.signals[k].name == name;
    if j < k {
        assert(o.signals[j].name != o.signals[k].name);
    } else if k < j {
        assert(o.signals[k].name != o.signals[j].name);
    }
}

/// Replacing one subscription moves the live count by the difference of the
/// two liveness flags.
pub proof fn lemma_count_live_update(subs: Seq<SubModel>, i: int, s: SubModel)
    requires
        0 <= i < subs.len(),
    ensures
        count_live(subs.update(i, s)) + if subs[i].live {
            1nat
        } else {
            0nat
        } == count_live(subs) + if s.live {
            1nat
        } else {
            0nat
        },
    decreases subs.len(),
{
    if i == subs.len() - 1 {
        assert(subs.update(i, s).drop_last() =~= subs.drop_last());
        assert(subs.update(i, s).last() == s);
    } else {
        assert(subs.update(i, s).drop_last() =~= subs.drop_last().update(i, s));
        assert(subs.update(i, s).last() == subs.last());
        lemma_count_live_update(subs.drop_last(), i, s);
    }
}

/// Registration succeeds exactly when the handle names a known object that
/// the toolkit still holds and whose type emits the named signal.
pub open spec fn connect_ok(m: BridgeModel, object: u64, name: Seq<char>) -> bool {
    &&& has_object(m.objects, object)
    &&& object_at(m.objects, object).refcount > 0
    &&& has_signal(object_at(m.objects, object), name)
}

/// The subscription a successful registration creates: the next identifier,
/// the named signal as target, the signal's shapes, the closure allocation
/// held, and no dispatches yet.
pub open spec fn new_sub(m: BridgeModel, object: u64, name: Seq<char>) -> SubModel {
    SubModel {
        id: m.next_sub,
        target: TargetModel::Signal { object, name },
        shape: signal_at(object_at(m.objects, object), name).shape,
        ret: signal_at(object_at(m.objects, object), name).ret,
        live: true,
        dispatches: 0,
    }
}

/// What `connect` does: refused from a foreign thread with nothing
/// registered and nothing allocated; refused by the native layer likewise
/// (the closure allocation is released at once, so nothing stays
/// outstanding); otherwise one new live subscription under a fresh
/// identifier, and one more allocation outstanding.
pub open spec fn spec_connect(m: BridgeModel, thread: u64, object: u64, name: Seq<char>) -> (
    BridgeModel,
    Result<u64, BridgeError>,
) {
    if thread != m.owner_thread {
        (m, Result::Err(BridgeError::WrongThreadError))
    } else if !connect_ok(m, object, name) {
        (m, Result::Err(BridgeError::BindingError))
    } else {
        (
            BridgeModel {
                next_sub: (m.next_sub + 1) as u64,
                subs: m.subs.push(new_sub(m, object, name)),
                live_closures: (m.live_closures + 1) as u64,
                ..m
            },
            Result::Ok(m.next_sub),
        )
    }
}

impl NativeObject {
    /// Finds the named signal in this object's capability table.
    fn find_signal(&self, name: &String) -> (r: Option<usize>)
        ensures
            r matches Some(j) ==> j < self.signals.len() && self@.signals[j as int].name == name@,
            r is None ==> !has_signal(self@, name@),
    {
        let n = self.signals.len();
        let mut j: usize = 0;
        while j < n
            invariant
                j <= n,
                n == self.signals.len(),
                forall|k: int| 0 <= k < j ==> self@.signals[k].name != name@,
            decreases n - j,
        {
            if self.signals[j].name == *name {
                return Some(j);
            }
            j = j + 1;
        }
        None
    }
}

impl Bridge {
    /// A bridge owned by the given event-loop thread, with nothing
    /// registered and nothing outstanding.
    pub fn new(owner_thread: u64) -> (r: Bridge)
        ensures
            r@.owner_thread == owner_thread,
            r@.next_sub == 0,
            r@.objects == Seq::<ObjectModel>::empty(),
            r@.subs == Seq::<SubModel>::empty(),
            r@.live_closures == 0,
            bridge_wf(r@),
    {
        let r = Bridge {
            owner_thread,
            next_sub: 0,
            objects: Vec::new(),
            subs: Vec::new(),
            live_closures: 0,
        };
        proof {
            assert(r@.objects =~= Seq::<ObjectModel>::empty());
            assert(r@.subs =~= Seq::<SubModel>::empty());
        }
        r
    }

    /// Finds the object registered under this identity.
    fn find_object(&self, id: u64) -> (r: Option<usize>)
        ensures
            r matches Some(i) ==> i < self.objects.len() && self@.objects[i as int].id == id,
            r is None ==> !has_object(self@.objects, id),
    {
        let n = self.objects.len();
        let mut i: usize = 0;
        while i < n
            invariant
                i <= n,
                n == self.objects.len(),
                forall|k: int| 0 <= k < i ==> self@.objects[k].id != id,
            decreases n - i,
        {
            if self.objects[i].id == id {
                return Some(i);
            }
            i = i + 1;
        }
        None
    }

    /// Mirrors a native object the wrapper layer has just constructed: a
    /// fresh identity, one toolkit reference, and its type's signal table.
    /// Returns the handle under which the bridge knows it.
    pub fn register_object(&mut self, id: u64, signals: Vec<SignalDesc>) -> (r: NativeHandle)
        requires
            bridge_wf(old(self)@),
            !has_object(old(self)@.objects, id),
            signal_names_unique(
                ObjectModel {
                    id,
                    refcount: 1,
                    signals: signals@.map_values(|s: SignalDesc| s@),
                },
            ),
        ensures
            bridge_wf(final(self)@),
            r == (NativeHandle { id, ownership: Ownership::Shared }),
            final(self)@ == (BridgeModel {
                objects: old(self)@.objects.push(
                    ObjectModel {
                        id,
                        refcount: 1,
                        signals: signals@.map_values(|s: SignalDesc| s@),
                    },
                ),
                ..old(self)@
            }),
    {
        let ghost old_model = self@;
        let ghost pushed = ObjectModel {
            id,
            refcount: 1,
            signals: signals@.map_values(|s: SignalDesc| s@),
        };
        self.objects.push(NativeObject { id, refcount: 1, signals });
        proof {
            assert(self@.objects =~= old_model.objects.push(pushed));
            assert(self@ =~= (BridgeModel { objects: old_model.objects.push(pushed), ..old_model }));
            assert forall|k: int| 0 <= k < self@.subs.len() implies (#[trigger] self@.subs[k].live
                ==> (self@.subs[k].target matches TargetModel::Signal { object, .. }
                ==> has_object(self@.objects, object) && object_at(self@.objects, object).refcount
                > 0)) by {
                if self@.subs[k].live {
                    match self@.subs[k].target {
                        TargetModel::Signal { object, .. } => {
                            let w = object_index(old_model.objects, object);
                            lemma_object_at_is(self@.objects, object, w);
                        },
                        _ => {},
                    }
                }
            }
        }
        NativeHandle { id, ownership: Ownership::Shared }
    }

    /// Registers a handler for a named signal of an object.
    ///
    /// Refused with [`BridgeError::WrongThreadError`] from any thread but the
    /// event loop's owner, before anything is registered or allocated.
    /// Refused with [`BridgeError::BindingError`] when the handle or the
    /// signal name is not valid at the native layer; the closure allocation
    /// is released at once, so nothing stays outstanding. Otherwise the
    /// handler is retained under the returned fresh identifier until the
    /// object is destroyed or the subscription is disconnected.
    pub fn connect(&mut self, current_thread: u64, handle: &NativeHandle, name: &String) -> (r:
        Result<u64, BridgeError>)
        requires
            bridge_wf(old(self)@),
            old(self)@.next_sub < u64::MAX,
        ensures
            bridge_wf(final(self)@),
            (final(self)@, r) == spec_connect(old(self)@, current_thread, handle.id, name@),
    {
        let ghost m = self@;
        if current_thread != self.owner_thread {
            return Err(BridgeError::WrongThreadError);
        }
        let oi = match self.find_object(handle.id) {
            Some(oi) => oi,
            None => {
                return Err(BridgeError::BindingError);
            },
        };
        proof {
            lemma_object_at_is(m.objects, handle.id, oi as int);
        }
        if self.objects[oi].refcount == 0 {
            return Err(BridgeError::BindingError);
        }
        let si = match self.objects[oi].find_signal(name) {
            Some(si) => si,
            None => {
                return Err(BridgeError::BindingError);
            },
        };
        proof {
            lemma_signal_at_is(m.objects[oi as int], name@, si as int);
        }
        let shape = self.objects[oi].signals[si].shape;
        let ret = self.objects[oi].signals[si].ret;
        let id = self.next_sub;
        let sub = Subscription {
            id,
            target: Target::Signal { object: handle.id, name: name.clone() },
            shape,
            ret,
            live: true,
            dispatches: 0,
        };
        self.subs.push(sub);
        self.next_sub = self.next_sub + 1;
        proof {
            lemma_count_live_le_len(m.subs);
        }
        self.live_closures = self.live_closures + 1;
        proof {
            assert(self@.subs =~= m.subs.push(new_sub(m, handle.id, name@)));
            assert(self@ =~= spec_connect(m, current_thread, handle.id, name@).0);
            lemma_count_live_push(m.subs, new_sub(m, handle.id, name@));
            assert forall|k: int| 0 <= k < self@.subs.len() implies (#[trigger] self@.subs[k].live
                ==> (self@.subs[k].target matches TargetModel::Signal { object, .. }
                ==> has_object(self@.objects, object) && object_at(self@.objects, object).refcount
                > 0)) by {
                if self@.subs[k].live {
                    match self@.subs[k].target {
                        TargetModel::Signal { object, .. } => {
                            if k < m.subs.len() {
                                assert(m.subs[k].live && m.subs[k].target == self@.subs[k].target);
                            } else {
                                assert(object == handle.id);
                            }
                        },
                        _ => {},
                    }
                }
            }
        }
        Ok(id)
    }
}

/// One subscription with its closure allocation released.
pub open spec fn kill_sub(s: SubModel) -> SubModel {
    SubModel { live: false, ..s }
}

/// What `disconnect` does: the named subscription, if it still holds its
/// closure, stops being live and its one allocation is released — one
/// decrement, never two; under an unknown or already-disconnected identifier
/// nothing changes at all.
pub open spec fn spec_disconnect(m: BridgeModel, id: u64) -> BridgeModel {
    if has_sub(m.subs, id) && sub_at(m.subs, id).live {
        BridgeModel {
            subs: m.subs.update(sub_index(m.subs, id), kill_sub(sub_at(m.subs, id))),
            live_closures: (m.live_closures - 1) as u64,
            ..m
        }
    } else {
        m
    }
}

impl Bridge {
    /// Removes a registration and releases its closure allocation.
    ///
    /// Idempotent: disconnecting an identifier that is unknown or already
    /// disconnected is a no-op, not an error, and never releases twice.
    pub fn disconnect(&mut self, sub_id: u64)
        requires
            bridge_wf(old(self)@),
        ensures
            bridge_wf(final(self)@),
            final(self)@ == spec_disconnect(old(self)@, sub_id),
    {
        let ghost m = self@;
        let n = self.subs.len();
        let mut i: usize = 0;
        while i < n
            invariant
                i <= n,
                n == self.subs.len(),
                old(self)@ == m,
                self@ == m,
                bridge_wf(m),
                forall|k: int| 0 <= k < i ==> m.subs[k].id != sub_id,
            decreases n - i,
        {
            if self.subs[i].id == sub_id {
                proof {
                    lemma_sub_at_is(m.subs, sub_id, i as int);
                }
                if self.subs[i].live {
                    proof {
                        lemma_count_live_update(m.subs, i as int, kill_sub(m.subs[i as int]));
                    }
                    let sub = &mut self.subs[i];
                    sub.live = false;
                    self.live_closures = self.live_closures - 1;
                    proof {
                        assert(self@.subs =~= m.subs.update(
                            i as int,
                            kill_sub(m.subs[i as int]),
                        ));
                        assert(self@ =~= spec_disconnect(m, sub_id));
                        lemma_disconnect_wf(m, sub_id, self@);
                    }
                }
                return;
            }
            i = i + 1;
        }
    }
}

/// The state after a disconnect that released a live subscription is still
/// well formed.
proof fn lemma_disconnect_wf(m: BridgeModel, id: u64, m1: BridgeModel)
    requires
        bridge_wf(m),
        has_sub(m.subs, id),
        sub_at(m.subs, id).live,
        m1 == spec_disconnect(m, id),
    ensures
        bridge_wf(m1),
{
    let i = sub_index(m.subs, id);
    lemma_count_live_update(m.subs, i, kill_sub(m.subs[i]));
    assert forall|a: int, b: int| 0 <= a < b < m1.subs.len() implies m1.subs[a].id
        != m1.subs[b].id by {
        assert(m.subs[a].id != m.subs[b].id);
    }
    assert forall|k: int| 0 <= k < m1.subs.len() implies (#[trigger] m1.subs[k].live ==> (
    m1.subs[k].target matches TargetModel::Signal { object, .. } ==> has_object(m1.objects, object)
        && object_at(m1.objects, object).refcount > 0)) by {
        if m1.subs[k].live {
            assert(k != i);
            assert(m1.subs[k] == m.subs[k]);
        }
    }
}

/// Disconnecting is idempotent: a second disconnect on the same identifier
/// finds no live subscription, changes nothing, and releases nothing — the
/// one closure allocation can never be released twice.
pub proof fn lemma_disconnect_idempotent(m: BridgeModel, id: u64)
    requires
        bridge_wf(m),
    ensures
        spec_disconnect(spec_disconnect(m, id), id) == spec_disconnect(m, id),
{
    let m1 = spec_disconnect(m, id);
    if has_sub(m.subs, id) && sub_at(m.subs, id).live {
        let i = sub_index(m.subs, id);
        assert(m1.subs == m.subs.update(i, kill_sub(m.subs[i])));
        assert(m1.subs[i].id == id && !m1.subs[i].live);
        if has_sub(m1.subs, id) && sub_at(m1.subs, id).live {
            let j = sub_index(m1.subs, id);
            assert(0 <= j < m1.subs.len() && m1.subs[j].id == id);
            if j != i {
                assert(m.subs[j].id == m1.subs[j].id);
                assert(m.subs[i].id != m.subs[j].id || !(0 <= i < j || 0 <= j < i));
                assert(false);
            }
            assert(false);
        }
    }
}

/// Connecting and immediately disconnecting leaves no closure allocation
/// outstanding: the released subscription is dead, and the count of
/// outstanding allocations returns to exactly what it was before the connect.
pub proof fn lemma_connect_then_disconnect_no_leak(
    m: BridgeModel,
    thread: u64,
    object: u64,
    name: Seq<char>,
)
    requires
        bridge_wf(m),
        m.next_sub < u64::MAX,
    ensures
        ({
            let (m1, r) = spec_connect(m, thread, object, name);
            r matches Ok(id) ==> {
                &&& spec_disconnect(m1, id).live_closures == m.live_closures
                &&& count_live(spec_disconnect(m1, id).subs) == count_live(m.subs)
                &&& !has_live_sub(spec_disconnect(m1, id).subs, id)
            }
        }),
{
    let (m1, r) = spec_connect(m, thread, object, name);
    if r is Ok {
        let id = m.next_sub;
        let s = new_sub(m, object, name);
        let ghost n = m.subs.len() as int;
        lemma_count_live_le_len(m.subs);
        assert(m1.subs == m.subs.push(s));
        assert(m1.subs[n] == s && s.id == id && s.live);
        assert forall|a: int, b: int| 0 <= a < b < m1.subs.len() implies m1.subs[a].id
            != m1.subs[b].id by {
            if b < n {
                assert(m.subs[a].id != m.subs[b].id);
            } else {
                assert(m1.subs[a].id == m.subs[a].id && m.subs[a].id < m.next_sub);
            }
        }
        lemma_sub_at_is(m1.subs, id, n);
        let m2 = spec_disconnect(m1, id);
        lemma_count_live_push(m.subs, s);
        lemma_count_live_update(m1.subs, n, kill_sub(s));
        assert(!has_live_sub(m2.subs, id)) by {
            if has_live_sub(m2.subs, id) {
                let k = choose|k: int|
                    0 <= k < m2.subs.len() && m2.subs[k].id == id && m2.subs[k].live;
                if k != n {
                    assert(m1.subs[k].id == m.subs[k].id && m.subs[k].id < m.next_sub);
                    assert(false);
                }
                assert(false);
            }
        }
    }
}

/// What acquiring one more toolkit reference does: the object's count grows
/// by one and nothing else moves.
pub open spec fn spec_object_ref(m: BridgeModel, id: u64) -> BridgeModel {
    let i = object_index(m.objects, id);
    BridgeModel {
        objects: m.objects.update(
            i,
            ObjectModel { refcount: (m.objects[i].refcount + 1) as u64, ..m.objects[i] },
        ),
        ..m
    }
}

/// All live signal subscriptions of one object released: what the toolkit's
/// destruction notification does to the subscription table.
pub open spec fn kill_subs_of(subs: Seq<SubModel>, object: u64) -> Seq<SubModel> {
    subs.map(
        |i: int, s: SubModel|
            if s.live && (s.target matches TargetModel::Signal { object: o, .. } && o == object) {
                kill_sub(s)
            } else {
                s
            },
    )
}

/// What releasing one toolkit reference does: the count shrinks by one, and
/// when it reaches zero the object is destroyed — every closure still held
/// for one of its signals is released, each exactly once.
pub open spec fn spec_object_unref(m: BridgeModel, id: u64) -> BridgeModel {
    let i = object_index(m.objects, id);
    let o = m.objects[i];
    if o.refcount == 1 {
        let swept = kill_subs_of(m.subs, id);
        BridgeModel {
            objects: m.objects.update(i, ObjectModel { refcount: 0, ..o }),
            subs: swept,
            live_closures: count_live(swept) as u64,
            ..m
        }
    } else {
        BridgeModel {
            objects: m.objects.update(i, ObjectModel { refcount: (o.refcount - 1) as u64, ..o }),
            ..m
        }
    }
}

impl Bridge {
    /// Acquires one more toolkit reference on a held object.
    pub fn object_ref(&mut self, handle: &NativeHandle)
        requires
            bridge_wf(old(self)@),
            has_object(old(self)@.objects, handle.id),
            object_at(old(self)@.objects, handle.id).refcount > 0,
            object_at(old(self)@.objects, handle.id).refcount < u64::MAX,
        ensures
            bridge_wf(final(self)@),
            final(self)@ == spec_object_ref(old(self)@, handle.id),
    {
        let ghost m = self@;
        let i = match self.find_object(handle.id) {
            Some(i) => i,
            None => {
                proof {
                    assert(false);
                }
                return;
            },
        };
        proof {
            lemma_object_at_is(m.objects, handle.id, i as int);
        }
        let obj = &mut self.objects[i];
        obj.refcount = obj.refcount + 1;
        proof {
            assert(self@.objects =~= spec_object_ref(m, handle.id).objects);
            assert(self@ =~= spec_object_ref(m, handle.id));
            assert forall|k: int| 0 <= k < self@.subs.len() implies (#[trigger] self@.subs[k].live
                ==> (self@.subs[k].target matches TargetModel::Signal { object, .. }
                ==> has_object(self@.objects, object) && object_at(self@.objects, object).refcount
                > 0)) by {
                if self@.subs[k].live {
                    match self@.subs[k].target {
                        TargetModel::Signal { object, .. } => {
                            let w = object_index(m.objects, object);
                            lemma_object_at_is(self@.objects, object, w);
                        },
                        _ => {},
                    }
                }
            }
        }
    }

    /// Releases one toolkit reference on a held object. When the count
    /// reaches zero the object is destroyed: the toolkit's destruction
    /// notification fires, and the bridge releases the closure allocation of
    /// every subscription still live on that object — each exactly once.
    pub fn object_unref(&mut self, handle: &NativeHandle)
        requires
            bridge_wf(old(self)@),
            has_object(old(self)@.objects, handle.id),
            object_at(old(self)@.objects, handle.id).refcount > 0,
        ensures
            bridge_wf(final(self)@),
            final(self)@ == spec_object_unref(old(self)@, handle.id),
    {
        let ghost m = self@;
        let i = match self.find_object(handle.id) {
            Some(i) => i,
            None => {
                proof {
                    assert(false);
                }
                return;
            },
        };
        proof {
            lemma_object_at_is(m.objects, handle.id, i as int);
        }
        let was_last = self.objects[i].refcount == 1;
        let obj = &mut self.objects[i];
        obj.refcount = obj.refcount - 1;
        let ghost m_mid = self@;
        proof {
            assert(m_mid.objects =~= spec_object_unref(m, handle.id).objects);
            assert(m_mid.subs == m.subs);
        }
        if !was_last {
            proof {
                assert(self@ =~= spec_object_unref(m, handle.id));
                lemma_unref_keeps_wf_when_held(m, handle.id, self@);
            }
            return;
        }
        let ghost swept = kill_subs_of(m.subs, handle.id);
        let n = self.subs.len();
        let mut k: usize = 0;
        while k < n
            invariant
                k <= n,
                n == self.subs.len(),
                bridge_wf(m),
                old(self)@ == m,
                0 <= object_index(m.objects, handle.id) < m.objects.len(),
                m.objects[object_index(m.objects, handle.id)].id == handle.id,
                swept == kill_subs_of(m.subs, handle.id),
                swept.len() == n,
                self@.objects == m_mid.objects,
                self@.owner_thread == m.owner_thread,
                self@.next_sub == m.next_sub,
                forall|t: int| 0 <= t < k ==> self@.subs[t] == swept[t],
                forall|t: int| k <= t < n ==> self@.subs[t] == m.subs[t],
                self@.live_closures == count_live(self@.subs),
            decreases n - k,
        {
            let hit = self.subs[k].live && (match &self.subs[k].target {
                Target::Signal { object, .. } => *object == handle.id,
                _ => false,
            });
            if hit {
                let ghost before = self@.subs;
                proof {
                    lemma_count_live_update(before, k as int, kill_sub(before[k as int]));
                }
                let sub = &mut self.subs[k];
                sub.live = false;
                self.live_closures = self.live_closures - 1;
                proof {
                    assert(self@.subs =~= before.update(k as int, kill_sub(before[k as int])));
                }
            }
            k = k + 1;
        }
        proof {
            assert(self@.subs =~= swept);
            assert(self@ =~= spec_object_unref(m, handle.id));
            lemma_unref_destroy_wf(m, handle.id, self@);
        }
    }
}

/// Releasing a reference that is not the last keeps the bridge well formed:
/// every live subscription's object is still held.
proof fn lemma_unref_keeps_wf_when_held(m: BridgeModel, id: u64, m1: BridgeModel)
    requires
        bridge_wf(m),
        has_object(m.objects, id),
        object_at(m.objects, id).refcount > 1,
        m1 == spec_object_unref(m, id),
    ensures
        bridge_wf(m1),
{
    let i = object_index(m.objects, id);
    assert forall|k: int| 0 <= k < m1.subs.len() implies (#[trigger] m1.subs[k].live ==> (
    m1.subs[k].target matches TargetModel::Signal { object, .. } ==> has_object(m1.objects, object)
        && object_at(m1.objects, object).refcount > 0)) by {
        if m1.subs[k].live {
            match m1.subs[k].target {
                TargetModel::Signal { object, .. } => {
                    let w = object_index(m.objects, object);
                    lemma_object_at_is(m1.objects, object, w);
                },
                _ => {},
            }
        }
    }
}

/// Destroying an object keeps the bridge well formed: the swept table holds
/// no live subscription on the destroyed object, every other live
/// subscription's object is still held, and the allocation count is the live
/// count of the swept table.
proof fn lemma_unref_destroy_wf(m: BridgeModel, id: u64, m1: BridgeModel)
    requires
        bridge_wf(m),
        has_object(m.objects, id),
        object_at(m.objects, id).refcount == 1,
        m1 == spec_object_unref(m, id),
    ensures
        bridge_wf(m1),
{
    let i = object_index(m.objects, id);
    let swept = kill_subs_of(m.subs, id);
    lemma_count_live_le_len(swept);
    assert forall|a: int, b: int| 0 <= a < b < m1.subs.len() implies m1.subs[a].id
        != m1.subs[b].id by {
        assert(m.subs[a].id != m.subs[b].id);
    }
    assert forall|k: int| 0 <= k < m1.subs.len() implies (#[trigger] m1.subs[k].id) < m1.next_sub by {
        assert(m.subs[k].id < m.next_sub);
    }
    assert forall|k: int| 0 <= k < m1.subs.len() implies (#[trigger] m1.subs[k].live ==> (
    m1.subs[k].target matches TargetModel::Signal { object, .. } ==> has_object(m1.objects, object)
        && object_at(m1.objects, object).refcount > 0)) by {
        if m1.subs[k].live {
            match m1.subs[k].target {
                TargetModel::Signal { object, .. } => {
                    assert(m.subs[k].live && m.subs[k].target == m1.subs[k].target);
                    assert(object != id);
                    let w = object_index(m.objects, object);
                    lemma_object_at_is(m1.objects, object, w);
                },
                _ => {},
            }
        }
    }
}

/// What recording one dispatch does: the subscription's dispatch counter
/// grows by one and nothing else moves.
pub open spec fn spec_record_dispatch(m: BridgeModel, id: u64) -> BridgeModel {
    let i = sub_index(m.subs, id);
    BridgeModel {
        subs: m.subs.update(
            i,
            SubModel { dispatches: (m.subs[i].dispatches + 1) as u64, ..m.subs[i] },
        ),
        ..m
    }
}

impl Bridge {
    /// One dispatch from the native event loop into the handler registered
    /// under `sub_id`.
    ///
    /// Only the native runtime initiates a dispatch, always on the thread
    /// that owns the event loop, only for a subscription whose closure is
    /// still held, and with raw arguments of the shape recorded when the
    /// handler was connected — the bridge's invariant then guarantees the
    /// emitting object has not been destroyed. The raw arguments are
    /// marshalled, the handler is invoked on the typed payload, and its reply
    /// is marshalled back; invalid text terminates instead. Exactly one
    /// dispatch is recorded.
    pub fn dispatch<F: Fn(EventPayload) -> HandlerReply>(
        &mut self,
        current_thread: u64,
        sub_id: u64,
        raw: RawEvent,
        handler: F,
    ) -> (r: DispatchOutcome)
        requires
            bridge_wf(old(self)@),
            current_thread == old(self)@.owner_thread,
            has_live_sub(old(self)@.subs, sub_id),
            raw_fits(sub_at(old(self)@.subs, sub_id).shape, raw),
            sub_at(old(self)@.subs, sub_id).dispatches < u64::MAX,
            spec_text_ok(raw) ==> call_requires(handler, (spec_payload_of(raw),)),
            forall|p: EventPayload, reply: HandlerReply|
                call_ensures(handler, (p,), reply) ==> reply_fits(
                    sub_at(old(self)@.subs, sub_id).ret,
                    reply,
                ),
        ensures
            bridge_wf(final(self)@),
            final(self)@ == spec_record_dispatch(old(self)@, sub_id),
            !spec_text_ok(raw) ==> r == DispatchOutcome::Terminate(FatalReason::InvalidText),
            spec_text_ok(raw) ==> (exists|reply: HandlerReply|
                call_ensures(handler, (spec_payload_of(raw),), reply) && reply_fits(
                    sub_at(old(self)@.subs, sub_id).ret,
                    reply,
                ) && r == DispatchOutcome::Completed(spec_raw_reply_of(reply))),
    {
        let ghost m = self@;
        proof {
            let w = choose|w: int|
                0 <= w < m.subs.len() && m.subs[w].id == sub_id && m.subs[w].live;
            lemma_sub_at_is(m.subs, sub_id, w);
        }
        let n = self.subs.len();
        let mut i: usize = 0;
        while i < n
            invariant
                i <= n,
                n == self.subs.len(),
                old(self)@ == m,
                self@ == m,
                bridge_wf(m),
                has_sub(m.subs, sub_id),
                sub_at(m.subs, sub_id).dispatches < u64::MAX,
                spec_text_ok(raw) ==> call_requires(handler, (spec_payload_of(raw),)),
                forall|p: EventPayload, reply: HandlerReply|
                    call_ensures(handler, (p,), reply) ==> reply_fits(
                        sub_at(m.subs, sub_id).ret,
                        reply,
                    ),
                forall|k: int| 0 <= k < i ==> m.subs[k].id != sub_id,
            decreases n - i,
        {
            if self.subs[i].id == sub_id {
                proof {
                    lemma_sub_at_is(m.subs, sub_id, i as int);
                    lemma_count_live_update(
                        m.subs,
                        i as int,
                        SubModel { dispatches: (m.subs[i as int].dispatches + 1) as u64, ..m.subs[i as int] },
                    );
                }
                let sub = &mut self.subs[i];
                sub.dispatches = sub.dispatches + 1;
                proof {
                    assert(self@.subs =~= spec_record_dispatch(m, sub_id).subs);
                    assert(self@ =~= spec_record_dispatch(m, sub_id));
                    lemma_record_dispatch_wf(m, sub_id, self@, i as int);
                }
                return dispatch_payload(raw, handler);
            }
            i = i + 1;
        }
        proof {
            assert(!has_sub(m.subs, sub_id));
            assert(false);
        }
        DispatchOutcome::Terminate(FatalReason::InvalidText)
    }
}

/// Recording a dispatch keeps the bridge well formed: liveness, identifiers
/// and targets are untouched.
proof fn lemma_record_dispatch_wf(m: BridgeModel, id: u64, m1: BridgeModel, i: int)
    requires
        bridge_wf(m),
        0 <= i < m.subs.len(),
        m.subs[i].id == id,
        sub_index(m.subs, id) == i,
        m1 == spec_record_dispatch(m, id),
    ensures
        bridge_wf(m1),
{
    lemma_count_live_update(
        m.subs,
        i,
        SubModel { dispatches: (m.subs[i].dispatches + 1) as u64, ..m.subs[i] },
    );
    assert forall|a: int, b: int| 0 <= a < b < m1.subs.len() implies m1.subs[a].id
        != m1.subs[b].id by {
        assert(m.subs[a].id != m.subs[b].id);
    }
    assert forall|k: int| 0 <= k < m1.subs.len() implies (#[trigger] m1.subs[k].id) < m1.next_sub by {
        assert(m.subs[k].id < m.next_sub);
    }
    assert forall|k: int| 0 <= k < m1.subs.len() implies (#[trigger] m1.subs[k].live ==> (
    m1.subs[k].target matches TargetModel::Signal { object, .. } ==> has_object(m1.objects, object)
        && object_at(m1.objects, object).refcount > 0)) by {
        if m1.subs[k].live {
            assert(m.subs[k].live && m.subs[k].target == m1.subs[k].target);
        }
    }
}

/// What releasing a handle does: nothing for a borrow, which the binding
/// never owned; one reference released for a held handle.
pub open spec fn spec_release(m: BridgeModel, h: NativeHandle) -> BridgeModel {
    if h.ownership is Borrowed {
        m
    } else {
        spec_object_unref(m, h.id)
    }
}

impl Bridge {
    /// Lets go of a handle according to its ownership tag: a borrowed handle
    /// was never the binding's to release, any other gives back one toolkit
    /// reference (destroying the object if it was the last).
    pub fn release(&mut self, handle: &NativeHandle)
        requires
            bridge_wf(old(self)@),
            !(handle.ownership is Borrowed) ==> has_object(old(self)@.objects, handle.id)
                && object_at(old(self)@.objects, handle.id).refcount > 0,
        ensures
            bridge_wf(final(self)@),
            final(self)@ == spec_release(old(self)@, *handle),
    {
        match handle.ownership {
            Ownership::Borrowed => {},
            _ => {
                self.object_unref(handle);
            },
        }
    }

    /// Whether a subscription identifier still holds its closure.
    pub fn handler_is_connected(&self, sub_id: u64) -> (r: bool)
        requires
            bridge_wf(self@),
        ensures
            r == has_live_sub(self@.subs, sub_id),
    {
        let n = self.subs.len();
        let mut i: usize = 0;
        while i < n
            invariant
                i <= n,
                n == self.subs.len(),
                bridge_wf(self@),
                forall|k: int|
                    0 <= k < i ==> !(#[trigger] self@.subs[k].id == sub_id && self@.subs[k].live),
            decreases n - i,
        {
            if self.subs[i].id == sub_id && self.subs[i].live {
                proof {
                    assert(self@.subs[i as int].id == sub_id && self@.subs[i as int].live);
                    assert(has_live_sub(self@.subs, sub_id));
                }
                return true;
            }
            i = i + 1;
        }
        false
    }

    /// The capability query behind every registration: whether the object a
    /// handle names is still held and its type emits the named signal.
    pub fn supports_signal(&self, handle: &NativeHandle, name: &String) -> (r: bool)
        requires
            bridge_wf(self@),
        ensures
            r == connect_ok(self@, handle.id, name@),
    {
        let ghost m = self@;
        let oi = match self.find_object(handle.id) {
            Some(oi) => oi,
            None => {
                return false;
            },
        };
        proof {
            lemma_object_at_is(m.objects, handle.id, oi as int);
        }
        if self.objects[oi].refcount == 0 {
            return false;
        }
        match self.objects[oi].find_signal(name) {
            Some(si) => {
                proof {
                    lemma_signal_at_is(m.objects[oi as int], name@, si as int);
                }
                true
            },
            None => false,
        }
    }
}

/// After the toolkit destroys an object, no subscription on it is live: a
/// handler can never again be dispatched for a destroyed object.
pub proof fn lemma_destroy_forbids_dispatch(m: BridgeModel, id: u64, sub_id: u64)
    requires
        bridge_wf(m),
        has_object(m.objects, id),
        object_at(m.objects, id).refcount == 1,
        has_sub(m.subs, sub_id),
        sub_at(m.subs, sub_id).target matches TargetModel::Signal { object, .. } && object == id,
    ensures
        !has_live_sub(spec_object_unref(m, id).subs, sub_id),
{
    let m1 = spec_object_unref(m, id);
    let i = sub_index(m.subs, sub_id);
    if has_live_sub(m1.subs, sub_id) {
        let k = choose|k: int| 0 <= k < m1.subs.len() && m1.subs[k].id == sub_id && m1.subs[k].live;
        if k != i {
            assert(m.subs[k].id == m1.subs[k].id);
            assert(m.subs[i].id != m.subs[k].id || !(0 <= i < k || 0 <= k < i));
            assert(false);
        }
        assert(false);
    }
}

/// From a thread that does not own the event loop, `connect` fails with the
/// wrong-thread error and registers nothing: the bridge is left exactly as it
/// was.
pub proof fn lemma_connect_wrong_thread(m: BridgeModel, thread: u64, object: u64, name: Seq<char>)
    requires
        thread != m.owner_thread,
    ensures
        spec_connect(m, thread, object, name) == (m, Result::<u64, BridgeError>::Err(
            BridgeError::WrongThreadError,
        )),
{
}

} // verus!
