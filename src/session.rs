//! The state of one session: the correlation-id cursor and the table of calls
//! that wait for their response, with the decision taken on each inbound frame.

use std::collections::HashMap;
use vstd::prelude::*;
use crate::framing::{frame_bytes, write_frame, FrameError};

verus! {

broadcast use vstd::std_specs::hash::group_hash_axioms;

/// First id of the range that outbound calls draw from.
pub const HANDLE_START: u32 = 0x8000_0000;

/// First id past the range that outbound calls draw from.
pub const HANDLE_END: u32 = 0xffff_ff00;

/// The pending-call table: id to `None` while waiting, `Some(payload)` once
/// the response came.
pub type Table = Map<u32, Option<Vec<u8>>>;

/// Whether `id` lies in the range of outbound ids.
pub open spec fn in_range(id: u32) -> bool {
    HANDLE_START <= id < HANDLE_END
}

/// The id the allocator hands out after `h`: one more, or back to the start
/// once that would reach the end of the range.
pub open spec fn next_handle(h: u32) -> u32 {
    if h as int + 1 >= HANDLE_END as int {
        HANDLE_START
    } else {
        (h + 1) as u32
    }
}

/// What `deliver` answers and the table it leaves.
pub open spec fn deliver_result(t: Table, id: u32, payload: Vec<u8>) -> (bool, Table) {
    if t.contains_key(id) && t[id] is None {
        (true, t.insert(id, Some(payload)))
    } else {
        (false, t)
    }
}

/// What `try_resolve` answers and the table it leaves.
pub open spec fn resolve_result(t: Table, id: u32) -> (Option<Vec<u8>>, Table) {
    if t.contains_key(id) && t[id] is Some {
        (t[id], t.remove(id))
    } else {
        (None, t)
    }
}

/// Why an id could not be registered.
#[derive(Debug, Clone, Copy, PartialEq, Eq, Structural)]
pub enum RegisterError {
    /// The id lies outside the range of outbound ids.
    OutOfRange,
    /// The id is already waiting for its response.
    AlreadyPending,
}

/// Where an inbound frame goes.
#[derive(Debug)]
pub enum Route {
    /// It answered a pending call and is filed in the table.
    Response,
    /// No call waits on its id (it has no entry, or its response already came):
    /// it is a notification, handed on with its payload.
    Notification(Vec<u8>),
}

/// Where `route_frame` sends a frame, and the table it leaves.
pub open spec fn route_result(t: Table, id: u32, payload: Vec<u8>) -> (Route, Table) {
    let (accepted, t1) = deliver_result(t, id, payload);
    if accepted {
        (Route::Response, t1)
    } else {
        (Route::Notification(payload), t)
    }
}

/// Why an outbound call could not be started.
#[derive(Debug, Clone, Copy, PartialEq, Eq, Structural)]
pub enum CallError {
    /// The request payload does not fit a frame.
    TooLong,
    /// The allocator came round to an id that still waits for its response.
    HandleInUse,
}

/// The bookkeeping of one session.
pub struct Client {
    handle: u32,
    msgs: HashMap<u32, Option<Vec<u8>>>,
}

impl Client {
    /// The last id handed out (the start of the range before the first call).
    pub closed spec fn cursor(&self) -> u32 {
        self.handle
    }

    /// The pending-call table.
    pub closed spec fn table(&self) -> Table {
        self.msgs@
    }

    /// The cursor lies in the range, and so does every id in the table.
    pub closed spec fn wf(&self) -> bool {
        &&& in_range(self.handle)
        &&& forall|id: u32| #[trigger] self.msgs@.contains_key(id) ==> in_range(id)
    }

    /// A fresh session: cursor at the start of the range, nothing pending.
    pub fn new() -> (r: Client)
        ensures
            r.wf(),
            r.cursor() == HANDLE_START,
            r.table() == Map::<u32, Option<Vec<u8>>>::empty(),
    {
        Client { handle: HANDLE_START, msgs: HashMap::new() }
    }

    /// Advances the cursor and returns the new id.
    pub fn new_handle(&mut self) -> (r: u32)
        requires
            old(self).wf(),
        ensures
            final(self).wf(),
            r == next_handle(old(self).cursor()),
            in_range(r),
            final(self).cursor() == r,
            final(self).table() == old(self).table(),
    {
        if self.handle >= HANDLE_END - 1 {
            self.handle = HANDLE_START;
        } else {
            self.handle = self.handle + 1;
        }
        self.handle
    }

    /// Whether `id` has an entry in the table.
    pub fn is_pending(&self, id: u32) -> (r: bool)
        ensures
            r == self.table().contains_key(id),
    {
        self.msgs.contains_key(&id)
    }

    /// Registers `id` as waiting for its response.
    pub fn register(&mut self, id: u32) -> (r: Result<(), RegisterError>)
        requires
            old(self).wf(),
        ensures
            final(self).wf(),
            final(self).cursor() == old(self).cursor(),
            !in_range(id) <==> r == Err::<(), RegisterError>(RegisterError::OutOfRange),
            (in_range(id) && old(self).table().contains_key(id)) <==> r == Err::<
                (),
                RegisterError,
            >(RegisterError::AlreadyPending),
            r is Ok ==> final(self).table() == old(self).table().insert(id, None),
            r is Err ==> final(self).table() == old(self).table(),
    {
        if id < HANDLE_START || id >= HANDLE_END {
            return Err(RegisterError::OutOfRange);
        }
        if self.msgs.contains_key(&id) {
            return Err(RegisterError::AlreadyPending);
        }
        self.msgs.insert(id, None);
        Ok(())
    }

    /// Files `payload` as the response of `id`; true when `id` was waiting.
    pub fn deliver(&mut self, id: u32, payload: Vec<u8>) -> (r: bool)
        requires
            old(self).wf(),
        ensures
            final(self).wf(),
            final(self).cursor() == old(self).cursor(),
            (r, final(self).table()) == deliver_result(old(self).table(), id, payload),
    {
        let waiting = match self.msgs.get(&id) {
            Some(v) => v.is_none(),
            None => false,
        };
        if waiting {
            self.msgs.insert(id, Some(payload));
        }
        waiting
    }

    /// Takes the response of `id` out of the table once it has come.
    pub fn try_resolve(&mut self, id: u32) -> (r: Option<Vec<u8>>)
        requires
            old(self).wf(),
        ensures
            final(self).wf(),
            final(self).cursor() == old(self).cursor(),
            (r, final(self).table()) == resolve_result(old(self).table(), id),
    {
        let arrived = match self.msgs.get(&id) {
            Some(v) => v.is_some(),
            None => false,
        };
        if arrived {
            match self.msgs.remove(&id) {
                Some(v) => v,
                None => None,
            }
        } else {
            None
        }
    }

    /// Decides where one inbound frame goes, filing it where it answers a call.
    pub fn route_frame(&mut self, id: u32, payload: Vec<u8>) -> (r: Route)
        requires
            old(self).wf(),
        ensures
            final(self).wf(),
            final(self).cursor() == old(self).cursor(),
            (r, final(self).table()) == route_result(old(self).table(), id, payload),
    {
        let waiting = match self.msgs.get(&id) {
            Some(v) => v.is_none(),
            None => false,
        };
        if waiting {
            self.msgs.insert(id, Some(payload));
            Route::Response
        } else {
            Route::Notification(payload)
        }
    }

    /// Starts an outbound call: takes the next id, registers it, and returns it
    /// with the frame to write.
    pub fn begin_call(&mut self, payload: &[u8]) -> (r: Result<(u32, Vec<u8>), CallError>)
        requires
            old(self).wf(),
        ensures
            final(self).wf(),
            payload@.len() > u32::MAX ==> r == Err::<(u32, Vec<u8>), CallError>(
                CallError::TooLong,
            ) && *final(self) == *old(self),
            payload@.len() <= u32::MAX ==> {
                let h = next_handle(old(self).cursor());
                &&& final(self).cursor() == h
                &&& old(self).table().contains_key(h) <==> r is Err
                &&& r is Err ==> r == Err::<(u32, Vec<u8>), CallError>(CallError::HandleInUse)
                &&& r is Err ==> final(self).table() == old(self).table()
                &&& r matches Ok((id, frame)) ==> {
                    &&& id == h
                    &&& frame@ == frame_bytes(id, payload@)
                    &&& final(self).table() == old(self).table().insert(id, None)
                }
            },
    {
        if payload.len() > 0xffff_ffff {
            return Err(CallError::TooLong);
        }
        let id = self.new_handle();
        let registered = self.register(id);
        match registered {
            Ok(()) => {},
            Err(e) => {
                assert(e == RegisterError::AlreadyPending);
                return Err(CallError::HandleInUse);
            },
        }
        match write_frame(id, payload) {
            Ok(frame) => Ok((id, frame)),
            Err(_) => Err(CallError::TooLong),
        }
    }
}

/// What one pumped frame means for a call waiting on its id.
#[derive(Debug)]
pub enum Pump {
    /// The call's own response came; here is its payload.
    Done(Vec<u8>),
    /// Some other call was answered: pump again.
    Pending,
    /// A notification came: handle it, then call `try_resolve` on the waiting
    /// id before reading another frame, since calls made while handling it may
    /// have filed the waiting call's response.
    Notification(Vec<u8>),
}

/// What pumping frame `(id, payload)` gives a call waiting on `waiting`, and
/// the table it leaves.
pub open spec fn pump_result(t: Table, waiting: u32, id: u32, payload: Vec<u8>) -> (Pump, Table) {
    let (route, t1) = route_result(t, id, payload);
    match route {
        Route::Notification(p) => (Pump::Notification(p), t1),
        Route::Response => {
            let (got, t2) = resolve_result(t1, waiting);
            match got {
                Some(p) => (Pump::Done(p), t2),
                None => (Pump::Pending, t2),
            }
        },
    }
}

impl Client {
    /// Files one inbound frame, then checks whether the call waiting on
    /// `waiting` has its response.
    pub fn pump(&mut self, waiting: u32, id: u32, payload: Vec<u8>) -> (r: Pump)
        requires
            old(self).wf(),
        ensures
            final(self).wf(),
            final(self).cursor() == old(self).cursor(),
            (r, final(self).table()) == pump_result(old(self).table(), waiting, id, payload),
    {
        match self.route_frame(id, payload) {
            Route::Notification(p) => Pump::Notification(p),
            Route::Response => match self.try_resolve(waiting) {
                Some(p) => Pump::Done(p),
                None => Pump::Pending,
            },
        }
    }
}

/// In a well-formed session the cursor and every pending id lie in the range
/// of outbound ids.
pub proof fn lemma_ids_in_range(c: &Client)
    requires
        c.wf(),
    ensures
        in_range(c.cursor()),
        forall|id: u32| #[trigger] c.table().contains_key(id) ==> in_range(id),
{
}

/// The id handed out by the `n`-th call of the allocator from cursor `h`.
pub open spec fn nth_handle(h: u32, n: nat) -> u32
    decreases n,
{
    if n == 0 {
        h
    } else {
        next_handle(nth_handle(h, (n - 1) as nat))
    }
}

/// One step of the allocator stays in the range: one more than the last id,
/// or the start of the range again once the end is reached.
pub proof fn lemma_handle_step(h: u32)
    requires
        in_range(h),
    ensures
        in_range(next_handle(h)),
        h as int + 1 < HANDLE_END as int ==> next_handle(h) == h + 1,
        h as int + 1 >= HANDLE_END as int ==> next_handle(h) == HANDLE_START,
{
}

/// Every id the allocator hands out lies in the range; while the end of the
/// range is not reached, the `n`-th id is the cursor plus `n`, so the ids
/// strictly increase and none repeats before the wrap.
pub proof fn lemma_handles_increase(h: u32, n: nat)
    requires
        in_range(h),
    ensures
        in_range(nth_handle(h, n)),
        h as int + n < HANDLE_END as int ==> nth_handle(h, n) == h + n,
        h as int + n == HANDLE_END as int ==> nth_handle(h, n) == HANDLE_START,
    decreases n,
{
    if n > 0 {
        lemma_handles_increase(h, (n - 1) as nat);
        lemma_handle_step(nth_handle(h, (n - 1) as nat));
    }
}

/// Delivering twice to one id: the second delivery is refused and changes
/// nothing, so the payload that the first stored stays.
pub proof fn lemma_deliver_at_most_once(t: Table, id: u32, first: Vec<u8>, second: Vec<u8>)
    ensures
        ({
            let (a, t1) = deliver_result(t, id, first);
            let (b, t2) = deliver_result(t1, id, second);
            &&& !b
            &&& t2 == t1
            &&& a ==> t1[id] == Some(first)
        }),
{
}

/// With two calls waiting, the response of one resolves that call only: the
/// other still finds nothing to take.
pub proof fn lemma_correlation(t: Table, a: u32, b: u32, payload: Vec<u8>)
    requires
        a != b,
        t.contains_key(a) && t[a] is None,
        t.contains_key(b) && t[b] is None,
    ensures
        ({
            let (route, t1) = route_result(t, b, payload);
            &&& route is Response
            &&& resolve_result(t1, a).0 is None
            &&& resolve_result(t1, a).1 == t1
            &&& resolve_result(t1, b).0 == Some(payload)
        }),
{
}

/// While two calls wait, the response of the second does not finish the
/// first: the first pumps on, and the second's payload stays filed for it.
pub proof fn lemma_pump_correlation(t: Table, a: u32, b: u32, payload: Vec<u8>)
    requires
        a != b,
        t.contains_key(a) && t[a] is None,
        t.contains_key(b) && t[b] is None,
    ensures
        ({
            let (r, t1) = pump_result(t, a, b, payload);
            &&& r is Pending
            &&& t1 == t.insert(b, Some(payload))
            &&& resolve_result(t1, b).0 == Some(payload)
        }),
{
}

/// A frame whose id has no entry in the table, or whose call already has its
/// response, goes on as a notification with its payload, and the table stays
/// as it was.
pub proof fn lemma_notification_fallthrough(t: Table, id: u32, payload: Vec<u8>)
    requires
        !t.contains_key(id) || t[id] is Some,
    ensures
        route_result(t, id, payload) == (Route::Notification(payload), t),
{
}

/// One change to the pending-call table, as a session makes them.
pub enum TableStep {
    /// A call registers its id.
    Register(u32),
    /// A frame is routed.
    Frame(u32, Vec<u8>),
    /// A call takes its response out.
    Resolve(u32),
}

/// Whether a step names `id`.
pub open spec fn step_names(s: TableStep, id: u32) -> bool {
    match s {
        TableStep::Register(x) => x == id,
        TableStep::Frame(x, _) => x == id,
        TableStep::Resolve(x) => x == id,
    }
}

/// The table after one step.
pub open spec fn step_table(t: Table, s: TableStep) -> Table {
    match s {
        TableStep::Register(x) => if !in_range(x) || t.contains_key(x) {
            t
        } else {
            t.insert(x, None)
        },
        TableStep::Frame(x, p) => route_result(t, x, p).1,
        TableStep::Resolve(x) => resolve_result(t, x).1,
    }
}

/// The table after a run of steps, taken in order.
pub open spec fn run_steps(t: Table, steps: Seq<TableStep>) -> Table
    decreases steps.len(),
{
    if steps.len() == 0 {
        t
    } else {
        run_steps(step_table(t, steps[0]), steps.drop_first())
    }
}

/// Running two runs of steps one after the other is running them joined.
pub proof fn lemma_run_steps_append(t: Table, a: Seq<TableStep>, b: Seq<TableStep>)
    ensures
        run_steps(t, a + b) == run_steps(run_steps(t, a), b),
    decreases a.len(),
{
    if a.len() > 0 {
        assert((a + b).drop_first() =~= a.drop_first() + b);
        lemma_run_steps_append(step_table(t, a[0]), a.drop_first(), b);
    }
}

/// Steps that never name `id` leave its entry as it was.
pub proof fn lemma_run_steps_keeps(t: Table, steps: Seq<TableStep>, id: u32)
    requires
        forall|i: int| 0 <= i < steps.len() ==> !step_names(#[trigger] steps[i], id),
    ensures
        run_steps(t, steps).contains_key(id) == t.contains_key(id),
        t.contains_key(id) ==> run_steps(t, steps)[id] == t[id],
    decreases steps.len(),
{
    if steps.len() > 0 {
        assert(!step_names(steps[0], id));
        assert forall|i: int| 0 <= i < steps.drop_first().len() implies !step_names(
            #[trigger] steps.drop_first()[i],
            id,
        ) by {
            assert(steps.drop_first()[i] == steps[i + 1]);
        }
        lemma_run_steps_keeps(step_table(t, steps[0]), steps.drop_first(), id);
    }
}

/// Nested calls do not disturb the call that waits around them: whatever
/// calls a notification's handler makes, with their own ids, the outer call's
/// response is still taken by the outer call, whether it arrives during the
/// nested calls or after them, and it is then gone from the table.
pub proof fn lemma_nested_calls(
    t: Table,
    outer: u32,
    before: Seq<TableStep>,
    after: Seq<TableStep>,
    payload: Vec<u8>,
)
    requires
        t.contains_key(outer) && t[outer] is None,
        forall|i: int| 0 <= i < before.len() ==> !step_names(#[trigger] before[i], outer),
        forall|i: int| 0 <= i < after.len() ==> !step_names(#[trigger] after[i], outer),
    ensures
        ({
            let t1 = run_steps(t, before + seq![TableStep::Frame(outer, payload)] + after);
            &&& resolve_result(t1, outer).0 == Some(payload)
            &&& !resolve_result(t1, outer).1.contains_key(outer)
        }),
{
    let mid = seq![TableStep::Frame(outer, payload)];
    lemma_run_steps_append(t, before + mid, after);
    lemma_run_steps_append(t, before, mid);
    lemma_run_steps_keeps(t, before, outer);
    let t0 = run_steps(t, before);
    assert(mid.len() == 1 && mid[0] == TableStep::Frame(outer, payload));
    assert(mid.drop_first() =~= Seq::<TableStep>::empty());
    let x = step_table(t0, TableStep::Frame(outer, payload));
    assert(run_steps(x, Seq::<TableStep>::empty()) == x);
    assert(run_steps(t0, mid) == x);
    let t2 = run_steps(t0, mid);
    assert(t2.contains_key(outer) && t2[outer] == Some(payload));
    lemma_run_steps_keeps(t2, after, outer);
}

} // verus!
