use vstd::prelude::*;
use vstd::slice::slice_to_vec;

verus! {

/// One thing a transport did, as contracts speak of it.
pub enum BusOp {
    /// Pulse the hardware reset line.
    Reset,
    /// Wait for the controller's BUSY line to fall.
    WaitBusy,
    /// One command byte (DC low).
    Command(u8),
    /// A run of data bytes (DC high).
    Data(Seq<u8>),
    /// A fixed wait of this many milliseconds.
    Delay(u32),
    /// A call that failed.
    Failed,
}

/// Hardware abstraction for the display SPI/GPIO interface.
///
/// Implementors drive the physical reset, busy, DC, and SPI signals for the
/// connected e-paper controller. `bus_log` is everything the transport has
/// done, oldest first, and `failures` how many calls have failed: a call that
/// succeeds appends exactly its own operation (a wait appends its delay), and
/// a call that fails appends `Failed` and counts one failure.
pub trait DisplayTransport {
    type Error;

    /// Everything this transport has put on the bus, oldest first.
    spec fn bus_log(&self) -> Seq<BusOp>;

    /// How many calls on this transport have failed.
    spec fn failures(&self) -> nat;

    /// Assert the hardware reset line and release it.
    fn reset(&mut self) -> (r: Result<(), Self::Error>)
        ensures
            r is Ok ==> final(self).bus_log() == old(self).bus_log().push(BusOp::Reset)
                && final(self).failures() == old(self).failures(),
            r is Err ==> final(self).bus_log() == old(self).bus_log().push(BusOp::Failed)
                && final(self).failures() == old(self).failures() + 1,
    ;

    /// Block until the controller's BUSY signal deasserts.
    fn wait_while_busy(&mut self) -> (r: Result<(), Self::Error>)
        ensures
            r is Ok ==> final(self).bus_log() == old(self).bus_log().push(BusOp::WaitBusy)
                && final(self).failures() == old(self).failures(),
            r is Err ==> final(self).bus_log() == old(self).bus_log().push(BusOp::Failed)
                && final(self).failures() == old(self).failures() + 1,
    ;

    /// Assert DC low (command mode) and transfer one command byte over SPI.
    fn write_command(&mut self, command: u8) -> (r: Result<(), Self::Error>)
        ensures
            r is Ok ==> final(self).bus_log() == old(self).bus_log().push(BusOp::Command(command))
                && final(self).failures() == old(self).failures(),
            r is Err ==> final(self).bus_log() == old(self).bus_log().push(BusOp::Failed)
                && final(self).failures() == old(self).failures() + 1,
    ;

    /// Assert DC high (data mode) and transfer `data` bytes over SPI.
    fn write_data(&mut self, data: &[u8]) -> (r: Result<(), Self::Error>)
        ensures
            r is Ok ==> final(self).bus_log() == old(self).bus_log().push(BusOp::Data(data@))
                && final(self).failures() == old(self).failures(),
            r is Err ==> final(self).bus_log() == old(self).bus_log().push(BusOp::Failed)
                && final(self).failures() == old(self).failures() + 1,
    ;

    /// Busy-wait for at least `ms` milliseconds; puts nothing on the bus, and
    /// records the wait.
    fn delay_ms(&mut self, ms: u32)
        ensures
            final(self).bus_log() == old(self).bus_log().push(BusOp::Delay(ms)),
            final(self).failures() == old(self).failures(),
    ;
}

/// What a run of calls meant to perform `ops` did to the transport, from
/// `before` to `after`. When it succeeded (`ok`), all of `ops` followed the
/// earlier log and no call failed. When it failed, exactly one call failed:
/// the log holds the operations before the failing one, then `Failed`, and
/// nothing after it.
pub open spec fn issued<T: DisplayTransport>(before: T, after: T, ops: Seq<BusOp>, ok: bool) -> bool {
    if ok {
        &&& after.bus_log() =~= before.bus_log() + ops
        &&& after.failures() == before.failures()
    } else {
        &&& after.failures() == before.failures() + 1
        &&& exists|k: int|
            0 <= k < ops.len() && #[trigger] failed_at(before.bus_log(), ops, k) =~= after.bus_log()
    }
}

/// The log after `ops[k]` failed, the operations before it having succeeded.
pub open spec fn failed_at(log: Seq<BusOp>, ops: Seq<BusOp>, k: int) -> Seq<BusOp> {
    log + ops.take(k) + seq![BusOp::Failed]
}

/// A single call issues its one operation.
pub proof fn lemma_issued_one<T: DisplayTransport>(before: T, after: T, op: BusOp, ok: bool)
    requires
        ok ==> after.bus_log() == before.bus_log().push(op) && after.failures()
            == before.failures(),
        !ok ==> after.bus_log() == before.bus_log().push(BusOp::Failed) && after.failures()
            == before.failures() + 1,
    ensures
        issued(before, after, seq![op], ok),
{
    if !ok {
        assert(failed_at(before.bus_log(), seq![op], 0) =~= after.bus_log());
    }
}

/// Running `x` successfully and then `y` issues `x + y`, with `y`'s outcome.
pub proof fn lemma_issued_then<T: DisplayTransport>(
    a: T,
    b: T,
    c: T,
    x: Seq<BusOp>,
    y: Seq<BusOp>,
    ok: bool,
)
    requires
        issued(a, b, x, true),
        issued(b, c, y, ok),
    ensures
        issued(a, c, x + y, ok),
{
    if !ok {
        let k = choose|k: int|
            0 <= k < y.len() && #[trigger] failed_at(b.bus_log(), y, k) =~= c.bus_log();
        assert((x + y).take(x.len() + k) =~= x + y.take(k));
        assert(failed_at(a.bus_log(), x + y, x.len() + k) =~= c.bus_log());
    }
}

/// A failed run meant for `done` is also a failed run meant for any `total`
/// that `done` begins.
pub proof fn lemma_issued_widen<T: DisplayTransport>(a: T, b: T, done: Seq<BusOp>, total: Seq<BusOp>)
    requires
        issued(a, b, done, false),
        done.is_prefix_of(total),
    ensures
        issued(a, b, total, false),
{
    let k = choose|k: int|
        0 <= k < done.len() && #[trigger] failed_at(a.bus_log(), done, k) =~= b.bus_log();
    assert(total.take(k) =~= done.take(k)) by {
        assert forall|i: int| 0 <= i < k implies #[trigger] total.take(k)[i] == done.take(k)[i] by {
            assert(done[i] == total.subrange(0, done.len() as int)[i]);
        }
    }
    assert(failed_at(a.bus_log(), total, k) =~= b.bus_log());
}

/// A sequence begins any sequence that extends it.
pub proof fn lemma_prefix_append(a: Seq<BusOp>, g: Seq<BusOp>)
    ensures
        a.is_prefix_of(a + g),
{
    assert(a =~= (a + g).subrange(0, a.len() as int));
}

/// Beginning is transitive.
pub proof fn lemma_prefix_trans(a: Seq<BusOp>, b: Seq<BusOp>, c: Seq<BusOp>)
    requires
        a.is_prefix_of(b),
        b.is_prefix_of(c),
    ensures
        a.is_prefix_of(c),
{
    assert forall|i: int| 0 <= i < a.len() implies #[trigger] c.subrange(0, a.len() as int)[i]
        == a[i] by {
        assert(a[i] == b.subrange(0, a.len() as int)[i]);
        assert(b[i] == c.subrange(0, b.len() as int)[i]);
    }
    assert(a =~= c.subrange(0, a.len() as int));
}

/// A common head keeps one sequence beginning another.
pub proof fn lemma_prefix_after(p: Seq<BusOp>, b: Seq<BusOp>, c: Seq<BusOp>)
    requires
        b.is_prefix_of(c),
    ensures
        (p + b).is_prefix_of(p + c),
{
    assert forall|i: int| 0 <= i < (p + b).len() implies #[trigger] (p + c).subrange(
        0,
        (p + b).len() as int,
    )[i] == (p + b)[i] by {
        if i >= p.len() {
            assert(b[i - p.len()] == c.subrange(0, b.len() as int)[i - p.len()]);
        }
    }
    assert((p + b) =~= (p + c).subrange(0, (p + b).len() as int));
}

/// One recorded bus operation.
#[derive(Clone, Debug, PartialEq, Eq)]
pub enum TransportEvent {
    Reset,
    WaitBusy,
    Command(u8),
    Data(Vec<u8>),
    Delay(u32),
}

impl TransportEvent {
    pub open spec fn bus_op(&self) -> BusOp {
        match self {
            TransportEvent::Reset => BusOp::Reset,
            TransportEvent::WaitBusy => BusOp::WaitBusy,
            TransportEvent::Command(c) => BusOp::Command(*c),
            TransportEvent::Data(d) => BusOp::Data(d@),
            TransportEvent::Delay(ms) => BusOp::Delay(*ms),
        }
    }
}

/// A host-side transport that records every bus operation and never fails.
pub struct RecordingTransport {
    events: Vec<TransportEvent>,
}

impl RecordingTransport {
    /// A transport with an empty record.
    pub fn new() -> (t: Self)
        ensures
            t.bus_log() == Seq::<BusOp>::empty(),
    {
        RecordingTransport { events: Vec::new() }
    }

    /// The operations recorded so far, oldest first.
    pub fn events(&self) -> (r: &Vec<TransportEvent>)
        ensures
            r@.len() == self.bus_log().len(),
            forall|i: int| 0 <= i < r@.len() ==> #[trigger] r@[i].bus_op() == self.bus_log()[i],
    {
        &self.events
    }

    fn record(&mut self, e: TransportEvent)
        ensures
            final(self).bus_log() == old(self).bus_log().push(e.bus_op()),
    {
        self.events.push(e);
        assert(self.bus_log() =~= old(self).bus_log().push(e.bus_op()));
    }
}

impl DisplayTransport for RecordingTransport {
    type Error = ();

    closed spec fn bus_log(&self) -> Seq<BusOp> {
        self.events@.map_values(|e: TransportEvent| e.bus_op())
    }

    /// A recording transport never fails.
    open spec fn failures(&self) -> nat {
        0
    }

    fn reset(&mut self) -> (r: Result<(), ()>)
        ensures
            r is Ok,
    {
        self.record(TransportEvent::Reset);
        Ok(())
    }

    fn wait_while_busy(&mut self) -> (r: Result<(), ()>)
        ensures
            r is Ok,
    {
        self.record(TransportEvent::WaitBusy);
        Ok(())
    }

    fn write_command(&mut self, command: u8) -> (r: Result<(), ()>)
        ensures
            r is Ok,
    {
        self.record(TransportEvent::Command(command));
        Ok(())
    }

    fn delay_ms(&mut self, ms: u32) {
        self.record(TransportEvent::Delay(ms));
    }

    fn write_data(&mut self, data: &[u8]) -> (r: Result<(), ()>)
        ensures
            r is Ok,
    {
        let copy = slice_to_vec(data);
        self.record(TransportEvent::Data(copy));
        Ok(())
    }
}

} // verus!
