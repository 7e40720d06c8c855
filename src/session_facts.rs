//! What holds of every run of a print session.

use vstd::prelude::*;
use crate::console::{ErrorCode, KernelEvent, PrintPhase, PrintSession, Step};

verus! {

/// The session after the events `evs`, in order.
pub open spec fn run(s: PrintSession, evs: Seq<KernelEvent>) -> PrintSession
    decreases evs.len(),
{
    if evs.len() == 0 {
        s
    } else {
        run(s.next_spec(evs[0]), evs.drop_first())
    }
}

/// A finished session stays finished whatever comes after.
pub proof fn lemma_finished_stays(s: PrintSession, evs: Seq<KernelEvent>)
    requires
        s.phase is Finished,
    ensures
        run(s, evs) == s,
    decreases evs.len(),
{
    if evs.len() > 0 {
        lemma_finished_stays(s.next_spec(evs[0]), evs.drop_first());
    }
}

/// Grants never outlive a session: every run keeps the bookkeeping of
/// outstanding grants exact, and a finished session holds none.
pub proof fn lemma_no_grant_outlives_session(s: PrintSession, evs: Seq<KernelEvent>)
    requires
        s.wf(),
    ensures
        run(s, evs).wf(),
        run(s, evs).phase is Finished ==> !run(s, evs).shared && !run(s, evs).subscribed,
    decreases evs.len(),
{
    if evs.len() > 0 {
        lemma_no_grant_outlives_session(s.next_spec(evs[0]), evs.drop_first());
    }
}

/// An upcall counts only while the session waits for it; at any other time it
/// changes nothing.
pub proof fn lemma_upcall_only_while_waiting(s: PrintSession, a0: u32, a1: u32, a2: u32)
    requires
        !(s.phase is Waiting),
    ensures
        s.next_spec(KernelEvent::Upcall(a0, a1, a2)) == s,
{
}

/// When the driver probe fails, the session reports that error and asks for
/// no further syscall, whatever the kernel does afterwards.
pub proof fn lemma_probe_failure_ends(len: u32, e: ErrorCode, later: Seq<KernelEvent>)
    requires
        len > 0,
    ensures
        run(PrintSession::start_spec(len), seq![KernelEvent::Returned(Err(e))] + later).pending_spec()
            == Step::Done(Err::<u32, ErrorCode>(e)),
{
    let s = PrintSession::start_spec(len);
    let evs = seq![KernelEvent::Returned(Err(e))] + later;
    let f = s.next_spec(KernelEvent::Returned(Err(e)));
    assert(f.phase == PrintPhase::Finished(Err(e)));
    assert(evs.drop_first() =~= later);
    lemma_finished_stays(f, later);
}

/// A write that the kernel accepts at each step reports exactly the first
/// argument of the one upcall that ends the wait, after revoking the upcall
/// and the buffer.
pub proof fn lemma_write_reports_upcall(len: u32, a0: u32, a1: u32, a2: u32)
    requires
        len > 0,
    ensures
        ({
            let ok = KernelEvent::Returned(Ok(()));
            let s = run(PrintSession::start_spec(len), seq![ok, ok, ok, ok, KernelEvent::Upcall(a0, a1, a2), ok, ok]);
            &&& s.pending_spec() == Step::Done(Ok::<u32, ErrorCode>(a0))
            &&& !s.shared && !s.subscribed
        }),
{
    let ok = KernelEvent::Returned(Ok(()));
    let evs = seq![ok, ok, ok, ok, KernelEvent::Upcall(a0, a1, a2), ok, ok];
    reveal_with_fuel(run, 8);
    assert(evs.drop_first() =~= seq![ok, ok, ok, KernelEvent::Upcall(a0, a1, a2), ok, ok]);
    assert(evs.drop_first().drop_first() =~= seq![ok, ok, KernelEvent::Upcall(a0, a1, a2), ok, ok]);
    assert(evs.drop_first().drop_first().drop_first() =~= seq![ok, KernelEvent::Upcall(a0, a1, a2), ok, ok]);
    assert(evs.drop_first().drop_first().drop_first().drop_first() =~= seq![KernelEvent::Upcall(a0, a1, a2), ok, ok]);
    assert(evs.drop_first().drop_first().drop_first().drop_first().drop_first() =~= seq![ok, ok]);
    assert(evs.drop_first().drop_first().drop_first().drop_first().drop_first().drop_first() =~= seq![ok]);
    assert(evs.drop_first().drop_first().drop_first().drop_first().drop_first().drop_first().drop_first() =~= Seq::<KernelEvent>::empty());
}

} // verus!
