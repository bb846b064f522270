//! Per-command watchdog for the CDP server.
//!
//! The dispatcher runs at most one command's script at a time. Before a
//! command it arms the watchdog with the engine's interrupt handle and a
//! deadline; a single long-lived watchdog thread waits for that deadline and,
//! if the command is still running when it passes, sets the interrupt flag.
//!
//! This module holds the decisions: the board behind the watchdog's lock
//! (`arm`, `disarm`) and one step of the watchdog thread (`watchdog_step`),
//! which names the interrupt handle to set when a deadline has come. Times
//! are nanoseconds on the caller's monotonic clock; the thread, the lock,
//! the condition variable and the setting of the interrupt flag live with
//! the caller.

use vstd::prelude::*;
use crate::interrupt::InterruptHandle;

verus! {

/// The command currently bounded by the watchdog.
pub struct Slot {
    pub deadline: u64,
    pub handle: InterruptHandle,
    pub gen: u64,
}

/// What the watchdog's lock protects: the armed slot, if any, the number
/// of times the watchdog was armed, and the generations for which the
/// watchdog fired and that were not disarmed yet.
pub struct WatchdogBoard {
    pub slot: Option<Slot>,
    pub gen: u64,
    pub fired: Vec<u64>,
}

/// The board as plain values: (deadline, generation) of the armed slot,
/// the generation counter, and the fired generations not yet disarmed.
pub struct BoardView {
    pub slot: Option<(u64, u64)>,
    pub gen: u64,
    pub fired: Seq<u64>,
}

/// The receipt `arm` hands back; `disarm` takes it.
pub struct Armed {
    gen: u64,
}

impl Armed {
    /// The generation this receipt was armed with.
    pub closed spec fn generation(&self) -> u64 {
        self.gen
    }
}

/// How long the watchdog thread waits before its next step.
#[derive(Debug, PartialEq, Eq, Structural)]
pub enum WatchdogWait {
    /// Until it is woken.
    Indefinitely,
    /// At most this many nanoseconds.
    For(u64),
}

/// What one step of the watchdog thread asks of its caller: the interrupt
/// handle to set now, if a deadline has come, and how long to wait next.
pub struct WatchdogStep {
    pub interrupt: Option<InterruptHandle>,
    pub wait: WatchdogWait,
}

impl BoardView {
    /// Every generation on the board was handed out: the slot's and the
    /// fired ones are at most the counter, and the slot's is not among the
    /// fired ones.
    pub open spec fn wf(self) -> bool {
        &&& (self.slot matches Some((_, g)) ==> g <= self.gen && !self.fired.contains(g))
        &&& forall|i: int| 0 <= i < self.fired.len() ==> #[trigger] self.fired[i] <= self.gen
    }
}

impl WatchdogBoard {
    /// The board as plain values.
    pub open spec fn view_board(&self) -> BoardView {
        BoardView {
            slot: match self.slot {
                Some(s) => Some((s.deadline, s.gen)),
                None => None,
            },
            gen: self.gen,
            fired: self.fired@,
        }
    }

    /// The interrupt handle of the armed command, if any.
    pub open spec fn armed_handle(&self) -> Option<InterruptHandle> {
        match self.slot {
            Some(s) => Some(s.handle),
            None => None,
        }
    }

    /// A board that was never armed.
    pub fn new() -> (b: WatchdogBoard)
        ensures
            b.view_board() == (BoardView { slot: None, gen: 0, fired: Seq::empty() }),
            b.view_board().wf(),
    {
        WatchdogBoard { slot: None, gen: 0, fired: Vec::new() }
    }
}

/// `s` without any occurrence of `g`, the others in their order.
pub open spec fn without(s: Seq<u64>, g: u64) -> Seq<u64>
    decreases s.len(),
{
    if s.len() == 0 {
        s
    } else if s.last() == g {
        without(s.drop_last(), g)
    } else {
        without(s.drop_last(), g).push(s.last())
    }
}

proof fn lemma_contains_last(s: Seq<u64>, x: u64)
    requires
        s.len() > 0,
    ensures
        s.contains(x) <==> (s.drop_last().contains(x) || x == s.last()),
{
    if s.contains(x) {
        let i = choose|i: int| 0 <= i < s.len() && s[i] == x;
        if i < s.len() - 1 {
            assert(s.drop_last()[i] == x);
        }
    }
    if s.drop_last().contains(x) {
        let i = choose|i: int| 0 <= i < s.drop_last().len() && s.drop_last()[i] == x;
        assert(s[i] == x);
    }
    if x == s.last() {
        assert(s[s.len() - 1] == x);
    }
}

proof fn lemma_without(s: Seq<u64>, g: u64)
    ensures
        !without(s, g).contains(g),
        forall|x: u64| x != g ==> (without(s, g).contains(x) <==> s.contains(x)),
    decreases s.len(),
{
    if s.len() > 0 {
        lemma_without(s.drop_last(), g);
        let r = without(s.drop_last(), g);
        if s.last() != g {
            assert(without(s, g).drop_last() =~= r);
            lemma_contains_last(without(s, g), g);
        }
        assert forall|x: u64| x != g implies (without(s, g).contains(x) <==> s.contains(x)) by {
            lemma_contains_last(s, x);
            if s.last() != g {
                assert(without(s, g).drop_last() =~= r);
                lemma_contains_last(without(s, g), x);
            }
        }
    }
}

/// Everything left after taking `g` out was there before.
proof fn lemma_without_within(s: Seq<u64>, g: u64, bound: u64)
    requires
        forall|i: int| 0 <= i < s.len() ==> #[trigger] s[i] <= bound,
    ensures
        forall|i: int| 0 <= i < without(s, g).len() ==> #[trigger] without(s, g)[i] <= bound,
{
    lemma_without(s, g);
    assert forall|i: int| 0 <= i < without(s, g).len() implies #[trigger] without(s, g)[i] <= bound by {
        let x = without(s, g)[i];
        assert(without(s, g).contains(x));
        assert(x != g);
        assert(s.contains(x));
        let j = choose|j: int| 0 <= j < s.len() && s[j] == x;
        assert(s[j] <= bound);
    }
}

/// The board after arming at `now` with `budget`: the counter advances and
/// the slot holds the new generation with deadline `now + budget`.
pub open spec fn armed_board(before: BoardView, now: u64, budget: u64) -> BoardView {
    BoardView {
        slot: Some(((now + budget) as u64, (before.gen + 1) as u64)),
        gen: (before.gen + 1) as u64,
        fired: before.fired,
    }
}

/// Whether the watchdog fired for generation `gen` and that was not yet
/// reported: what `disarm` returns.
pub open spec fn fired_for(b: BoardView, gen: u64) -> bool {
    b.fired.contains(gen)
}

/// The board after disarming generation `gen`: the slot is cleared when it
/// holds that generation, and its fired mark, if any, is taken away.
pub open spec fn disarmed_board(before: BoardView, gen: u64) -> BoardView {
    BoardView {
        slot: match before.slot {
            Some((_, g)) if g == gen => None,
            _ => before.slot,
        },
        gen: before.gen,
        fired: without(before.fired, gen),
    }
}

/// The board after one watchdog step at `now`: a slot whose deadline has
/// come is cleared and its generation marked fired; otherwise nothing
/// changes.
pub open spec fn stepped_board(before: BoardView, now: u64) -> BoardView {
    match before.slot {
        Some((d, g)) if d <= now => BoardView { slot: None, gen: before.gen, fired: before.fired.push(g) },
        _ => before,
    }
}

/// Whether a step at `now` interrupts the armed command.
pub open spec fn step_fires(before: BoardView, now: u64) -> bool {
    before.slot matches Some((d, _)) && d <= now
}

/// How long the watchdog waits after a step at `now` that left `after`.
pub open spec fn step_wait(after: BoardView, now: u64) -> WatchdogWait {
    match after.slot {
        Some((d, _)) => WatchdogWait::For((d - now) as u64),
        None => WatchdogWait::Indefinitely,
    }
}

/// Arms the watchdog for the next command: the budget runs from `now`, and
/// the slot replaces whatever command was armed before.
pub fn arm(board: &mut WatchdogBoard, handle: InterruptHandle, now: u64, budget: u64) -> (armed: Armed)
    requires
        old(board).gen < u64::MAX,
        now + budget <= u64::MAX,
    ensures
        final(board).view_board() == armed_board(old(board).view_board(), now, budget),
        final(board).armed_handle() == Some(handle),
        armed.generation() == final(board).gen,
        old(board).view_board().wf() ==> final(board).view_board().wf(),
{
    board.gen = board.gen + 1;
    let gen = board.gen;
    board.slot = Some(Slot { deadline: now + budget, handle, gen });
    Armed { gen }
}

/// Disarms the watchdog after a command. The slot is cleared only if it
/// still belongs to this receipt. Returns whether the watchdog fired for
/// this receipt, and takes that mark off the board.
pub fn disarm(board: &mut WatchdogBoard, armed: Armed) -> (fired: bool)
    ensures
        fired == fired_for(old(board).view_board(), armed.generation()),
        final(board).view_board() == disarmed_board(old(board).view_board(), armed.generation()),
        final(board).view_board().slot is Some ==> final(board).armed_handle() == old(board).armed_handle(),
        old(board).view_board().wf() ==> final(board).view_board().wf(),
{
    let same = match &board.slot {
        Some(sl) => sl.gen == armed.gen,
        None => false,
    };
    if same {
        board.slot = None;
    }
    let ghost before = board.fired@;
    let mut kept: Vec<u64> = Vec::new();
    let mut fired = false;
    let mut i: usize = 0;
    while i < board.fired.len()
        invariant
            i <= board.fired.len(),
            board.fired@ == before,
            kept@ == without(before.take(i as int), armed.gen),
            fired == before.take(i as int).contains(armed.gen),
        decreases board.fired.len() - i,
    {
        let g = board.fired[i];
        proof {
            assert(before.take(i as int + 1).drop_last() =~= before.take(i as int));
            assert(before.take(i as int + 1).last() == g);
            if before.take(i as int).contains(armed.gen) {
                let j = choose|j: int| 0 <= j < i && #[trigger] before.take(i as int)[j] == armed.gen;
                assert(before.take(i as int + 1)[j] == armed.gen);
            }
            if before.take(i as int + 1).contains(armed.gen) && g != armed.gen {
                let j = choose|j: int| 0 <= j <= i && #[trigger] before.take(i as int + 1)[j] == armed.gen;
                assert(before.take(i as int)[j] == armed.gen);
            }
            assert(g == armed.gen ==> before.take(i as int + 1)[i as int] == armed.gen);
        }
        if g == armed.gen {
            fired = true;
        } else {
            kept.push(g);
        }
        i = i + 1;
    }
    proof {
        assert(before.take(before.len() as int) =~= before);
        lemma_without(before, armed.gen);
        let v = old(board).view_board();
        if v.wf() {
            lemma_without_within(before, armed.gen, v.gen);
        }
    }
    board.fired = kept;
    fired
}

/// One step of the watchdog thread at time `now`. If the armed command's
/// deadline has come, its generation is marked fired, the slot is cleared
/// and its interrupt handle is handed back for the caller to set. Also
/// says how long to wait before the next step: until woken when nothing is
/// armed, else until the deadline.
pub fn watchdog_step(board: &mut WatchdogBoard, now: u64) -> (step: WatchdogStep)
    ensures
        final(board).view_board() == stepped_board(old(board).view_board(), now),
        step.interrupt == (if step_fires(old(board).view_board(), now) { old(board).armed_handle() } else { None }),
        final(board).view_board().slot is Some ==> final(board).armed_handle() == old(board).armed_handle(),
        step.wait == step_wait(final(board).view_board(), now),
        old(board).view_board().wf() ==> final(board).view_board().wf(),
{
    let due = match &board.slot {
        Some(slot) => slot.deadline <= now,
        None => false,
    };
    if due {
        let taken = board.slot.take();
        match taken {
            Some(slot) => {
                let ghost before = board.fired@;
                board.fired.push(slot.gen);
                proof {
                    assert forall|x: u64| before.push(slot.gen).contains(x) implies (before.contains(x) || x == slot.gen) by {
                        let i = choose|i: int| 0 <= i < before.push(slot.gen).len() && before.push(slot.gen)[i] == x;
                        if i < before.len() {
                            assert(before[i] == x);
                        }
                    }
                }
                WatchdogStep { interrupt: Some(slot.handle), wait: WatchdogWait::Indefinitely }
            },
            None => WatchdogStep { interrupt: None, wait: WatchdogWait::Indefinitely },
        }
    } else {
        match &board.slot {
            Some(slot) => WatchdogStep { interrupt: None, wait: WatchdogWait::For(slot.deadline - now) },
            None => WatchdogStep { interrupt: None, wait: WatchdogWait::Indefinitely },
        }
    }
}

/// A command that runs past its deadline is reported: after arming, a step
/// at or after the deadline, then disarming with the receipt, `disarm`
/// says the watchdog fired, and the step handed back the command's handle.
pub proof fn law_overrun_is_reported(b: BoardView, now: u64, budget: u64, t: u64)
    requires
        b.wf(),
        b.gen < u64::MAX,
        now + budget <= u64::MAX,
        now + budget <= t,
    ensures
        step_fires(armed_board(b, now, budget), t),
        fired_for(stepped_board(armed_board(b, now, budget), t), armed_board(b, now, budget).gen),
        disarmed_board(stepped_board(armed_board(b, now, budget), t), armed_board(b, now, budget).gen).slot is None,
        !fired_for(disarmed_board(stepped_board(armed_board(b, now, budget), t), armed_board(b, now, budget).gen),
            armed_board(b, now, budget).gen),
{
    let a = armed_board(b, now, budget);
    let s = stepped_board(a, t);
    assert(s.fired[s.fired.len() - 1] == a.gen);
    lemma_without(s.fired, a.gen);
}

/// A command disarmed before its deadline is not reported, and the watchdog
/// never fires for it afterwards: after arming, a step before the deadline
/// fires nothing, `disarm` says the watchdog did not fire, and no later step
/// fires while nothing is armed again.
pub proof fn law_in_time_is_not_reported(b: BoardView, now: u64, budget: u64, t: u64, later: u64)
    requires
        b.wf(),
        b.gen < u64::MAX,
        now + budget <= u64::MAX,
        t < now + budget,
    ensures
        !step_fires(armed_board(b, now, budget), t),
        !fired_for(stepped_board(armed_board(b, now, budget), t), armed_board(b, now, budget).gen),
        disarmed_board(stepped_board(armed_board(b, now, budget), t), armed_board(b, now, budget).gen).slot is None,
        !step_fires(disarmed_board(stepped_board(armed_board(b, now, budget), t), armed_board(b, now, budget).gen), later),
{
    let a = armed_board(b, now, budget);
    assert(!b.fired.contains(a.gen)) by {
        if b.fired.contains(a.gen) {
            let i = choose|i: int| 0 <= i < b.fired.len() && b.fired[i] == a.gen;
            assert(b.fired[i] <= b.gen);
        }
    }
}

/// Arming again cancels the earlier receipt: once a second command is
/// armed, no step fires for the first one, and disarming the first reports
/// nothing and leaves the second armed, due at its own deadline.
pub proof fn law_rearm_cancels_earlier(b: BoardView, n1: u64, d1: u64, n2: u64, d2: u64, t: u64)
    requires
        b.wf(),
        b.gen + 1 < u64::MAX,
        n1 + d1 <= u64::MAX,
        n2 + d2 <= u64::MAX,
    ensures
        ({
            let a1 = armed_board(b, n1, d1);
            let a2 = armed_board(a1, n2, d2);
            &&& !fired_for(stepped_board(a2, t), a1.gen)
            &&& disarmed_board(a2, a1.gen).slot == Some(((n2 + d2) as u64, a2.gen))
            &&& (n2 + d2 <= t ==> fired_for(stepped_board(disarmed_board(a2, a1.gen), t), a2.gen))
        }),
{
    let a1 = armed_board(b, n1, d1);
    let a2 = armed_board(a1, n2, d2);
    assert(!b.fired.contains(a1.gen)) by {
        if b.fired.contains(a1.gen) {
            let i = choose|i: int| 0 <= i < b.fired.len() && b.fired[i] == a1.gen;
            assert(b.fired[i] <= b.gen);
        }
    }
    let s = stepped_board(a2, t);
    if s.fired.contains(a1.gen) {
        let i = choose|i: int| 0 <= i < s.fired.len() && s.fired[i] == a1.gen;
        if i < b.fired.len() {
            assert(b.fired[i] == a1.gen);
        }
    }
    let d = disarmed_board(a2, a1.gen);
    if n2 + d2 <= t {
        let s2 = stepped_board(d, t);
        assert(s2.fired[s2.fired.len() - 1] == a2.gen);
    }
}

/// Arming then disarming with the receipt it gave leaves nothing armed,
/// whatever was armed before.
pub proof fn law_disarm_undoes_arm(b: BoardView, now: u64, budget: u64)
    requires
        b.gen < u64::MAX,
        now + budget <= u64::MAX,
    ensures
        disarmed_board(armed_board(b, now, budget), armed_board(b, now, budget).gen).slot is None,
{
}

/// A receipt of an earlier arming cannot disarm a later one: disarming a
/// generation other than the armed one changes nothing.
pub proof fn law_stale_disarm_keeps_slot(b: BoardView, gen: u64)
    requires
        b.slot is Some,
        b.slot.unwrap().1 != gen,
    ensures
        disarmed_board(b, gen).slot == b.slot,
{
}

/// Arming always gives a generation above every earlier one.
pub proof fn law_arm_generation_increases(b: BoardView, now: u64, budget: u64)
    requires
        b.gen < u64::MAX,
        now + budget <= u64::MAX,
    ensures
        armed_board(b, now, budget).gen > b.gen,
        armed_board(b, now, budget).slot.unwrap().1 == armed_board(b, now, budget).gen,
{
}

/// The watchdog never interrupts a command before its deadline: a step
/// before the deadline leaves the slot and waits exactly until it.
pub proof fn law_no_fire_before_deadline(b: BoardView, now: u64)
    requires
        b.slot is Some,
        now < b.slot.unwrap().0,
    ensures
        stepped_board(b, now) == b,
        step_wait(stepped_board(b, now), now) == WatchdogWait::For((b.slot.unwrap().0 - now) as u64),
{
}

/// Once the deadline has come, a step clears the slot, and the watchdog then
/// waits until it is woken.
pub proof fn law_fires_at_deadline(b: BoardView, now: u64)
    requires
        b.slot is Some,
        b.slot.unwrap().0 <= now,
    ensures
        stepped_board(b, now).slot is None,
        stepped_board(b, now).gen == b.gen,
        step_wait(stepped_board(b, now), now) == WatchdogWait::Indefinitely,
{
}

} // verus!
