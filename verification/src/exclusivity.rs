//! The exclusivity primitive: one guard, held either by any number of shared
//! claims or by a single exclusive claim.
//!
//! The policy is strict first-in, first-out. Claims stand in a line in the
//! order in which they were made, and the guard is held by the longest front
//! part of the line that can hold it together: the first claim alone where it
//! is exclusive, otherwise every shared claim up to the first exclusive one.
//! A claim therefore never overtakes one that was made before it.

use vstd::prelude::*;

verus! {

/// How a call may run beside others.
#[derive(Clone, Copy, Debug, PartialEq, Eq, Hash, Structural)]
pub enum AccessMode {
    /// May run while other shared calls run.
    Shared,
    /// Must run alone.
    Exclusive,
}

/// One claim on the guard.
#[derive(Clone, Copy, Debug, PartialEq, Eq, Hash, Structural)]
pub struct Claim {
    pub ticket: u64,
    pub mode: AccessMode,
}

/// The access mode of a call, from whether its tool is parallel-safe.
pub open spec fn mode_for(parallel_safe: bool) -> AccessMode {
    if parallel_safe {
        AccessMode::Shared
    } else {
        AccessMode::Exclusive
    }
}

/// How many claims at the front of the line are shared.
pub open spec fn leading_shared(line: Seq<Claim>) -> nat
    decreases line.len(),
{
    if line.len() > 0 && line[0].mode == AccessMode::Shared {
        1 + leading_shared(line.drop_first())
    } else {
        0
    }
}

/// How many claims at the front of the line hold the guard.
pub open spec fn held_count(line: Seq<Claim>) -> nat {
    if line.len() == 0 {
        0
    } else if line[0].mode == AccessMode::Exclusive {
        1
    } else {
        leading_shared(line)
    }
}

/// The claims that hold the guard.
pub open spec fn holders(line: Seq<Claim>) -> Seq<Claim> {
    line.take(held_count(line) as int)
}

/// The claims that wait for the guard, the next to be served first.
pub open spec fn waiting(line: Seq<Claim>) -> Seq<Claim> {
    line.skip(held_count(line) as int)
}

/// Whether a claim with this ticket stands in the line.
pub open spec fn in_line(line: Seq<Claim>, ticket: u64) -> bool {
    exists|i: int| 0 <= i < line.len() && (#[trigger] line[i]).ticket == ticket
}

/// Where the claim with this ticket stands in the line.
pub open spec fn position(line: Seq<Claim>, ticket: u64) -> int {
    choose|i: int| 0 <= i < line.len() && (#[trigger] line[i]).ticket == ticket
}

/// Whether the claim with this ticket holds the guard.
pub open spec fn holds(line: Seq<Claim>, ticket: u64) -> bool {
    in_line(line, ticket) && position(line, ticket) < held_count(line)
}

/// Whether the claim with this ticket waits for the guard.
pub open spec fn waits(line: Seq<Claim>, ticket: u64) -> bool {
    in_line(line, ticket) && position(line, ticket) >= held_count(line)
}

/// No ticket stands in the line twice.
pub open spec fn distinct(line: Seq<Claim>) -> bool {
    forall|i: int, j: int|
        0 <= i < j < line.len() ==> (#[trigger] line[i]).ticket != (#[trigger] line[j]).ticket
}

/// The line without the claim that has this ticket.
pub open spec fn without(line: Seq<Claim>, ticket: u64) -> Seq<Claim> {
    if in_line(line, ticket) {
        line.remove(position(line, ticket))
    } else {
        line
    }
}

/// How many of the holders still hold once the claim with this ticket is gone.
pub open spec fn kept_count(line: Seq<Claim>, ticket: u64) -> nat {
    if holds(line, ticket) {
        (held_count(line) - 1) as nat
    } else {
        held_count(line)
    }
}

/// The claims that come to hold the guard when the claim with this ticket
/// leaves the line, in the order of the line.
pub open spec fn admitted(line: Seq<Claim>, ticket: u64) -> Seq<Claim> {
    without(line, ticket).subrange(
        kept_count(line, ticket) as int,
        held_count(without(line, ticket)) as int,
    )
}

/// The tickets of the claims, in order.
pub open spec fn tickets_of(claims: Seq<Claim>) -> Seq<u64> {
    Seq::new(claims.len(), |i: int| claims[i].ticket)
}

/// The state of the primitive: the line, and how many tickets were issued.
pub ghost struct GateView {
    pub line: Seq<Claim>,
    pub issued: nat,
}

impl GateView {
    /// Every ticket in the line was issued, and none stands there twice.
    pub open spec fn wf(self) -> bool {
        &&& distinct(self.line)
        &&& forall|i: int| 0 <= i < self.line.len() ==> (#[trigger] self.line[i]).ticket < self.issued
    }

    /// The state after a claim in `mode` was made: it takes the next ticket
    /// and the last place in the line.
    pub open spec fn request(self, mode: AccessMode) -> GateView {
        GateView {
            line: self.line.push(Claim { ticket: self.issued as u64, mode }),
            issued: self.issued + 1,
        }
    }

    /// The state after the claim with this ticket left the line.
    pub open spec fn release(self, ticket: u64) -> GateView {
        GateView { line: without(self.line, ticket), issued: self.issued }
    }

    /// The state after every claim left the line.
    pub open spec fn clear(self) -> GateView {
        GateView { line: Seq::empty(), issued: self.issued }
    }
}

pub proof fn lemma_leading_shared_bound(line: Seq<Claim>)
    ensures
        leading_shared(line) <= line.len(),
        forall|k: int|
            0 <= k < leading_shared(line) ==> (#[trigger] line[k]).mode == AccessMode::Shared,
        leading_shared(line) < line.len() ==> line[leading_shared(line) as int].mode
            == AccessMode::Exclusive,
    decreases line.len(),
{
    if line.len() > 0 && line[0].mode == AccessMode::Shared {
        let rest = line.drop_first();
        lemma_leading_shared_bound(rest);
        assert forall|k: int| 0 <= k < leading_shared(line) implies (#[trigger] line[k]).mode
            == AccessMode::Shared by {
            if k > 0 {
                assert(line[k] == rest[k - 1]);
            }
        }
        if leading_shared(line) < line.len() {
            assert(line[leading_shared(line) as int] == rest[leading_shared(rest) as int]);
        }
    }
}

/// The count of leading shared claims is the first index that holds an exclusive one.
pub proof fn lemma_leading_shared_is(line: Seq<Claim>, n: int)
    requires
        0 <= n <= line.len(),
        forall|k: int| 0 <= k < n ==> (#[trigger] line[k]).mode == AccessMode::Shared,
        n < line.len() ==> line[n].mode == AccessMode::Exclusive,
    ensures
        leading_shared(line) == n,
{
    lemma_leading_shared_bound(line);
    let m = leading_shared(line) as int;
    if m < n {
        assert(line[m].mode == AccessMode::Shared);
    } else if m > n {
        assert(line[n].mode == AccessMode::Shared);
    }
}

/// The holders are a front part of the line, and the first claim always holds.
pub proof fn lemma_held_bound(line: Seq<Claim>)
    ensures
        held_count(line) <= line.len(),
        line.len() > 0 ==> held_count(line) >= 1,
{
    lemma_leading_shared_bound(line);
}

/// In a line without repeated tickets, a ticket stands where it is found.
pub proof fn lemma_position(line: Seq<Claim>, ticket: u64, i: int)
    requires
        distinct(line),
        0 <= i < line.len(),
        line[i].ticket == ticket,
    ensures
        in_line(line, ticket),
        position(line, ticket) == i,
{
    let p = position(line, ticket);
    if p < i {
        assert(line[p].ticket != line[i].ticket);
    } else if p > i {
        assert(line[i].ticket != line[p].ticket);
    }
}

/// Taking a claim out of the line leaves the tickets distinct and issued.
pub proof fn lemma_release_wf(gate: GateView, ticket: u64)
    requires
        gate.wf(),
    ensures
        gate.release(ticket).wf(),
{
    if in_line(gate.line, ticket) {
        let i = position(gate.line, ticket);
        let rest = gate.line.remove(i);
        assert forall|a: int, b: int| 0 <= a < b < rest.len() implies (#[trigger] rest[a]).ticket
            != (#[trigger] rest[b]).ticket by {
            let x = if a < i { a } else { a + 1 };
            let y = if b < i { b } else { b + 1 };
            assert(rest[a] == gate.line[x]);
            assert(rest[b] == gate.line[y]);
        }
        assert forall|a: int| 0 <= a < rest.len() implies (#[trigger] rest[a]).ticket
            < gate.issued by {
            let x = if a < i { a } else { a + 1 };
            assert(rest[a] == gate.line[x]);
        }
    }
}

/// A claim that holds the guard goes on holding it when another claim leaves
/// the line: the holders that stay are the front part of the new holders.
pub proof fn lemma_release_keeps_holders(line: Seq<Claim>, ticket: u64)
    requires
        distinct(line),
    ensures
        kept_count(line, ticket) <= held_count(without(line, ticket)) <= without(line, ticket).len(),
{
    lemma_held_bound(line);
    lemma_held_bound(without(line, ticket));
    lemma_leading_shared_bound(line);
    if in_line(line, ticket) {
        let i = position(line, ticket);
        let rest = line.remove(i);
        let h = held_count(line) as int;
        lemma_leading_shared_bound(rest);
        if line[0].mode == AccessMode::Exclusive {
            if i > 0 {
                assert(rest[0] == line[0]);
            }
        } else if i < h {
            if h - 1 > 0 {
                assert forall|k: int| 0 <= k < h - 1 implies (#[trigger] rest[k]).mode
                    == AccessMode::Shared by {
                    let x = if k < i { k } else { k + 1 };
                    assert(rest[k] == line[x]);
                }
                if h - 1 < rest.len() {
                    assert(rest[h - 1] == line[h]);
                }
                lemma_leading_shared_is(rest, h - 1);
            }
        } else {
            assert(rest[0] == line[0]);
            let m = leading_shared(rest) as int;
            if m < h {
                assert(rest[m] == line[m]);
            }
        }
    }
}

/// Mutual exclusion: whatever the line holds, two claims hold the guard
/// together only where both are shared. An exclusive holder is the only
/// holder. So at every instant nothing holds the guard, or shared claims
/// alone hold it, or one exclusive claim holds it alone.
pub proof fn lemma_mutual_exclusion(line: Seq<Claim>)
    ensures
        forall|i: int, j: int|
            0 <= i < held_count(line) && 0 <= j < held_count(line) && i != j ==> (
            #[trigger] line[i]).mode == AccessMode::Shared && (#[trigger] line[j]).mode
                == AccessMode::Shared,
        forall|i: int|
            0 <= i < held_count(line) && (#[trigger] line[i]).mode == AccessMode::Exclusive
                ==> held_count(line) == 1,
        ({
            ||| holders(line).len() == 0
            ||| forall|i: int|
                0 <= i < holders(line).len() ==> (#[trigger] holders(line)[i]).mode
                    == AccessMode::Shared
            ||| holders(line).len() == 1 && holders(line)[0].mode == AccessMode::Exclusive
        }),
{
    lemma_leading_shared_bound(line);
}

/// Parallelism: where no exclusive claim stands in the line, every claim holds
/// the guard, however many there are.
pub proof fn lemma_shared_hold_together(line: Seq<Claim>)
    requires
        forall|i: int| 0 <= i < line.len() ==> (#[trigger] line[i]).mode == AccessMode::Shared,
    ensures
        held_count(line) == line.len(),
        holders(line) == line,
        waiting(line).len() == 0,
{
    if line.len() > 0 {
        lemma_leading_shared_is(line, line.len() as int);
    }
    assert(holders(line) =~= line);
}

/// A claim is granted at once exactly where it finds the line empty, or is
/// shared and finds only shared claims in it. Nothing that was made earlier is
/// moved by it: holders go on holding and waiters keep their places.
pub proof fn lemma_request_grant(gate: GateView, mode: AccessMode)
    requires
        gate.wf(),
        gate.issued < u64::MAX,
    ensures
        gate.request(mode).wf(),
        holds(gate.request(mode).line, gate.issued as u64) <==> (gate.line.len() == 0 || (mode
            == AccessMode::Shared && forall|i: int|
            0 <= i < gate.line.len() ==> (#[trigger] gate.line[i]).mode == AccessMode::Shared)),
        forall|t: u64|
            holds(gate.line, t) ==> holds(gate.request(mode).line, t) && position(
                gate.request(mode).line,
                t,
            ) == position(gate.line, t),
        forall|t: u64|
            waits(gate.line, t) ==> waits(gate.request(mode).line, t) && position(
                gate.request(mode).line,
                t,
            ) == position(gate.line, t),
{
    let line = gate.line;
    let claim = Claim { ticket: gate.issued as u64, mode };
    let next = gate.request(mode).line;
    let n = line.len() as int;
    assert(next == line.push(claim));
    lemma_leading_shared_bound(line);
    lemma_leading_shared_bound(next);
    lemma_position(next, claim.ticket, n);
    // how many hold after the claim was made
    if n == 0 {
        assert(held_count(next) == 1);
    } else if line[0].mode == AccessMode::Exclusive {
        assert(next[0] == line[0]);
        assert(held_count(next) == 1);
    } else {
        assert(next[0] == line[0]);
        let h = leading_shared(line) as int;
        if h < n {
            assert forall|k: int| 0 <= k < h implies (#[trigger] next[k]).mode
                == AccessMode::Shared by {
                assert(next[k] == line[k]);
            }
            assert(next[h] == line[h]);
            lemma_leading_shared_is(next, h);
            assert(line[h].mode == AccessMode::Exclusive);
        } else if mode == AccessMode::Shared {
            assert forall|k: int| 0 <= k < n + 1 implies (#[trigger] next[k]).mode
                == AccessMode::Shared by {
                if k < n {
                    assert(next[k] == line[k]);
                }
            }
            lemma_leading_shared_is(next, n + 1);
        } else {
            assert forall|k: int| 0 <= k < n implies (#[trigger] next[k]).mode
                == AccessMode::Shared by {
                assert(next[k] == line[k]);
            }
            lemma_leading_shared_is(next, n);
        }
    }
    assert(held_count(next) >= held_count(line));
    assert(held_count(line) < n ==> held_count(next) == held_count(line));
    assert forall|t: u64| in_line(line, t) implies in_line(next, t) && position(next, t)
        == position(line, t) by {
        let i = position(line, t);
        assert(next[i] == line[i]);
        lemma_position(next, t, i);
    }
}

/// No overtaking: the holders are a front part of the line, so a claim never
/// holds the guard while one that was made before it waits.
pub proof fn lemma_no_overtaking(line: Seq<Claim>, earlier: u64, later: u64)
    requires
        in_line(line, earlier),
        in_line(line, later),
        position(line, earlier) <= position(line, later),
        holds(line, later),
    ensures
        holds(line, earlier),
{
}

/// The first claim in the line holds the guard.
pub proof fn lemma_front_holds(line: Seq<Claim>)
    requires
        distinct(line),
        line.len() > 0,
    ensures
        holds(line, line[0].ticket),
{
    lemma_position(line, line[0].ticket, 0);
    lemma_held_bound(line);
}

/// No starvation: when a claim leaves the line, every other claim stays in it
/// and moves up by one place if the leaving claim stood before it, and keeps
/// its place otherwise. With `lemma_request_grant`, `lemma_no_overtaking` and
/// `lemma_front_holds` this bounds the wait of a claim that stands at place
/// `p`: it holds the guard at the latest when the `p` claims before it have
/// left, however many claims are made after it.
pub proof fn lemma_release_moves_up(line: Seq<Claim>, leaving: u64, other: u64)
    requires
        distinct(line),
        in_line(line, other),
        other != leaving,
    ensures
        in_line(without(line, leaving), other),
        position(without(line, leaving), other) == if in_line(line, leaving) && position(
            line,
            leaving,
        ) < position(line, other) {
            position(line, other) - 1
        } else {
            position(line, other)
        },
        holds(line, other) ==> holds(without(line, leaving), other),
{
    let p = position(line, other);
    if in_line(line, leaving) {
        let i = position(line, leaving);
        let rest = line.remove(i);
        lemma_release_wf(GateView { line, issued: u64::MAX as nat + 1 }, leaving);
        let q = if i < p { p - 1 } else { p };
        assert(rest[q] == line[p]);
        lemma_position(rest, other, q);
        lemma_release_keeps_holders(line, leaving);
    }
}

/// When a claim leaves the line, the claims that hold the guard afterwards
/// are those that held it before, but for the leaving one, and those that are
/// admitted; and every admitted claim waited before.
pub proof fn lemma_admitted_exact(line: Seq<Claim>, leaving: u64, other: u64)
    requires
        distinct(line),
    ensures
        holds(without(line, leaving), other) <==> (holds(line, other) && other != leaving)
            || tickets_of(admitted(line, leaving)).contains(other),
        tickets_of(admitted(line, leaving)).contains(other) ==> waits(line, other) && other
            != leaving,
{
    let rest = without(line, leaving);
    let kept = kept_count(line, leaving) as int;
    let after = held_count(rest) as int;
    let adm = tickets_of(admitted(line, leaving));
    lemma_release_keeps_holders(line, leaving);
    lemma_release_wf(GateView { line, issued: u64::MAX as nat + 1 }, leaving);
    lemma_held_bound(line);
    assert(adm.len() == after - kept);
    if in_line(line, other) && other != leaving {
        lemma_release_moves_up(line, leaving, other);
        let q = position(rest, other);
        if kept <= q < after {
            assert(adm[q - kept] == other);
        }
        if adm.contains(other) {
            let k = choose|k: int| 0 <= k < adm.len() && adm[k] == other;
            assert(rest[kept + k].ticket == other);
            lemma_position(rest, other, kept + k);
        }
    } else {
        if adm.contains(other) {
            let k = choose|k: int| 0 <= k < adm.len() && adm[k] == other;
            assert(rest[kept + k].ticket == other);
            lemma_position(rest, other, kept + k);
            lemma_in_rest(line, leaving, kept + k);
        }
        if in_line(rest, other) {
            lemma_in_rest(line, leaving, position(rest, other));
        }
    }
}

/// Every claim of the line without the leaving one stood in the line, under
/// another ticket than the leaving one.
pub proof fn lemma_in_rest(line: Seq<Claim>, leaving: u64, k: int)
    requires
        distinct(line),
        0 <= k < without(line, leaving).len(),
    ensures
        in_line(line, without(line, leaving)[k].ticket),
        without(line, leaving)[k].ticket != leaving,
{
    if in_line(line, leaving) {
        let i = position(line, leaving);
        let x = if k < i { k } else { k + 1 };
        assert(line.remove(i)[k] == line[x]);
        assert(line[x].ticket != line[i].ticket);
    } else {
        assert(line[k].ticket != leaving);
    }
}

/// The exclusivity primitive of one runtime.
pub struct Exclusivity {
    line: Vec<Claim>,
    issued: u64,
}

impl View for Exclusivity {
    type V = GateView;

    closed spec fn view(&self) -> GateView {
        GateView { line: self.line@, issued: self.issued as nat }
    }
}

/// The access mode of a call, from whether its tool is parallel-safe.
pub fn classify(parallel_safe: bool) -> (mode: AccessMode)
    ensures
        mode == mode_for(parallel_safe),
{
    if parallel_safe {
        AccessMode::Shared
    } else {
        AccessMode::Exclusive
    }
}

impl Exclusivity {
    /// A primitive that nothing holds and nothing waits for.
    pub fn new() -> (gate: Self)
        ensures
            gate@ == (GateView { line: Seq::empty(), issued: 0 }),
            gate@.wf(),
    {
        Exclusivity { line: Vec::new(), issued: 0 }
    }

    /// Whether another ticket can be issued.
    pub fn has_tickets(&self) -> (r: bool)
        ensures
            r == (self@.issued < u64::MAX),
    {
        self.issued < u64::MAX
    }

    /// How many claims hold the guard.
    pub fn held(&self) -> (n: usize)
        ensures
            n == held_count(self@.line),
    {
        let len = self.line.len();
        if len == 0 {
            return 0;
        }
        match self.line[0].mode {
            AccessMode::Exclusive => 1,
            AccessMode::Shared => {
                let mut n: usize = 1;
                while n < len && self.line[n].mode == AccessMode::Shared
                    invariant
                        1 <= n <= len,
                        len == self.line.len(),
                        forall|k: int|
                            0 <= k < n ==> (#[trigger] self.line@[k]).mode == AccessMode::Shared,
                    decreases len - n,
                {
                    n += 1;
                }
                proof {
                    lemma_leading_shared_is(self.line@, n as int);
                }
                n
            },
        }
    }

    /// Where the claim with this ticket stands in the line, if it stands there.
    pub fn find(&self, ticket: u64) -> (r: Option<usize>)
        requires
            self@.wf(),
        ensures
            r is Some == in_line(self@.line, ticket),
            r matches Some(i) ==> i == position(self@.line, ticket) && i < self@.line.len(),
    {
        let mut i: usize = 0;
        while i < self.line.len()
            invariant
                i <= self.line.len(),
                self@.wf(),
                forall|k: int| 0 <= k < i ==> (#[trigger] self.line@[k]).ticket != ticket,
            decreases self.line.len() - i,
        {
            if self.line[i].ticket == ticket {
                proof {
                    lemma_position(self.line@, ticket, i as int);
                }
                return Some(i);
            }
            i += 1;
        }
        None
    }

    /// Whether the claim with this ticket holds the guard.
    pub fn is_held_by(&self, ticket: u64) -> (r: bool)
        requires
            self@.wf(),
        ensures
            r == holds(self@.line, ticket),
    {
        match self.find(ticket) {
            Some(i) => i < self.held(),
            None => false,
        }
    }

    /// Whether nothing holds the guard.
    pub fn is_unheld(&self) -> (r: bool)
        ensures
            r == (holders(self@.line).len() == 0),
    {
        proof {
            lemma_held_bound(self@.line);
        }
        self.held() == 0
    }

    /// Makes a claim in `mode`. The claim takes the last place in the line;
    /// `granted` says whether it holds the guard at once.
    pub fn request(&mut self, mode: AccessMode) -> (r: (u64, bool))
        requires
            old(self)@.wf(),
            old(self)@.issued < u64::MAX,
        ensures
            final(self)@ == old(self)@.request(mode),
            final(self)@.wf(),
            r.0 == old(self)@.issued,
            r.1 == holds(final(self)@.line, r.0),
    {
        let ticket = self.issued;
        self.line.push(Claim { ticket, mode });
        self.issued = ticket + 1;
        proof {
            lemma_position(self.line@, ticket, self.line@.len() - 1);
        }
        let granted = self.line.len() - 1 < self.held();
        (ticket, granted)
    }

    /// Takes the claim with this ticket out of the line, whether it held the
    /// guard or waited for it, and returns the tickets of the claims that hold
    /// the guard from now on and did not before.
    pub fn release(&mut self, ticket: u64) -> (granted: Vec<u64>)
        requires
            old(self)@.wf(),
        ensures
            final(self)@ == old(self)@.release(ticket),
            final(self)@.wf(),
            granted@ == tickets_of(admitted(old(self)@.line, ticket)),
    {
        let mut granted: Vec<u64> = Vec::new();
        let before = self.held();
        match self.find(ticket) {
            None => {
                proof {
                    lemma_held_bound(self@.line);
                }
                assert(granted@ =~= tickets_of(admitted(old(self)@.line, ticket)));
            },
            Some(i) => {
                let kept = if i < before {
                    before - 1
                } else {
                    before
                };
                self.line.remove(i);
                let after = self.held();
                let mut k: usize = kept;
                proof {
                    lemma_release_wf(old(self)@, ticket);
                    lemma_release_keeps_holders(old(self)@.line, ticket);
                }
                while k < after
                    invariant
                        after <= self.line.len(),
                        kept <= k <= after,
                        granted@.len() == k - kept,
                        forall|j: int|
                            0 <= j < granted@.len() ==> granted@[j] == self.line@[kept + j].ticket,
                    decreases after - k,
                {
                    granted.push(self.line[k].ticket);
                    k += 1;
                }
                assert(granted@ =~= tickets_of(admitted(old(self)@.line, ticket)));
            },
        }
        granted
    }

    /// Takes every claim out of the line.
    pub fn clear(&mut self)
        ensures
            final(self)@ == old(self)@.clear(),
            final(self)@.wf(),
    {
        self.line.clear();
    }

    /// The tickets of the claims that hold the guard, in the order of the line.
    pub fn holder_tickets(&self) -> (r: Vec<u64>)
        ensures
            r@ == tickets_of(holders(self@.line)),
    {
        let n = self.held();
        proof {
            lemma_held_bound(self@.line);
        }
        let mut r: Vec<u64> = Vec::new();
        let mut k: usize = 0;
        while k < n
            invariant
                k <= n <= self.line.len(),
                r@.len() == k,
                forall|j: int| 0 <= j < k ==> r@[j] == self.line@[j].ticket,
            decreases n - k,
        {
            r.push(self.line[k].ticket);
            k += 1;
        }
        assert(r@ =~= tickets_of(holders(self@.line)));
        r
    }

    /// The tickets of the claims that wait for the guard, the next to be served first.
    pub fn waiting_tickets(&self) -> (r: Vec<u64>)
        ensures
            r@ == tickets_of(waiting(self@.line)),
    {
        let n = self.held();
        proof {
            lemma_held_bound(self@.line);
        }
        let mut r: Vec<u64> = Vec::new();
        let mut k: usize = n;
        while k < self.line.len()
            invariant
                n <= k <= self.line.len(),
                r@.len() == k - n,
                forall|j: int| 0 <= j < k - n ==> r@[j] == self.line@[n + j].ticket,
            decreases self.line.len() - k,
        {
            r.push(self.line[k].ticket);
            k += 1;
        }
        assert(r@ =~= tickets_of(waiting(self@.line)));
        r
    }
}

} // verus!
