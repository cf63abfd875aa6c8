//! The set of exchange connections that the quoting server drives.

use crate::errors::ErrorInitialState;
use vstd::prelude::*;

verus! {

/// Holds the exchange connections until each is handed out to run.
pub struct ExchangeController<E> {
    exchanges: Vec<Box<E>>,
}

impl<E> ExchangeController<E> {
    /// The connections still held, in the order they were added.
    pub closed spec fn held(&self) -> Seq<Box<E>> {
        self.exchanges@
    }

    /// A controller that holds the exchange built for each configuration,
    /// in configuration order, or the controller error when any of them
    /// could not be built (`None`).
    #[verifier::loop_isolation(false)]
    pub fn new(built: Vec<Option<Box<E>>>) -> (r: Result<Box<ExchangeController<E>>, ErrorInitialState>)
        ensures
            (forall|i: int| 0 <= i < built@.len() ==> (#[trigger] built@[i]) is Some) ==> (r matches Ok(
                c,
            ) && c.held() == built@.map_values(|b: Option<Box<E>>| b->0)),
            (exists|i: int| 0 <= i < built@.len() && (#[trigger] built@[i]) is None) ==> (r matches Err(
                ErrorInitialState::ExchangeController,
            )),
    {
        let mut exchanges: Vec<Box<E>> = Vec::new();
        let mut built = built;
        let ghost all = built@;
        let n = built.len();
        let mut i: usize = 0;
        while i < n
            invariant
                n == all.len(),
                i <= n,
                built@ == all.skip(i as int),
                exchanges@ == all.take(i as int).map_values(|b: Option<Box<E>>| b->0),
                forall|j: int| 0 <= j < i ==> (#[trigger] all[j]) is Some,
            decreases n - i,
        {
            proof {
                assert(built@[0] == all[i as int]);
            }
            match built.remove(0) {
                Some(exchange) => {
                    exchanges.push(exchange);
                    proof {
                        assert(all.take(i + 1) =~= all.take(i as int).push(all[i as int]));
                        assert(exchanges@ =~= all.take(i + 1).map_values(|b: Option<Box<E>>| b->0));
                        assert(built@ =~= all.skip(i + 1));
                    }
                },
                None => {
                    proof {
                        assert(all[i as int] is None);
                    }
                    return Err(ErrorInitialState::ExchangeController);
                },
            }
            i = i + 1;
        }
        proof {
            assert(all.take(n as int) =~= all);
        }
        Ok(Box::new(ExchangeController { exchanges }))
    }

    /// How many connections are still held.
    pub fn exchanges(&self) -> (r: usize)
        ensures
            r == self.held().len(),
    {
        self.exchanges.len()
    }

    /// Hands out the most recently added connection still held.
    pub fn exchange(&mut self) -> (r: Option<Box<E>>)
        ensures
            old(self).held().len() == 0 ==> r is None && final(self).held() == old(self).held(),
            old(self).held().len() > 0 ==> r == Some(old(self).held().last()) && final(self).held() == old(self).held().drop_last(),
    {
        self.exchanges.pop()
    }
}

/// The booting of a controller's exchanges: they are started one after
/// another, in order, and booting stops at the first start that fails.
pub struct Boot {
    total: usize,
    started: usize,
    failure: Option<ErrorInitialState>,
}

impl Boot {
    /// How many exchanges there are to start.
    pub closed spec fn total(&self) -> nat {
        self.total as nat
    }

    /// How many exchanges started successfully so far.
    pub closed spec fn started(&self) -> nat {
        self.started as nat
    }

    /// The error of the start that failed, if one did.
    pub closed spec fn failure(&self) -> Option<ErrorInitialState> {
        self.failure
    }

    /// Booting `total` exchanges, none started yet.
    pub fn new(total: usize) -> (r: Self)
        ensures
            r.total() == total,
            r.started() == 0,
            r.failure() is None,
    {
        Boot { total, started: 0, failure: None }
    }

    /// The index of the exchange to start next, or `None` once every
    /// exchange started or one failed to.
    pub fn next(&self) -> (r: Option<usize>)
        ensures
            self.failure() is None && self.started() < self.total() ==> r == Some(
                self.started() as usize,
            ),
            self.failure() is Some || self.started() >= self.total() ==> r is None,
    {
        if self.failure.is_none() && self.started < self.total {
            Some(self.started)
        } else {
            None
        }
    }

    /// Records how the start that `next` named went: one more exchange is
    /// started, or booting stops with its error.
    pub fn record(&mut self, outcome: Result<(), ErrorInitialState>)
        requires
            old(self).failure() is None,
            old(self).started() < old(self).total(),
        ensures
            final(self).total() == old(self).total(),
            outcome is Ok ==> final(self).started() == old(self).started() + 1
                && final(self).failure() is None,
            outcome matches Err(e) ==> final(self).started() == old(self).started()
                && final(self).failure() == Some(e),
    {
        match outcome {
            Ok(()) => {
                self.started = self.started + 1;
            },
            Err(e) => {
                self.failure = Some(e);
            },
        }
    }

    /// What booting gave: the error of the start that failed, or success.
    pub fn finish(self) -> (r: Result<(), ErrorInitialState>)
        ensures
            self.failure() is None ==> r is Ok,
            self.failure() matches Some(e) ==> r == Err::<(), ErrorInitialState>(e),
    {
        match self.failure {
            Some(e) => Err(e),
            None => Ok(()),
        }
    }
}

/// The connections still held after `m` hand-outs from a controller that
/// held `held`: each hand-out takes the most recently added one.
pub open spec fn after_hand_outs<E>(held: Seq<Box<E>>, m: nat) -> Seq<Box<E>>
    decreases m,
{
    if m == 0 || held.len() == 0 {
        held
    } else {
        after_hand_outs(held.drop_last(), (m - 1) as nat)
    }
}

/// Law: after `m` hand-outs a controller that held `held` holds the first
/// `held.len() - m` of them, and none once `m` reaches `held.len()`; so it
/// counts `held.len() - min(m, held.len())` connections. The steps are those
/// of `ExchangeController::exchange`, which takes the last one held.
pub proof fn law_controller_hand_outs<E>(held: Seq<Box<E>>, m: nat)
    ensures
        after_hand_outs(held, m).len() == held.len() - (if m <= held.len() {
            m
        } else {
            held.len()
        }),
        after_hand_outs(held, m) == held.take(after_hand_outs(held, m).len() as int),
    decreases m,
{
    if m == 0 || held.len() == 0 {
        assert(held.take(held.len() as int) =~= held);
    } else {
        law_controller_hand_outs(held.drop_last(), (m - 1) as nat);
        let rest = after_hand_outs(held.drop_last(), (m - 1) as nat);
        assert(held.drop_last().take(rest.len() as int) =~= held.take(rest.len() as int));
    }
}

} // verus!
