//! A single guessing worker: cursor, longest-streak counter and log content.

use vstd::prelude::*;
use crate::sim::Simulation;

verus! {

/// What one guessing step did, for the caller to act on (append to the log
/// file, clear the screen, print the character).
#[derive(Clone, Copy, PartialEq, Eq, Structural, Debug)]
pub enum StepOutcome {
    /// The guess matched the expected character and the cursor advanced.
    /// `log_append` is true exactly when the matched character extends this
    /// worker's best streak and must be appended to its log.
    Matched { ch: char, log_append: bool },
    /// The guess missed.  `reset` is true exactly when the cursor was past the
    /// start and was therefore moved back to position 0.
    Mismatch { reset: bool },
}

/// The state a worker owns exclusively: its cursor into the reference text,
/// its longest streak so far, whether it logs, and the characters logged.
pub struct Worker {
    cursor: usize,
    streak: usize,
    logging: bool,
    logged: Vec<char>,
}

/// The transition relation of one guessing step: how the worker moves from
/// `pre` to `post` on `guess`, and which outcome `o` it reports.
pub open spec fn step_rel(
    pre: Worker,
    post: Worker,
    sim: Simulation,
    guess: char,
    o: StepOutcome,
) -> bool {
    let expected = sim.text()[pre.cursor() as int];
    let appends = pre.logging() && pre.cursor() + 1 > pre.streak();
    &&& post.logging() == pre.logging()
    &&& if guess == expected {
        &&& o == (StepOutcome::Matched { ch: guess, log_append: appends })
        &&& post.cursor() == pre.cursor() + 1
        &&& if appends {
            &&& post.streak() == pre.cursor() + 1
            &&& post.logged() == pre.logged().push(guess)
        } else {
            &&& post.streak() == pre.streak()
            &&& post.logged() == pre.logged()
        }
    } else if pre.cursor() > 0 {
        &&& o == (StepOutcome::Mismatch { reset: true })
        &&& post.cursor() == 0
        &&& post.streak() == pre.streak()
        &&& post.logged() == pre.logged()
    } else {
        &&& o == (StepOutcome::Mismatch { reset: false })
        &&& post == pre
    }
}

/// A mismatched guess with the cursor at position 0 leaves the worker exactly
/// as it was: no further reset happens and nothing is logged.
pub proof fn lemma_mismatch_at_start(
    pre: Worker,
    post: Worker,
    sim: Simulation,
    guess: char,
    o: StepOutcome,
)
    requires
        step_rel(pre, post, sim, guess, o),
        pre.cursor() == 0,
        guess != sim.text()[0],
    ensures
        post == pre,
        o == (StepOutcome::Mismatch { reset: false }),
{
}

/// A mismatched guess with the cursor at a position past 0 resets the cursor
/// to 0 and changes nothing else; nothing is logged.
pub proof fn lemma_mismatch_resets(
    pre: Worker,
    post: Worker,
    sim: Simulation,
    guess: char,
    o: StepOutcome,
)
    requires
        step_rel(pre, post, sim, guess, o),
        pre.cursor() > 0,
        guess != sim.text()[pre.cursor() as int],
    ensures
        o == (StepOutcome::Mismatch { reset: true }),
        post.cursor() == 0,
        post.streak() == pre.streak(),
        post.logged() == pre.logged(),
{
}

/// A match that carries the cursor past this worker's previous best streak
/// appends exactly that one character to the log and raises the streak counter
/// to the new cursor position.
pub proof fn lemma_new_best_logs(
    pre: Worker,
    post: Worker,
    sim: Simulation,
    guess: char,
    o: StepOutcome,
)
    requires
        step_rel(pre, post, sim, guess, o),
        pre.logging(),
        guess == sim.text()[pre.cursor() as int],
        pre.cursor() + 1 > pre.streak(),
    ensures
        o == (StepOutcome::Matched { ch: guess, log_append: true }),
        post.cursor() == pre.cursor() + 1,
        post.streak() == pre.cursor() + 1,
        post.logged() == pre.logged().push(guess),
{
}

/// A match at a position the worker's best streak has already covered does not
/// log again: the log and the streak counter stay as they were.
pub proof fn lemma_rematch_does_not_log(
    pre: Worker,
    post: Worker,
    sim: Simulation,
    guess: char,
    o: StepOutcome,
)
    requires
        step_rel(pre, post, sim, guess, o),
        guess == sim.text()[pre.cursor() as int],
        pre.cursor() + 1 <= pre.streak(),
    ensures
        o == (StepOutcome::Matched { ch: guess, log_append: false }),
        post.cursor() == pre.cursor() + 1,
        post.streak() == pre.streak(),
        post.logged() == pre.logged(),
{
}

/// With logging on, a well-formed worker's log holds exactly the prefix of the
/// reference text whose length is the worker's longest streak.
pub proof fn lemma_logged_is_best_prefix(w: Worker, sim: Simulation)
    requires
        w.wf(sim),
        w.logging(),
    ensures
        w.logged() == sim.text().take(w.streak() as int),
{
}

impl Worker {
    /// The cursor: the length of the currently matched prefix of the text.
    pub closed spec fn cursor(&self) -> nat {
        self.cursor as nat
    }

    /// The longest streak this worker has logged so far.
    pub closed spec fn streak(&self) -> nat {
        self.streak as nat
    }

    /// Whether this worker appends its best streaks to a log.
    pub closed spec fn logging(&self) -> bool {
        self.logging
    }

    /// The characters this worker has asked to be logged, in order.
    pub closed spec fn logged(&self) -> Seq<char> {
        self.logged@
    }

    /// Well-formedness with respect to a simulation: the cursor and streak
    /// stay within the text, and when logging is on, the log content is
    /// exactly the text prefix of length `streak`.
    pub open spec fn wf(&self, sim: Simulation) -> bool {
        &&& self.cursor() <= sim.text().len()
        &&& self.streak() <= sim.text().len()
        &&& if self.logging() {
            &&& self.streak() >= self.cursor()
            &&& self.logged() == sim.text().take(self.streak() as int)
        } else {
            &&& self.streak() == 0
            &&& self.logged().len() == 0
        }
    }

    /// A fresh worker at the start of the text, with nothing logged yet.
    pub fn new(logging: bool) -> (w: Worker)
        ensures
            w.cursor() == 0,
            w.streak() == 0,
            w.logging() == logging,
            w.logged().len() == 0,
            forall|sim: Simulation| #[trigger] w.wf(sim),
    {
        let w = Worker { cursor: 0, streak: 0, logging, logged: Vec::new() };
        proof {
            assert forall|sim: Simulation| #[trigger] w.wf(sim) by {
                assert(sim.text().take(0) =~= Seq::<char>::empty());
            }
        }
        w
    }

    /// Whether this worker has matched the whole reference text.
    pub fn is_complete(&self, sim: &Simulation) -> (b: bool)
        ensures
            b == (self.cursor() == sim.text().len()),
    {
        self.cursor == sim.text_len()
    }

    /// The cursor position, for callers outside the loop.
    pub fn cursor_pos(&self) -> (n: usize)
        ensures
            n == self.cursor(),
    {
        self.cursor
    }

    /// The longest streak logged so far.
    pub fn best_streak(&self) -> (n: usize)
        ensures
            n == self.streak(),
    {
        self.streak
    }

    /// The characters logged so far, in order.
    pub fn logged_chars(&self) -> (v: &Vec<char>)
        ensures
            v@ == self.logged(),
    {
        &self.logged
    }

    /// One guessing step on a given character: advance on a match (logging the
    /// character when it extends the best streak), reset to the start on a
    /// mismatch past position 0, and do nothing on a mismatch at position 0.
    pub fn step(&mut self, sim: &Simulation, guess: char) -> (o: StepOutcome)
        requires
            sim.wf(),
            old(self).wf(*sim),
            old(self).cursor() < sim.text().len(),
        ensures
            final(self).wf(*sim),
            final(self).streak() >= old(self).streak(),
            step_rel(*old(self), *final(self), *sim, guess, o),
    {
        let expected = sim.char_at(self.cursor);
        if guess == expected {
            let log_append = self.logging && self.cursor + 1 > self.streak;
            if log_append {
                proof {
                    assert(self.streak() == self.cursor());
                    assert(sim.text().take(self.cursor() as int + 1)
                        =~= sim.text().take(self.cursor() as int).push(guess));
                }
                self.streak = self.cursor + 1;
                self.logged.push(guess);
            }
            self.cursor = self.cursor + 1;
            StepOutcome::Matched { ch: guess, log_append }
        } else if self.cursor != 0 {
            self.cursor = 0;
            StepOutcome::Mismatch { reset: true }
        } else {
            StepOutcome::Mismatch { reset: false }
        }
    }

    /// One loop iteration of a worker that has not yet completed: draw one
    /// character uniformly at random from the alphabet and step on it.  The
    /// draw is random, so all that holds of the outcome is that some alphabet
    /// character was guessed and the step relation was followed.
    pub fn guess_once(&mut self, sim: &Simulation) -> (o: StepOutcome)
        requires
            sim.wf(),
            old(self).wf(*sim),
            old(self).cursor() < sim.text().len(),
        ensures
            final(self).wf(*sim),
            final(self).streak() >= old(self).streak(),
            exists|g: char|
                sim.alphabet().contains(g) && step_rel(*old(self), *final(self), *sim, g, o),
    {
        let guess = sim.random_char();
        let o = self.step(sim, guess);
        proof {
            assert(sim.alphabet().contains(guess)
                && step_rel(*old(self), *self, *sim, guess, o));
        }
        o
    }
}

} // verus!
