//! The clocks of the game: the timer of the automatic runs of the program, and the
//! silence between two pieces of background music. Times are in milliseconds.
use vstd::prelude::*;

verus! {

/// The timer of the automatic runs: the period between runs while it is on, how long
/// the current program takes to run, once that is known, and the time since the last run.
#[derive(Clone, Copy, Debug, PartialEq, Eq, Structural)]
pub struct AutoRunner {
    pub period: Option<u64>,
    pub run_duration: Option<u64>,
    pub since_last_run: u64,
}

/// What the automatic runner asks of the game after some time has passed.
#[derive(Clone, Copy, Debug, PartialEq, Eq, Structural)]
pub enum AutoRunAction {
    /// Nothing is due.
    Wait,
    /// The run time of the program must be found and handed to `set_run_duration`.
    MeasureProgram,
    /// A run has finished: its resources are to be granted.
    GrantRun,
}

/// `a + b`, or `u64::MAX` where that does not fit.
pub open spec fn sat_add(a: u64, b: u64) -> u64 {
    if a + b > u64::MAX { u64::MAX } else { (a + b) as u64 }
}

/// The runner after `elapsed` milliseconds, and what it asks for.
pub open spec fn auto_run_tick(s: AutoRunner, elapsed: u64) -> (AutoRunner, AutoRunAction) {
    match s.period {
        None => (s, AutoRunAction::Wait),
        Some(period) => {
            let since = sat_add(s.since_last_run, elapsed);
            match s.run_duration {
                None => (AutoRunner { since_last_run: since, ..s }, AutoRunAction::MeasureProgram),
                Some(run) => if since >= sat_add(period, run) {
                    (AutoRunner { run_duration: None, since_last_run: 0, ..s }, AutoRunAction::GrantRun)
                } else {
                    (AutoRunner { since_last_run: since, ..s }, AutoRunAction::Wait)
                },
            }
        },
    }
}

impl AutoRunner {
    /// A runner that is off.
    pub fn new() -> (r: Self)
        ensures
            r == (AutoRunner { period: None, run_duration: None, since_last_run: 0 }),
    {
        AutoRunner { period: None, run_duration: None, since_last_run: 0 }
    }

    /// Runs the program every `period` milliseconds from now on.
    pub fn set_period(&mut self, period: u64)
        ensures
            *final(self) == (AutoRunner { period: Some(period), ..*old(self) }),
    {
        self.period = Some(period);
    }

    /// Stops running the program.
    pub fn stop(&mut self)
        ensures
            *final(self) == (AutoRunner { period: None, ..*old(self) }),
    {
        self.period = None;
    }

    /// Records how long the current program takes to run, or that there is no program
    /// to run.
    pub fn set_run_duration(&mut self, run_duration: Option<u64>)
        ensures
            *final(self) == (AutoRunner { run_duration, ..*old(self) }),
    {
        self.run_duration = run_duration;
    }

    /// Counts the time that passed; a run is granted once a period and the run time have
    /// passed since the last one, and the run time is asked for while it is not known.
    pub fn tick(&mut self, elapsed: u64) -> (action: AutoRunAction)
        ensures
            (*final(self), action) == auto_run_tick(*old(self), elapsed),
    {
        match self.period {
            None => AutoRunAction::Wait,
            Some(period) => {
                self.since_last_run = self.since_last_run.saturating_add(elapsed);
                match self.run_duration {
                    None => AutoRunAction::MeasureProgram,
                    Some(run) => {
                        if self.since_last_run >= period.saturating_add(run) {
                            self.run_duration = None;
                            self.since_last_run = 0;
                            AutoRunAction::GrantRun
                        } else {
                            AutoRunAction::Wait
                        }
                    },
                }
            },
        }
    }

    /// The time since the last run and the time at which the next one is granted, while
    /// the runner is on; their ratio is the progress toward the next run.
    pub fn progress_parts(&self) -> (r: Option<(u64, u64)>)
        ensures
            r == (match self.period {
                Some(period) => Some((self.since_last_run, sat_add(period, match self.run_duration {
                    Some(run) => run,
                    None => 0u64,
                }))),
                None => None::<(u64, u64)>,
            }),
    {
        match self.period {
            Some(period) => {
                let run = match self.run_duration {
                    Some(run) => run,
                    None => 0,
                };
                Some((self.since_last_run, period.saturating_add(run)))
            },
            None => None,
        }
    }
}

/// The silence between two pieces of background music after `elapsed` milliseconds, and
/// whether the next piece starts now. When the player has run out of music and no silence
/// is counting down, a silence of `fresh_silence` begins; a silence that runs out starts
/// the next piece.
pub open spec fn bgm_tick(player_empty: bool, silence: Option<u64>, elapsed: u64, fresh_silence: u64) -> (Option<u64>, bool) {
    match silence {
        None => if player_empty { (Some(fresh_silence), false) } else { (None, false) },
        Some(s) => if elapsed <= s { (Some((s - elapsed) as u64), false) } else { (None, true) },
    }
}

/// Advances the silence between two pieces of background music; see `bgm_tick`. While a
/// silence counts down, the player has no music.
pub fn bgm_silence_tick(player_empty: bool, silence: Option<u64>, elapsed: u64, fresh_silence: u64) -> (r: (Option<u64>, bool))
    requires
        silence is Some ==> player_empty,
    ensures
        r == bgm_tick(player_empty, silence, elapsed, fresh_silence),
{
    match silence {
        None => {
            if player_empty {
                (Some(fresh_silence), false)
            } else {
                (None, false)
            }
        },
        Some(s) => {
            match s.checked_sub(elapsed) {
                Some(left) => (Some(left), false),
                None => (None, true),
            }
        },
    }
}

} // verus!
