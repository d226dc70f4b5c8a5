use vstd::prelude::*;
use rand::Rng;
use rand::rngs::StdRng;
use crate::color::ColorStop;
use crate::config::{Config, ConfigError, ConfigModel, Definition, DefinitionModel, config_of};
use crate::json::Json;

verus! {

#[verifier::external_type_specification]
#[verifier::external_body]
pub struct ExStdRng(StdRng);

/// Relies on rand's `Rng::gen_range`: a number drawn from `0..n`; it panics on an
/// empty range, which `requires` leaves out.
#[verifier::external_body]
fn random_below(rng: &mut StdRng, n: usize) -> (r: usize)
    requires
        n > 0,
    ensures
        r < n,
{
    rng.gen_range(0..n)
}

/// Picks one of `count` definitions, or none when there are none.
pub fn select(count: usize, rng: &mut StdRng) -> (r: Option<usize>)
    ensures
        r is None <==> count == 0,
        r matches Some(i) ==> i < count,
{
    if count == 0 {
        None
    } else {
        Some(random_below(rng, count))
    }
}

/// Where a session stands.
#[derive(Clone, Copy, Debug, PartialEq, Eq, Structural)]
pub enum State {
    Uninitialized,
    Configured,
    Running,
    Stopped,
}

/// A session: the configuration, the definition chosen for it, and the frame counter.
#[derive(Debug)]
pub struct Saver {
    config: Option<Config>,
    state: State,
    active: Option<usize>,
    tick: u64,
}

impl Saver {
    pub closed spec fn spec_state(&self) -> State {
        self.state
    }

    pub closed spec fn spec_tick(&self) -> u64 {
        self.tick
    }

    /// The index of the chosen definition.
    pub closed spec fn spec_active(&self) -> Option<usize> {
        self.active
    }

    pub closed spec fn spec_config(&self) -> Option<ConfigModel> {
        match &self.config {
            Some(c) => Some(c@),
            None => None,
        }
    }

    /// A session is configured exactly when it holds a configuration, and the chosen
    /// definition is one of it; with definitions to choose from, one is chosen.
    pub open spec fn wf(&self) -> bool {
        &&& (self.spec_config() is None <==> self.spec_state() == State::Uninitialized)
        &&& (self.spec_config() is None ==> self.spec_active() is None)
        &&& (self.spec_config() matches Some(c) ==> (match self.spec_active() {
            Some(i) => i < c.definitions.len(),
            None => c.definitions.len() == 0,
        }))
    }

    /// The definition chosen for the session and the tick it is shown at.
    pub open spec fn frame(&self) -> Option<(DefinitionModel, u64)> {
        match (self.spec_config(), self.spec_active()) {
            (Some(c), Some(i)) => Some((c.definitions[i as int], self.spec_tick())),
            _ => None,
        }
    }

    /// What one frame update makes of the session: the tick goes up by one while
    /// running, and stays at its largest value.
    pub closed spec fn stepped(self) -> Saver {
        if self.state == State::Running && self.tick < u64::MAX {
            Saver { tick: (self.tick + 1) as u64, ..self }
        } else {
            self
        }
    }

    /// The gradient the session draws with: the chosen definition's own, unless it has
    /// none or no stop of it was valid; then the configuration's.
    pub open spec fn spec_gradient(&self) -> Option<Seq<ColorStop>> {
        match self.spec_config() {
            None => None,
            Some(c) => Some(
                match self.spec_active() {
                    Some(i) => match c.definitions[i as int].gradient {
                        Some(g) => if g.len() > 0 {
                            g
                        } else {
                            c.gradient
                        },
                        None => c.gradient,
                    },
                    None => c.gradient,
                },
            ),
        }
    }

    pub fn gradient(&self) -> (r: Option<&Vec<ColorStop>>)
        requires
            self.wf(),
        ensures
            r is Some <==> self.spec_gradient() is Some,
            r matches Some(g) ==> self.spec_gradient() == Some(g@),
    {
        match &self.config {
            None => None,
            Some(c) => match self.active {
                Some(i) => match &c.definitions[i].gradient {
                    Some(g) => if g.len() > 0 {
                        Some(g)
                    } else {
                        Some(&c.gradient)
                    },
                    None => Some(&c.gradient),
                },
                None => Some(&c.gradient),
            },
        }
    }

    pub fn new() -> (r: Saver)
        ensures
            r.wf(),
            r.spec_state() == State::Uninitialized,
            r.spec_config() is None,
            r.spec_active() is None,
            r.spec_tick() == 0,
    {
        Saver { config: None, state: State::Uninitialized, active: None, tick: 0 }
    }

    /// Starts the session on `config`, showing definition `choice` from tick 0.
    pub fn install(&mut self, config: Config, choice: usize)
        requires
            config.definitions@.len() > 0 ==> choice < config.definitions@.len(),
        ensures
            final(self).wf(),
            final(self).spec_config() == Some(config@),
            final(self).spec_state() == State::Configured,
            final(self).spec_tick() == 0,
            final(self).spec_active() == (if config.definitions@.len() == 0 {
                None
            } else {
                Some(choice)
            }),
    {
        self.active = if config.definitions.len() == 0 {
            None
        } else {
            Some(choice)
        };
        self.config = Some(config);
        self.state = State::Configured;
        self.tick = 0;
    }

    /// Configures the session from a table and picks one of its definitions at random.
    /// A table that does not compile leaves the session as it was.
    pub fn config(&mut self, table: &Json, rng: &mut StdRng) -> (r: Result<(), ConfigError>)
        ensures
            r is Ok <==> config_of(*table) is Ok,
            r matches Err(e) ==> config_of(*table) == Err::<ConfigModel, ConfigError>(e)
                && *final(self) == *old(self),
            r is Ok ==> final(self).wf()
                && final(self).spec_config() == Some(config_of(*table)->Ok_0)
                && final(self).spec_state() == State::Configured
                && final(self).spec_tick() == 0,
    {
        match Config::new(table) {
            Ok(config) => {
                let choice = match select(config.definitions.len(), rng) {
                    Some(i) => i,
                    None => 0,
                };
                self.install(config, choice);
                Ok(())
            },
            Err(e) => Err(e),
        }
    }

    /// Runs a configured or stopped session; otherwise nothing changes.
    pub fn start(&mut self)
        ensures
            final(self).spec_config() == old(self).spec_config(),
            final(self).spec_active() == old(self).spec_active(),
            final(self).spec_tick() == old(self).spec_tick(),
            final(self).spec_state() == (match old(self).spec_state() {
                State::Configured | State::Stopped => State::Running,
                s => s,
            }),
            old(self).wf() ==> final(self).wf(),
    {
        match self.state {
            State::Configured | State::Stopped => self.state = State::Running,
            _ => {},
        }
    }

    /// Stops a running session; otherwise nothing changes.
    pub fn stop(&mut self)
        ensures
            final(self).spec_config() == old(self).spec_config(),
            final(self).spec_active() == old(self).spec_active(),
            final(self).spec_tick() == old(self).spec_tick(),
            final(self).spec_state() == (if old(self).spec_state() == State::Running {
                State::Stopped
            } else {
                old(self).spec_state()
            }),
            old(self).wf() ==> final(self).wf(),
    {
        if self.state == State::Running {
            self.state = State::Stopped;
        }
    }

    pub fn state(&self) -> (r: State)
        ensures
            r == self.spec_state(),
    {
        self.state
    }

    pub fn tick(&self) -> (r: u64)
        ensures
            r == self.spec_tick(),
    {
        self.tick
    }

    /// Advances the frame counter of a running session by one; it stays at its
    /// largest value.
    pub fn update(&mut self)
        ensures
            *final(self) == old(self).stepped(),
            final(self).spec_config() == old(self).spec_config(),
            final(self).spec_active() == old(self).spec_active(),
            final(self).spec_state() == old(self).spec_state(),
            final(self).spec_tick() == (if old(self).spec_state() == State::Running
                && old(self).spec_tick() < u64::MAX {
                old(self).spec_tick() + 1
            } else {
                old(self).spec_tick() as int
            }),
            old(self).wf() ==> final(self).wf(),
    {
        if self.state == State::Running && self.tick < u64::MAX {
            self.tick = self.tick + 1;
        }
    }

    /// The definition to show and the tick to evaluate it at; `None` when nothing is
    /// to be drawn.
    pub fn current(&self) -> (r: Option<(&Definition, u64)>)
        requires
            self.wf(),
        ensures
            r is Some <==> self.frame() is Some,
            r matches Some((d, t)) ==> self.frame() == Some((d@, t)),
    {
        match (&self.config, self.active) {
            (Some(c), Some(i)) => Some((&c.definitions[i], self.tick)),
            _ => None,
        }
    }
}


impl Default for Saver {
    /// An unconfigured session.
    fn default() -> (r: Saver)
        ensures
            r.wf(),
            r.spec_state() == State::Uninitialized,
            r.spec_config() is None,
            r.spec_active() is None,
            r.spec_tick() == 0,
    {
        Saver::new()
    }
}

/// The session after `k` frame updates.
pub open spec fn updated(s: Saver, k: nat) -> Saver
    decreases k,
{
    if k == 0 {
        s
    } else {
        updated(s, (k - 1) as nat).stepped()
    }
}

/// Updates change nothing but the tick.
pub proof fn lemma_updates_keep(s: Saver, k: nat)
    ensures
        updated(s, k).spec_state() == s.spec_state(),
        updated(s, k).spec_config() == s.spec_config(),
        updated(s, k).spec_active() == s.spec_active(),
        s.wf() ==> updated(s, k).wf(),
    decreases k,
{
    if k > 0 {
        lemma_updates_keep(s, (k - 1) as nat);
    }
}

/// Updates keep no history: a running session at tick 0, updated `k` times, shows the
/// same definition as before, at tick `k` (at the largest tick once `k` passes it).
pub proof fn lemma_replay(s: Saver, k: nat)
    requires
        s.spec_state() == State::Running,
        s.spec_tick() == 0,
    ensures
        updated(s, k).spec_state() == State::Running,
        updated(s, k).spec_tick() == (if k <= u64::MAX {
            k as int
        } else {
            u64::MAX as int
        }),
        updated(s, k).spec_config() == s.spec_config(),
        updated(s, k).spec_active() == s.spec_active(),
        s.wf() ==> updated(s, k).wf(),
        updated(s, k).frame() == (match s.frame() {
            Some((d, _)) => Some((d, updated(s, k).spec_tick())),
            None => None,
        }),
    decreases k,
{
    lemma_updates_keep(s, k);
    if k > 0 {
        lemma_replay(s, (k - 1) as nat);
    }
}

/// A session configured with no definitions chooses none and has nothing to draw,
/// however often it is updated.
pub proof fn lemma_empty_inert(s: Saver, k: nat)
    requires
        s.wf(),
        s.spec_config() matches Some(c) && c.definitions.len() == 0,
    ensures
        s.spec_active() is None,
        updated(s, k).spec_active() is None,
        updated(s, k).frame() is None,
{
    lemma_updates_keep(s, k);
}

} // verus!
