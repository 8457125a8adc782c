//! The actuation controller: a bounded intensity that records push up and
//! every tick pulls down.
//!
//! The intensity is held exactly, as a whole number of steps. One step is
//! `1 / (2 * K)` of full intensity, where `K` is the scale of the controller:
//! a record then adds two steps per unit of healing (`healing / K`) and one
//! step per unit of overhealing (`0.5 * overhealing / K`), with no rounding.

use vstd::prelude::*;
use crate::record::TelemetryRecord;

verus! {

/// The scale `K` that the controller runs with unless told otherwise.
pub const DEFAULT_SCALE: u64 = 160_000;

/// The intensity that the controller starts with unless told otherwise:
/// 0.20 of full intensity at the default scale.
pub const DEFAULT_LEVEL: u64 = 64_000;

/// The decrement per tick unless told otherwise: 0.0015 of full intensity at
/// the default scale.
pub const DEFAULT_TICK_RATE: u64 = 480;

/// The intensity below which overhealing counts unless told otherwise: twenty
/// times full intensity at the default scale, so that it always counts.
pub const DEFAULT_THRESHOLD_LOW: u64 = 6_400_000;

/// Length of one control tick in milliseconds: a sixtieth of a second,
/// rounded down.
pub const TICK_PERIOD_MILLIS: u64 = 16;

/// What the controller tells the actuator at a tick.
#[derive(Clone, Copy, Debug, PartialEq, Eq, Structural)]
pub enum Command {
    /// Run at `level / full_scale` of full speed.
    SetSpeed { level: u64, full_scale: u64 },
    /// Stand still.
    Stop,
}

/// The state of a controller: its three settings and the current intensity,
/// all but `scale` counted in steps of `1 / (2 * scale)`.
pub struct ControllerView {
    pub scale: nat,
    pub threshold_low: nat,
    pub tick_rate: nat,
    pub level: nat,
}

impl ControllerView {
    /// The number of steps that make up full intensity.
    pub open spec fn full_scale(self) -> nat {
        2 * self.scale
    }

    /// The scale is positive and the intensity is no more than full.
    pub open spec fn wf(self) -> bool {
        0 < self.scale && self.level <= self.full_scale()
    }

    /// The intensity is above the 0.02 of full below which the actuator is
    /// stopped rather than run.
    pub open spec fn active(self) -> bool {
        50 * self.level > self.full_scale()
    }

    /// The same controller at another intensity.
    pub open spec fn at_level(self, level: nat) -> ControllerView {
        ControllerView { level, ..self }
    }

    /// The intensity after a record: healing is added and the sum capped at
    /// full; if that is below the low threshold, overhealing is added at half
    /// weight and the sum capped again.
    pub open spec fn level_after_record(self, record: TelemetryRecord) -> nat {
        let full = self.full_scale();
        let healed: nat = if self.level + 2 * record.healing < full {
            (self.level + 2 * record.healing) as nat
        } else {
            full
        };
        if healed < self.threshold_low && healed + record.overhealing < full {
            (healed + record.overhealing) as nat
        } else if healed < self.threshold_low {
            full
        } else {
            healed
        }
    }

    /// The intensity after the decay of one tick: the decrement is taken off,
    /// and what would be negative or below 0.01 of full becomes zero.
    pub open spec fn level_after_decay(self) -> nat {
        if self.level >= self.tick_rate && 100 * (self.level - self.tick_rate)
            >= self.full_scale() {
            (self.level - self.tick_rate) as nat
        } else {
            0
        }
    }

    /// The command that goes to the actuator at this intensity.
    pub open spec fn command(self) -> Command {
        if self.active() {
            Command::SetSpeed { level: self.level as u64, full_scale: self.full_scale() as u64 }
        } else {
            Command::Stop
        }
    }

    /// The state after a record.
    pub open spec fn after_record(self, record: TelemetryRecord) -> ControllerView {
        self.at_level(self.level_after_record(record))
    }

    /// The state as the actuator is commanded in a tick that polled `input`
    /// from the channel.
    pub open spec fn polled(self, input: Option<TelemetryRecord>) -> ControllerView {
        match input {
            Some(record) => self.after_record(record),
            None => self,
        }
    }

    /// The state after the decay of one tick.
    pub open spec fn after_decay(self) -> ControllerView {
        self.at_level(self.level_after_decay())
    }

    /// The state after a whole tick that polled `input` from the channel.
    pub open spec fn after_tick(self, input: Option<TelemetryRecord>) -> ControllerView {
        self.polled(input).after_decay()
    }

    /// The state after a run of ticks, one for each entry of `inputs`.
    pub open spec fn after_run(self, inputs: Seq<Option<TelemetryRecord>>) -> ControllerView
        decreases inputs.len(),
    {
        if inputs.len() == 0 {
            self
        } else {
            self.after_run(inputs.drop_last()).after_tick(inputs.last())
        }
    }
}

/// The controller. It owns the intensity; nothing else reads or writes it.
pub struct ActuationController {
    scale: u64,
    threshold_low: u64,
    tick_rate: u64,
    level: u64,
}

impl View for ActuationController {
    type V = ControllerView;

    closed spec fn view(&self) -> ControllerView {
        ControllerView {
            scale: self.scale as nat,
            threshold_low: self.threshold_low as nat,
            tick_rate: self.tick_rate as nat,
            level: self.level as nat,
        }
    }
}

impl ActuationController {
    #[verifier::type_invariant]
    spec fn well_formed(self) -> bool {
        0 < self.scale && 2 * self.scale <= u64::MAX && self.level <= 2 * self.scale
    }

    /// A controller with scale `K = scale` that starts at intensity `level`.
    /// `threshold_low`, `tick_rate` and `level` count steps of
    /// `1 / (2 * scale)`. The scale has to be positive and small enough for
    /// twice its value to be a `u64`, and the starting intensity no more than
    /// full.
    pub fn new(scale: u64, threshold_low: u64, tick_rate: u64, level: u64) -> (controller: Option<
        ActuationController,
    >)
        ensures
            controller is Some <==> 0 < scale && 2 * scale <= u64::MAX && level <= 2 * scale,
            controller matches Some(c) ==> c@ == (ControllerView {
                scale: scale as nat,
                threshold_low: threshold_low as nat,
                tick_rate: tick_rate as nat,
                level: level as nat,
            }) && c@.wf(),
    {
        if scale == 0 || scale > u64::MAX / 2 || level > 2 * scale {
            None
        } else {
            Some(ActuationController { scale, threshold_low, tick_rate, level })
        }
    }

    /// The controller with the default settings.
    pub fn with_defaults() -> (controller: ActuationController)
        ensures
            controller@ == (ControllerView {
                scale: DEFAULT_SCALE as nat,
                threshold_low: DEFAULT_THRESHOLD_LOW as nat,
                tick_rate: DEFAULT_TICK_RATE as nat,
                level: DEFAULT_LEVEL as nat,
            }),
            controller@.wf(),
    {
        ActuationController {
            scale: DEFAULT_SCALE,
            threshold_low: DEFAULT_THRESHOLD_LOW,
            tick_rate: DEFAULT_TICK_RATE,
            level: DEFAULT_LEVEL,
        }
    }

    /// The current intensity in steps.
    pub fn level(&self) -> (level: u64)
        ensures
            level == self@.level,
            level <= self@.full_scale(),
            self@.wf(),
    {
        proof {
            use_type_invariant(self);
        }
        self.level
    }

    /// The number of steps that make up full intensity.
    pub fn full_scale(&self) -> (full: u64)
        ensures
            full == self@.full_scale(),
            full > 0,
    {
        proof {
            use_type_invariant(self);
        }
        2 * self.scale
    }

    /// Takes a record into the intensity.
    pub fn apply_record(&mut self, record: &TelemetryRecord)
        ensures
            final(self)@ == old(self)@.after_record(*record),
            final(self)@.wf(),
    {
        proof {
            use_type_invariant(&*self);
        }
        let full: u128 = 2 * (self.scale as u128);
        let sum: u128 = self.level as u128 + 2 * (record.healing as u128);
        let healed: u128 = if sum < full {
            sum
        } else {
            full
        };
        let boosted: u128 = if healed < self.threshold_low as u128 {
            let with_bonus: u128 = healed + record.overhealing as u128;
            if with_bonus < full {
                with_bonus
            } else {
                full
            }
        } else {
            healed
        };
        self.level = boosted as u64;
    }

    /// The command for the actuator at the current intensity: a speed where
    /// the intensity is above 0.02 of full, a stop otherwise.
    pub fn command(&self) -> (command: Command)
        ensures
            command == self@.command(),
            command is Stop <==> !self@.active(),
            command matches Command::SetSpeed { level, full_scale } ==> level == self@.level
                && full_scale == self@.full_scale() && 0 < level <= full_scale,
    {
        proof {
            use_type_invariant(self);
        }
        let full: u128 = 2 * (self.scale as u128);
        if 50 * (self.level as u128) > full {
            Command::SetSpeed { level: self.level, full_scale: 2 * self.scale }
        } else {
            Command::Stop
        }
    }

    /// Lets the intensity decay by one tick.
    pub fn decay(&mut self)
        ensures
            final(self)@ == old(self)@.after_decay(),
            final(self)@.wf(),
    {
        proof {
            use_type_invariant(&*self);
        }
        let full: u128 = 2 * (self.scale as u128);
        if self.level >= self.tick_rate && 100 * ((self.level - self.tick_rate) as u128) >= full {
            self.level = self.level - self.tick_rate;
        } else {
            self.level = 0;
        }
    }

    /// One control tick: takes in the record that was polled from the
    /// channel, if there was one, decides on the command for the actuator,
    /// and lets the intensity decay.
    pub fn tick(&mut self, input: Option<TelemetryRecord>) -> (command: Command)
        ensures
            command == old(self)@.polled(input).command(),
            final(self)@ == old(self)@.after_tick(input),
            final(self)@.wf(),
    {
        match input {
            Some(record) => {
                self.apply_record(&record);
            },
            None => {},
        }
        let command = self.command();
        self.decay();
        command
    }
}

/// How long to sleep after a tick whose work took `elapsed`, so that ticks
/// are `period` apart: the rest of the period, or nothing where the work
/// overran it. Time lost is not made up for.
pub fn sleep_remainder(period: u64, elapsed: u64) -> (rest: u64)
    ensures
        rest == if elapsed < period {
            period - elapsed
        } else {
            0
        },
{
    if elapsed < period {
        period - elapsed
    } else {
        0
    }
}

/// A record, a decay and a whole tick each take a well-formed state to a
/// well-formed state of the same settings.
pub proof fn lemma_steps_keep_range(state: ControllerView, input: Option<TelemetryRecord>)
    requires
        state.wf(),
    ensures
        state.polled(input).wf(),
        state.after_decay().wf(),
        state.after_tick(input).wf(),
        state.after_tick(input).scale == state.scale,
        state.after_tick(input).threshold_low == state.threshold_low,
        state.after_tick(input).tick_rate == state.tick_rate,
{
}

/// Whatever is polled over a run of ticks, the intensity stays between zero
/// and full.
pub proof fn lemma_intensity_bounded(state: ControllerView, inputs: Seq<Option<TelemetryRecord>>)
    requires
        state.wf(),
    ensures
        state.after_run(inputs).wf(),
        0 <= state.after_run(inputs).level <= state.full_scale(),
        state.after_run(inputs).scale == state.scale,
    decreases inputs.len(),
{
    if inputs.len() > 0 {
        lemma_intensity_bounded(state, inputs.drop_last());
        lemma_steps_keep_range(state.after_run(inputs.drop_last()), inputs.last());
    }
}

/// The actuator is stopped exactly when the intensity is at or below 0.02 of
/// full, and is otherwise given the intensity as its speed.
pub proof fn lemma_command_threshold(state: ControllerView)
    requires
        state.wf(),
        state.full_scale() <= u64::MAX,
    ensures
        state.command() is Stop <==> 50 * state.level <= state.full_scale(),
        state.command() matches Command::SetSpeed { level, full_scale } ==> level == state.level
            && full_scale == state.full_scale(),
{
}

/// Without records the intensity never rises, and once it is zero it stays
/// zero.
pub proof fn lemma_decay_monotone(state: ControllerView)
    ensures
        state.after_decay().level <= state.level,
        state.level == 0 ==> state.after_decay().level == 0,
        state.after_tick(None::<TelemetryRecord>) == state.after_decay(),
{
}

} // verus!
