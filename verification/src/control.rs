//! The control loop: one iteration takes what the controls and the remote
//! channel gave, moves the sequencer on, starts the notes that are due and
//! mixes the frames that the output device has room for.

use vstd::prelude::*;

use crate::command::Command;
use crate::hal::button;
use crate::hal::button::Button;
use crate::hal::encoder::Encoder;
use crate::hal::mcp320x::Channel;
use crate::input::accelerometer::Accelerometer;
use crate::input::accelerometer::Measurement;
use crate::input::drumkit;
use crate::input::drumkit::Drumkit;
use crate::input::joystick::Direction;
use crate::input::joystick::Joystick;
use crate::sound::playback::advance_voices;
use crate::sound::playback::frames_to_write;
use crate::sound::playback::mixed;
use crate::sound::playback::started;
use crate::sound::playback::unloaded;
use crate::sound::playback::Playback;
use crate::sound::score::Score;
use crate::sound::score::ScoreType;
use crate::sound::Instrument;
use crate::sound::NoteEvent;
use crate::time::elapsed;
use crate::time::since;
use crate::time::MILLISECOND;
use crate::units::clamped_sum;
use crate::units::Bpm;
use crate::units::Volume;

verus! {

/// Whether the loop goes on after an iteration.
#[derive(Debug, Clone, Copy, PartialEq, Eq, Structural)]
pub enum UpdateStatus {
    Continue,
    Quit,
}

impl UpdateStatus {
    /// Whether the loop goes on.
    pub fn do_continue(self) -> (r: bool)
        ensures
            r == (self == UpdateStatus::Continue),
    {
        match self {
            UpdateStatus::Continue => true,
            UpdateStatus::Quit => false,
        }
    }
}

/// What the controls and the remote channel gave for one iteration.
pub struct Inputs {
    /// The clock reading of the iteration.
    pub now: u64,
    /// Where the joystick points, if it could be read.
    pub joystick: Option<Direction>,
    /// The command that came in, if any.
    pub command: Option<Command>,
    /// The two pins of the encoder.
    pub encoder: (bool, bool),
    /// Whether the contact of the button is closed.
    pub button: bool,
    /// The accelerations of the drum sticks, if they could be read.
    pub measurement: Option<Measurement>,
    /// The frames that the output device has room for.
    pub avail: usize,
}

impl Inputs {
    /// The units in a command are valid.
    pub open spec fn wf(self) -> bool {
        match self.command {
            Some(Command::Volume(Some(volume))) => volume.wf(),
            Some(Command::Tempo(Some(bpm))) => bpm.wf(),
            _ => true,
        }
    }
}

/// What one iteration gives.
pub struct Outcome {
    /// Whether the loop goes on.
    pub status: UpdateStatus,
    /// The frames to write to the output device, interleaved.
    pub frames: Vec<i16>,
    /// The notes that could not be started for want of a sample.
    pub rejected: Vec<Instrument>,
    /// Whether the state is to be logged.
    pub log: bool,
}

/// Whether a reading of the joystick is acted on: there was a reading
/// before, and this one differs from it or comes more than `period` after.
pub open spec fn joystick_heard(
    prev: Option<(u64, Direction)>,
    event: Option<Direction>,
    now: u64,
    period: u64,
) -> bool {
    match (event, prev) {
        (Some(event), Some((time, last))) => last != event || since(time, now) > period,
        _ => false,
    }
}

/// What a direction of the joystick adds to the volume, in hundredths of a
/// percent.
pub open spec fn volume_step(event: Direction) -> int {
    match event {
        Direction::Up => 5,
        Direction::Down => -5,
        _ => 0,
    }
}

/// The instrument of an event of the sequencer.
pub open spec fn sequenced_instrument() -> spec_fn(NoteEvent) -> Instrument {
    |event: NoteEvent| event.instrument
}

/// The instrument of a hit of the drum kit.
pub open spec fn hit_instrument() -> spec_fn(drumkit::Event) -> Instrument {
    |event: drumkit::Event| event.instrument()
}

/// Appends the instruments of the events of the sequencer to `notes`.
fn append_sequenced(notes: &mut Vec<Instrument>, events: &Vec<NoteEvent>)
    ensures
        final(notes)@ == old(notes)@ + events@.map_values(sequenced_instrument()),
{
    let n: usize = events.len();
    let mut i: usize = 0;
    proof {
        assert(events@.take(0).map_values(sequenced_instrument()) =~= Seq::<Instrument>::empty());
        assert(notes@ =~= old(notes)@ + Seq::<Instrument>::empty());
    }
    while i < n
        invariant
            i <= n,
            n == events@.len(),
            notes@ == old(notes)@ + events@.take(i as int).map_values(sequenced_instrument()),
        decreases n - i,
    {
        let event: NoteEvent = events[i];
        proof {
            assert(events@.take(i + 1) =~= events@.take(i as int).push(event));
            assert(events@.take(i + 1).map_values(sequenced_instrument()) =~= events@.take(
                i as int,
            ).map_values(sequenced_instrument()).push(event.instrument));
        }
        notes.push(event.instrument);
        assert(notes@ =~= old(notes)@ + events@.take(i + 1).map_values(sequenced_instrument()));
        i = i + 1;
    }
    proof {
        assert(events@.take(n as int) =~= events@);
    }
}

/// Appends the instruments of the hits of the drum kit to `notes`.
fn append_hits(notes: &mut Vec<Instrument>, hits: &Vec<drumkit::Event>)
    ensures
        final(notes)@ == old(notes)@ + hits@.map_values(hit_instrument()),
{
    let n: usize = hits.len();
    let mut i: usize = 0;
    proof {
        assert(hits@.take(0).map_values(hit_instrument()) =~= Seq::<Instrument>::empty());
        assert(notes@ =~= old(notes)@ + Seq::<Instrument>::empty());
    }
    while i < n
        invariant
            i <= n,
            n == hits@.len(),
            notes@ == old(notes)@ + hits@.take(i as int).map_values(hit_instrument()),
        decreases n - i,
    {
        let hit: drumkit::Event = hits[i];
        let instrument: Instrument = Instrument::from(hit);
        proof {
            assert(hits@.take(i + 1) =~= hits@.take(i as int).push(hit));
            assert(hits@.take(i + 1).map_values(hit_instrument()) =~= hits@.take(
                i as int,
            ).map_values(hit_instrument()).push(hit.instrument()));
        }
        notes.push(instrument);
        assert(notes@ =~= old(notes)@ + hits@.take(i + 1).map_values(hit_instrument()));
        i = i + 1;
    }
    proof {
        assert(hits@.take(n as int) =~= hits@);
    }
}

/// The state of the machine.
pub struct App {
    pub encoder: Encoder,
    pub button: Button,
    pub joystick: Joystick,
    pub drumkit: Drumkit,
    pub playback: Playback,
    /// How often the pattern was switched by the button, plus one.
    pub score_index: usize,
    pub score: Score,
    pub volume: Volume,
    pub bpm: Bpm,
    /// The last reading of the joystick that was acted on, and its time.
    pub prev_joystick: Option<(u64, Direction)>,
    pub joystick_period: u64,
    /// The time of the last log.
    pub last_log: Option<u64>,
    pub log_period: u64,
}

impl App {
    /// Every part is valid.
    pub open spec fn wf(self) -> bool {
        &&& self.encoder.wf()
        &&& self.playback.wf()
        &&& self.score.wf()
        &&& self.volume.wf()
        &&& self.bpm.wf()
    }

    /// Whether the counters have room for one more iteration at `now`.
    pub open spec fn can_update(self, now: u64) -> bool {
        &&& self.score.has_room(now)
        &&& self.score_index < usize::MAX
    }

    /// Whether the reading of the joystick is acted on.
    pub open spec fn hears(self, inputs: Inputs) -> bool {
        joystick_heard(self.prev_joystick, inputs.joystick, inputs.now, self.joystick_period)
    }

    /// Whether the joystick ends the loop: it is pushed left and heard.
    pub open spec fn quits_by_joystick(self, inputs: Inputs) -> bool {
        self.hears(inputs) && inputs.joystick == Some(Direction::Left)
    }

    /// Whether the iteration ends the loop, by the joystick or by a stop
    /// command.
    pub open spec fn quits(self, inputs: Inputs) -> bool {
        self.quits_by_joystick(inputs) || inputs.command == Some(Command::Stop)
    }

    /// The volume after the iteration: moved by the joystick, then set by a
    /// volume command.
    pub open spec fn volume_after(self, inputs: Inputs) -> int {
        let moved = if self.hears(inputs) && !self.quits_by_joystick(inputs) {
            clamped_sum(
                self.volume.value(),
                volume_step(inputs.joystick.unwrap()),
                0,
                Volume::FULL_SCALE as int,
            )
        } else {
            self.volume.value()
        };
        if self.quits_by_joystick(inputs) {
            moved
        } else {
            match inputs.command {
                Some(Command::Volume(Some(volume))) => volume.value(),
                _ => moved,
            }
        }
    }

    /// The reading of the joystick that counts as the last one after the
    /// iteration.
    pub open spec fn prev_joystick_after(self, inputs: Inputs) -> Option<(u64, Direction)> {
        if self.hears(inputs) && !self.quits_by_joystick(inputs) {
            Some((inputs.now, inputs.joystick.unwrap()))
        } else {
            self.prev_joystick
        }
    }

    /// How far the encoder turns in the iteration.
    pub open spec fn turn(self, inputs: Inputs) -> int {
        self.encoder.offset_after(inputs.encoder) - self.encoder.offset()
    }

    /// The tempo after an iteration that goes on: set by a tempo command,
    /// then moved by one beat per minute for each step of the encoder.
    pub open spec fn tempo_after(self, inputs: Inputs) -> int {
        let set = match inputs.command {
            Some(Command::Tempo(Some(bpm))) => bpm.value(),
            _ => self.bpm.value(),
        };
        clamped_sum(set, 1000 * self.turn(inputs), Bpm::MIN as int, Bpm::MAX as int)
    }

    /// What the button reports in the iteration.
    pub open spec fn button_event(self, inputs: Inputs) -> Option<button::Event> {
        button::next(
            self.button.state(),
            self.button.debounce(),
            self.button.timeout(),
            self.button.repeat_timeout(),
            inputs.button,
            inputs.now,
        ).1
    }

    /// The pattern that an iteration that goes on switches to, if any: the
    /// next in turn if the button reports, else the one of a mode command.
    pub open spec fn swap(self, inputs: Inputs) -> Option<ScoreType> {
        if self.button_event(inputs).is_some() {
            Some(ScoreType::of_index(self.score_index + 1))
        } else {
            match inputs.command {
                Some(Command::Mode(Some(kind))) => Some(kind),
                _ => None,
            }
        }
    }

    /// The events of the sequencer in an iteration that goes on: none right
    /// after a switch of the pattern.
    pub open spec fn sequenced(self, inputs: Inputs) -> Seq<NoteEvent> {
        if self.swap(inputs).is_some() {
            Seq::empty()
        } else {
            self.score.events_at(self.tempo_after(inputs), inputs.now)
        }
    }

    /// The notes that an iteration that goes on starts: the one of a play
    /// command, those of the sequencer, those of the drum kit.
    pub open spec fn notes(self, inputs: Inputs) -> Seq<Instrument> {
        (match inputs.command {
            Some(Command::Play(Some(instrument))) => seq![instrument],
            _ => Seq::<Instrument>::empty(),
        }) + self.sequenced(inputs).map_values(sequenced_instrument())
            + self.drumkit.events_at(inputs.measurement, inputs.now).map_values(hit_instrument())
    }

    /// Whether the iteration is one to log: the first, and each that comes
    /// at least the log period after the last that was logged.
    pub open spec fn logs(self, inputs: Inputs) -> bool {
        match self.last_log {
            None => true,
            Some(last) => since(last, inputs.now) >= self.log_period,
        }
    }

    /// The machine at rest: the standard pattern at 120 beats per minute
    /// and a fifth of the full volume.
    pub fn new(playback: Playback) -> (r: Self)
        requires
            playback.wf(),
        ensures
            r.wf(),
            r.playback == playback,
            r.score_index == 1,
            r.score.kind() == ScoreType::Standard,
            r.score.pattern() == ScoreType::Standard.tracks(),
            r.score.length() == ScoreType::Standard.loop_length(),
            r.score.beat() == 0,
            r.score.anchor().is_none(),
            r.volume.value() == 2_000,
            r.bpm.value() == 120_000,
            r.prev_joystick.is_none(),
            r.joystick_period == 100 * MILLISECOND,
            r.last_log.is_none(),
            r.log_period == 750 * MILLISECOND,
            r.button.state() == button::State::Up,
            r.button.debounce() == 20 * MILLISECOND,
            r.button.timeout() == 250 * MILLISECOND,
            r.button.repeat_timeout() == 100 * MILLISECOND,
            r.encoder.offset() == 0,
            r.encoder.limit_min() == i32::MIN,
            r.encoder.limit_max() == i32::MAX,
            r.encoder.last_state().is_none(),
            r.joystick.x_axis() == Channel::CH0,
            r.joystick.y_axis() == Channel::CH1,
            r.drumkit.thresholds() == seq![2_000u128, 2_000u128, 2_000u128],
            r.drumkit.timeout() == 100 * MILLISECOND,
            r.drumkit.prev() == seq![None::<u64>, None::<u64>, None::<u64>],
            r.drumkit.accelerometer().x_axis() == Channel::CH2,
            r.drumkit.accelerometer().y_axis() == Channel::CH3,
            r.drumkit.accelerometer().z_axis() == Channel::CH4,
            r.drumkit.accelerometer().voltage_per_g() == 420_000,
    {
        let acc = Accelerometer::new(Channel::CH2, Channel::CH3, Channel::CH4, 420_000);
        let thresholds: [u128; 3] = [2_000, 2_000, 2_000];
        proof {
            assert(thresholds@ =~= seq![2_000u128, 2_000u128, 2_000u128]);
        }
        let volume = match Volume::try_from(20u32) {
            Ok(volume) => volume,
            Err(_) => vstd::pervasive::unreached(),
        };
        let bpm = match Bpm::try_from(120u32) {
            Ok(bpm) => bpm,
            Err(_) => vstd::pervasive::unreached(),
        };
        let score_index: usize = 1;
        App {
            encoder: Encoder::new(i32::MIN, i32::MAX, 0),
            button: Button::new(20 * MILLISECOND, 250 * MILLISECOND, 100 * MILLISECOND),
            joystick: Joystick::new(Channel::CH0, Channel::CH1),
            drumkit: Drumkit::new(acc, thresholds, 100 * MILLISECOND),
            playback,
            score_index,
            score: ScoreType::from_index(score_index).apply(),
            volume,
            bpm,
            prev_joystick: None,
            joystick_period: 100 * MILLISECOND,
            last_log: None,
            log_period: 750 * MILLISECOND,
        }
    }

    /// Tells whether the counters have room for one more iteration at
    /// `now`.
    pub fn fits(&self, now: u64) -> (r: bool)
        requires
            self.wf(),
        ensures
            r == self.can_update(now),
    {
        self.score.fits(now) && self.score_index < usize::MAX
    }

    /// Switches to the pattern `score` at the beat time reached so far. The
    /// next update of the sequencer only takes its bearings.
    pub fn set_score(&mut self, score: ScoreType)
        requires
            old(self).score.wf(),
        ensures
            final(self).score.wf(),
            final(self).score.beat() == old(self).score.beat(),
            final(self).score.kind() == score,
            final(self).score.pattern() == score.tracks(),
            final(self).score.length() == score.loop_length(),
            final(self).score.anchor().is_none(),
            final(self).encoder == old(self).encoder,
            final(self).button == old(self).button,
            final(self).joystick == old(self).joystick,
            final(self).drumkit == old(self).drumkit,
            final(self).playback == old(self).playback,
            final(self).score_index == old(self).score_index,
            final(self).volume == old(self).volume,
            final(self).bpm == old(self).bpm,
            final(self).prev_joystick == old(self).prev_joystick,
            final(self).joystick_period == old(self).joystick_period,
            final(self).last_log == old(self).last_log,
            final(self).log_period == old(self).log_period,
    {
        let prev_beat = self.score.get_beat();
        self.score = score.apply();
        self.score.set_beat(prev_beat);
    }

    /// One iteration of the control loop.
    ///
    /// The joystick is heard first: up and down move the volume, left ends
    /// the loop at once. Then the command is taken in, and a stop command
    /// ends the loop. Else the encoder moves the tempo, the button switches
    /// to the next pattern, the sequencer advances, the notes of the
    /// command, of the sequencer and of the drum kit are started, and the
    /// mixer gives the frames that the output device has room for.
    pub fn update(&mut self, inputs: Inputs) -> (outcome: Outcome)
        requires
            old(self).wf(),
            inputs.wf(),
            old(self).can_update(inputs.now),
        ensures
            final(self).wf(),
            outcome.status == if old(self).quits(inputs) {
                UpdateStatus::Quit
            } else {
                UpdateStatus::Continue
            },
            final(self).volume.value() == old(self).volume_after(inputs),
            final(self).prev_joystick == old(self).prev_joystick_after(inputs),
            final(self).joystick == old(self).joystick,
            final(self).joystick_period == old(self).joystick_period,
            final(self).log_period == old(self).log_period,
            final(self).playback.bank() == old(self).playback.bank(),
            final(self).playback.channels() == old(self).playback.channels(),
            final(self).playback.chunk() == old(self).playback.chunk(),
            final(self).score.beat() >= old(self).score.beat(),
            old(self).quits(inputs) ==> {
                &&& outcome.frames@.len() == 0
                &&& outcome.rejected@.len() == 0
                &&& !outcome.log
                &&& final(self).encoder == old(self).encoder
                &&& final(self).button == old(self).button
                &&& final(self).drumkit == old(self).drumkit
                &&& final(self).playback == old(self).playback
                &&& final(self).score == old(self).score
                &&& final(self).score_index == old(self).score_index
                &&& final(self).bpm == old(self).bpm
                &&& final(self).last_log == old(self).last_log
            },
            !old(self).quits(inputs) ==> {
                let pre = *old(self);
                let post = *final(self);
                let bank = pre.playback.bank();
                let voices = pre.playback.voices() + started(bank, pre.notes(inputs));
                let frames = frames_to_write(pre.playback.chunk(), inputs.avail as int);
                &&& post.bpm.value() == pre.tempo_after(inputs)
                &&& post.encoder.offset() == pre.encoder.offset_after(inputs.encoder)
                &&& post.encoder.last_state() == pre.encoder.last_state_after(inputs.encoder)
                &&& post.encoder.limit_min() == pre.encoder.limit_min()
                &&& post.encoder.limit_max() == pre.encoder.limit_max()
                &&& post.button.debounce() == pre.button.debounce()
                &&& post.button.timeout() == pre.button.timeout()
                &&& post.button.repeat_timeout() == pre.button.repeat_timeout()
                &&& post.button.state() == button::next(
                    pre.button.state(),
                    pre.button.debounce(),
                    pre.button.timeout(),
                    pre.button.repeat_timeout(),
                    inputs.button,
                    inputs.now,
                ).0
                &&& post.score_index == if pre.button_event(inputs).is_some() {
                    pre.score_index + 1
                } else {
                    pre.score_index as int
                }
                &&& post.score.anchor() == Some(inputs.now)
                &&& match pre.swap(inputs) {
                    Some(kind) => {
                        &&& post.score.kind() == kind
                        &&& post.score.pattern() == kind.tracks()
                        &&& post.score.length() == kind.loop_length()
                        &&& post.score.beat() == pre.score.beat()
                    },
                    None => {
                        &&& post.score.kind() == pre.score.kind()
                        &&& post.score.pattern() == pre.score.pattern()
                        &&& post.score.length() == pre.score.length()
                        &&& post.score.beat() == pre.score.next_beat(
                            pre.tempo_after(inputs),
                            inputs.now,
                        )
                    },
                }
                &&& post.drumkit.accelerometer() == pre.drumkit.accelerometer()
                &&& post.drumkit.thresholds() == pre.drumkit.thresholds()
                &&& post.drumkit.timeout() == pre.drumkit.timeout()
                &&& post.drumkit.prev().len() == 3
                &&& forall|i: int|
                    0 <= i < 3 ==> #[trigger] post.drumkit.prev()[i] == pre.drumkit.prev_after(
                        inputs.measurement,
                        i,
                        inputs.now,
                    )
                &&& outcome.log == pre.logs(inputs)
                &&& post.last_log == if pre.logs(inputs) {
                    Some(inputs.now)
                } else {
                    pre.last_log
                }
                &&& outcome.rejected@ == pre.notes(inputs).filter(unloaded(bank))
                &&& outcome.frames@.len() == frames * pre.playback.channels()
                &&& forall|i: int|
                    0 <= i < outcome.frames@.len() ==> #[trigger] outcome.frames@[i] == mixed(
                        bank,
                        voices,
                        i / pre.playback.channels(),
                        pre.volume_after(inputs),
                    )
                &&& post.playback.voices() == if frames == 0 {
                    voices
                } else {
                    advance_voices(bank, voices, frames)
                }
            },
    {
        let now: u64 = inputs.now;
        let mut notes: Vec<Instrument> = Vec::new();
        if self.hear_joystick(inputs.joystick, now) {
            return Self::quit();
        }
        if self.take_command(inputs.command, &mut notes) {
            return Self::quit();
        }
        self.turn_tempo(inputs.encoder);
        self.press_button(inputs.button, now);
        proof {
            if old(self).swap(inputs).is_none() {
                self.score.lemma_has_room(self.bpm, now);
            }
        }
        self.sequence(inputs.measurement, now, &mut notes);
        assert(notes@ == old(self).notes(inputs));
        let log: bool = self.log_due(now);
        let rejected: Vec<Instrument> = self.playback.start_sounds(&notes);
        let frames: Vec<i16> = self.playback.update(inputs.avail, self.volume);
        Outcome { status: UpdateStatus::Continue, frames, rejected, log }
    }

    /// Hears the joystick and tells whether it ends the loop.
    fn hear_joystick(&mut self, event: Option<Direction>, now: u64) -> (quit: bool)
        requires
            old(self).volume.wf(),
        ensures
            final(self).volume.wf(),
            quit == (joystick_heard(
                old(self).prev_joystick,
                event,
                now,
                old(self).joystick_period,
            ) && event == Some(Direction::Left)),
            final(self).volume.value() == if joystick_heard(
                old(self).prev_joystick,
                event,
                now,
                old(self).joystick_period,
            ) && !quit {
                clamped_sum(
                    old(self).volume.value(),
                    volume_step(event.unwrap()),
                    0,
                    Volume::FULL_SCALE as int,
                )
            } else {
                old(self).volume.value()
            },
            final(self).prev_joystick == if joystick_heard(
                old(self).prev_joystick,
                event,
                now,
                old(self).joystick_period,
            ) && !quit {
                Some((now, event.unwrap()))
            } else {
                old(self).prev_joystick
            },
            *final(self) == (App {
                volume: final(self).volume,
                prev_joystick: final(self).prev_joystick,
                ..*old(self)
            }),
    {
        match event {
            Some(event) => {
                if self.heard(event, now) {
                    match event {
                        Direction::Up => {
                            let volume = self.volume.saturating_add(5);
                            self.set_volume(volume);
                        },
                        Direction::Down => {
                            let volume = self.volume.saturating_add(-5);
                            self.set_volume(volume);
                        },
                        Direction::Left => {
                            return true;
                        },
                        _ => {},
                    }
                    self.prev_joystick = Some((now, event));
                }
            },
            None => {},
        }
        false
    }

    /// Takes in the command, puts the note of a play command into `notes`
    /// and tells whether the command ends the loop.
    fn take_command(&mut self, command: Option<Command>, notes: &mut Vec<Instrument>) -> (quit:
        bool)
        requires
            old(self).score.wf(),
            old(notes)@.len() == 0,
        ensures
            quit == (command == Some(Command::Stop)),
            final(notes)@ == match command {
                Some(Command::Play(Some(instrument))) => seq![instrument],
                _ => Seq::<Instrument>::empty(),
            },
            final(self).volume == match command {
                Some(Command::Volume(Some(volume))) => volume,
                _ => old(self).volume,
            },
            final(self).bpm == match command {
                Some(Command::Tempo(Some(bpm))) => bpm,
                _ => old(self).bpm,
            },
            match command {
                Some(Command::Mode(Some(kind))) => {
                    &&& final(self).score.wf()
                    &&& final(self).score.beat() == old(self).score.beat()
                    &&& final(self).score.kind() == kind
                    &&& final(self).score.pattern() == kind.tracks()
                    &&& final(self).score.length() == kind.loop_length()
                    &&& final(self).score.anchor().is_none()
                },
                _ => final(self).score == old(self).score,
            },
            *final(self) == (App {
                volume: final(self).volume,
                bpm: final(self).bpm,
                score: final(self).score,
                ..*old(self)
            }),
    {
        match command {
            Some(Command::Mode(Some(kind))) => {
                self.set_score(kind);
            },
            Some(Command::Volume(Some(volume))) => {
                self.set_volume(volume);
            },
            Some(Command::Tempo(Some(bpm))) => {
                self.set_tempo(bpm);
            },
            Some(Command::Play(Some(trigger))) => {
                notes.push(trigger);
                assert(notes@ =~= seq![trigger]);
            },
            Some(Command::Stop) => {
                return true;
            },
            _ => {},
        }
        assert(command != Some(Command::Stop));
        false
    }

    /// Takes in the pins of the encoder and moves the tempo by one beat per
    /// minute for each step it made.
    fn turn_tempo(&mut self, pins: (bool, bool))
        requires
            old(self).encoder.wf(),
            old(self).bpm.wf(),
        ensures
            final(self).encoder.wf(),
            final(self).bpm.wf(),
            final(self).encoder.limit_min() == old(self).encoder.limit_min(),
            final(self).encoder.limit_max() == old(self).encoder.limit_max(),
            final(self).encoder.offset() == old(self).encoder.offset_after(pins),
            final(self).encoder.last_state() == old(self).encoder.last_state_after(pins),
            final(self).bpm.value() == clamped_sum(
                old(self).bpm.value(),
                1000 * (old(self).encoder.offset_after(pins) - old(self).encoder.offset()),
                Bpm::MIN as int,
                Bpm::MAX as int,
            ),
            *final(self) == (App {
                encoder: final(self).encoder,
                bpm: final(self).bpm,
                ..*old(self)
            }),
    {
        let before: i32 = self.encoder.get_offset();
        self.encoder.update(pins.0, pins.1);
        let after: i32 = self.encoder.get_offset();
        let turn: i64 = after as i64 - before as i64;
        let held: i64 = if turn > 1_000 {
            1_000
        } else if turn < -1_000 {
            -1_000
        } else {
            turn
        };
        let bpm = self.bpm.saturating_add((held * 1_000) as i32);
        self.set_tempo(bpm);
    }

    /// Takes in the contact of the button and switches to the next pattern
    /// if the button reports.
    fn press_button(&mut self, pressed: bool, now: u64)
        requires
            old(self).score.wf(),
            old(self).score_index < usize::MAX,
        ensures
            final(self).button.debounce() == old(self).button.debounce(),
            final(self).button.timeout() == old(self).button.timeout(),
            final(self).button.repeat_timeout() == old(self).button.repeat_timeout(),
            final(self).button.state() == button::next(
                old(self).button.state(),
                old(self).button.debounce(),
                old(self).button.timeout(),
                old(self).button.repeat_timeout(),
                pressed,
                now,
            ).0,
            final(self).score.wf(),
            if button::next(
                old(self).button.state(),
                old(self).button.debounce(),
                old(self).button.timeout(),
                old(self).button.repeat_timeout(),
                pressed,
                now,
            ).1.is_some() {
                let kind = ScoreType::of_index(old(self).score_index + 1);
                &&& final(self).score_index == old(self).score_index + 1
                &&& final(self).score.beat() == old(self).score.beat()
                &&& final(self).score.kind() == kind
                &&& final(self).score.pattern() == kind.tracks()
                &&& final(self).score.length() == kind.loop_length()
                &&& final(self).score.anchor().is_none()
            } else {
                &&& final(self).score_index == old(self).score_index
                &&& final(self).score == old(self).score
            },
            *final(self) == (App {
                button: final(self).button,
                score_index: final(self).score_index,
                score: final(self).score,
                ..*old(self)
            }),
    {
        if self.button.update(pressed, now).is_some() {
            self.score_index = self.score_index + 1;
            self.set_score(ScoreType::from_index(self.score_index));
        }
    }

    /// Advances the sequencer, takes in the measurement of the drum kit and
    /// appends the notes of both to `notes`.
    fn sequence(&mut self, measurement: Option<Measurement>, now: u64, notes: &mut Vec<Instrument>)
        requires
            old(self).score.wf(),
            old(self).bpm.wf(),
            old(self).score.can_update(old(self).bpm.value(), now),
        ensures
            final(self).score.wf(),
            final(self).score.pattern() == old(self).score.pattern(),
            final(self).score.length() == old(self).score.length(),
            final(self).score.kind() == old(self).score.kind(),
            final(self).score.anchor() == Some(now),
            final(self).score.beat() == old(self).score.next_beat(old(self).bpm.value(), now),
            final(self).drumkit.accelerometer() == old(self).drumkit.accelerometer(),
            final(self).drumkit.thresholds() == old(self).drumkit.thresholds(),
            final(self).drumkit.timeout() == old(self).drumkit.timeout(),
            final(self).drumkit.prev().len() == 3,
            forall|i: int|
                0 <= i < 3 ==> #[trigger] final(self).drumkit.prev()[i] == old(
                    self,
                ).drumkit.prev_after(measurement, i, now),
            final(notes)@ == old(notes)@ + old(self).score.events_at(
                old(self).bpm.value(),
                now,
            ).map_values(sequenced_instrument()) + old(self).drumkit.events_at(
                measurement,
                now,
            ).map_values(hit_instrument()),
            *final(self) == (App {
                score: final(self).score,
                drumkit: final(self).drumkit,
                ..*old(self)
            }),
    {
        let events: Vec<NoteEvent> = self.score.update(self.bpm, now);
        append_sequenced(notes, &events);
        let hits: Vec<drumkit::Event> = self.drumkit.get(measurement, now);
        append_hits(notes, &hits);
    }

    /// Tells whether the iteration is one to log, and notes it if so.
    fn log_due(&mut self, now: u64) -> (log: bool)
        ensures
            log == match old(self).last_log {
                None => true,
                Some(last) => since(last, now) >= old(self).log_period,
            },
            final(self).last_log == if log {
                Some(now)
            } else {
                old(self).last_log
            },
            *final(self) == (App { last_log: final(self).last_log, ..*old(self) }),
    {
        let log: bool = match self.last_log {
            None => true,
            Some(last) => elapsed(last, now) >= self.log_period,
        };
        if log {
            self.last_log = Some(now);
        }
        log
    }

    /// Tells whether a reading of the joystick is acted on.
    fn heard(&self, event: Direction, now: u64) -> (r: bool)
        ensures
            r == joystick_heard(self.prev_joystick, Some(event), now, self.joystick_period),
    {
        match self.prev_joystick {
            None => false,
            Some((time, last)) => last != event || elapsed(time, now) > self.joystick_period,
        }
    }

    /// What an iteration that ends the loop gives.
    fn quit() -> (outcome: Outcome)
        ensures
            outcome.status == UpdateStatus::Quit,
            outcome.frames@.len() == 0,
            outcome.rejected@.len() == 0,
            !outcome.log,
    {
        Outcome {
            status: UpdateStatus::Quit,
            frames: Vec::new(),
            rejected: Vec::new(),
            log: false,
        }
    }

    /// Sets the volume.
    pub fn set_volume(&mut self, volume: Volume)
        ensures
            *final(self) == (App { volume, ..*old(self) }),
    {
        self.volume = volume;
    }

    /// Sets the tempo.
    pub fn set_tempo(&mut self, bpm: Bpm)
        ensures
            *final(self) == (App { bpm, ..*old(self) }),
    {
        self.bpm = bpm;
    }
}

} // verus!
