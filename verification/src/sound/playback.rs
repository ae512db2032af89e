//! The polyphonic mixer: the voices that are playing and the frames they
//! give.

use vstd::prelude::*;

use crate::sound::Instrument;
use crate::units::Volume;

verus! {

/// The lowest value of a sample.
pub const SAMPLE_MIN: i16 = -32768;

/// The highest value of a sample.
pub const SAMPLE_MAX: i16 = 32767;

/// `x` held to the range of a sample.
pub open spec fn clamp16(x: int) -> int {
    if x < SAMPLE_MIN {
        SAMPLE_MIN as int
    } else if x > SAMPLE_MAX {
        SAMPLE_MAX as int
    } else {
        x
    }
}

/// A sample times the gain `gain / 10_000`, rounded to the nearest whole
/// number, halves away from zero.
pub open spec fn scaled(sample: int, gain: int) -> int {
    if sample >= 0 {
        (sample * gain + 5_000) / 10_000
    } else {
        -((-sample * gain + 5_000) / 10_000)
    }
}

/// One playback of a sample in progress.
#[derive(Debug, Clone, Copy, PartialEq, Eq, Structural)]
pub struct PlayingSound {
    /// The frame of the sample that sounds next.
    pub pos: usize,
    /// The instrument whose sample is playing.
    pub handle: Instrument,
}

/// What a voice adds to the frame that lies `frame` frames ahead: its sample
/// at the cursor, scaled, while the sample lasts, and nothing after.
pub open spec fn voice_sample(
    bank: Map<Instrument, Seq<i16>>,
    voice: PlayingSound,
    frame: int,
    gain: int,
) -> int {
    let sound = bank[voice.handle];
    if voice.pos + frame < sound.len() {
        scaled(sound[voice.pos + frame] as int, gain)
    } else {
        0
    }
}

/// The value of the frame that lies `frame` frames ahead: the sum over the
/// voices in their order, held to the range of a sample after each addition.
pub open spec fn mixed(
    bank: Map<Instrument, Seq<i16>>,
    voices: Seq<PlayingSound>,
    frame: int,
    gain: int,
) -> int
    decreases voices.len(),
{
    if voices.len() == 0 {
        0
    } else {
        clamp16(
            mixed(bank, voices.drop_last(), frame, gain) + voice_sample(
                bank,
                voices.last(),
                frame,
                gain,
            ),
        )
    }
}

/// The test that picks the voices that still have frames left after `frames`
/// more.
pub open spec fn lasts_beyond(bank: Map<Instrument, Seq<i16>>, frames: int) -> spec_fn(
    PlayingSound,
) -> bool {
    |voice: PlayingSound| voice.pos + frames < bank[voice.handle].len()
}

/// A voice with its cursor moved on by `frames`.
pub open spec fn moved_on(frames: int) -> spec_fn(PlayingSound) -> PlayingSound {
    |voice: PlayingSound| PlayingSound { pos: (voice.pos + frames) as usize, handle: voice.handle }
}

/// The voices after `frames` frames: those whose sample has not ended, each
/// with its cursor moved on, in their old order.
pub open spec fn advance_voices(
    bank: Map<Instrument, Seq<i16>>,
    voices: Seq<PlayingSound>,
    frames: int,
) -> Seq<PlayingSound> {
    voices.filter(lasts_beyond(bank, frames)).map_values(moved_on(frames))
}

/// The test that picks the instruments that have a sample.
pub open spec fn loaded(bank: Map<Instrument, Seq<i16>>) -> spec_fn(Instrument) -> bool {
    |handle: Instrument| bank.dom().contains(handle)
}

/// The test that picks the instruments that have no sample.
pub open spec fn unloaded(bank: Map<Instrument, Seq<i16>>) -> spec_fn(Instrument) -> bool {
    |handle: Instrument| !bank.dom().contains(handle)
}

/// A voice at the beginning of the sample of an instrument.
pub open spec fn fresh() -> spec_fn(Instrument) -> PlayingSound {
    |handle: Instrument| PlayingSound { pos: 0, handle }
}

/// The voices that `notes` start: one for each note of an instrument that
/// has a sample, in the order of the notes.
pub open spec fn started(bank: Map<Instrument, Seq<i16>>, notes: Seq<Instrument>) -> Seq<
    PlayingSound,
> {
    notes.filter(loaded(bank)).map_values(fresh())
}

/// The smaller of the chunk size and the free capacity of the device.
pub open spec fn frames_to_write(chunk: int, avail: int) -> int {
    if chunk <= avail {
        chunk
    } else {
        avail
    }
}

/// A scaled sample stays a sample as long as the gain is at most one.
pub proof fn lemma_scaled_in_range(sample: int, gain: int)
    requires
        SAMPLE_MIN <= sample <= SAMPLE_MAX,
        0 <= gain <= 10_000,
    ensures
        SAMPLE_MIN <= scaled(sample, gain) <= SAMPLE_MAX,
{
    if sample >= 0 {
        assert(0 <= sample * gain <= 32767 * 10_000) by (nonlinear_arith)
            requires
                0 <= sample <= 32767,
                0 <= gain <= 10_000,
        ;
    } else {
        assert(0 <= -sample * gain <= 32768 * 10_000) by (nonlinear_arith)
            requires
                0 < -sample <= 32768,
                0 <= gain <= 10_000,
        ;
    }
}

/// Full gain leaves a sample as it is.
pub proof fn lemma_scaled_full(sample: int)
    ensures
        scaled(sample, 10_000) == sample,
{
    if sample >= 0 {
        assert((sample * 10_000 + 5_000) / 10_000 == sample) by (nonlinear_arith)
            requires
                sample >= 0,
        ;
    } else {
        assert((-sample * 10_000 + 5_000) / 10_000 == -sample) by (nonlinear_arith)
            requires
                sample < 0,
        ;
    }
}

/// A mixed frame never leaves the range of a sample.
pub proof fn lemma_mixed_in_range(
    bank: Map<Instrument, Seq<i16>>,
    voices: Seq<PlayingSound>,
    frame: int,
    gain: int,
)
    ensures
        SAMPLE_MIN <= mixed(bank, voices, frame, gain) <= SAMPLE_MAX,
{
}

/// What a voice adds to a frame is itself a sample as long as the gain is at
/// most one.
pub proof fn lemma_voice_sample_in_range(
    bank: Map<Instrument, Seq<i16>>,
    voice: PlayingSound,
    frame: int,
    gain: int,
)
    requires
        0 <= frame,
        0 <= gain <= 10_000,
    ensures
        SAMPLE_MIN <= voice_sample(bank, voice, frame, gain) <= SAMPLE_MAX,
{
    let sound = bank[voice.handle];
    if voice.pos + frame < sound.len() {
        lemma_scaled_in_range(sound[voice.pos + frame] as int, gain);
    }
}

/// A single voice is heard as it is.
pub proof fn lemma_mixed_one(
    bank: Map<Instrument, Seq<i16>>,
    voice: PlayingSound,
    frame: int,
    gain: int,
)
    requires
        0 <= frame,
        0 <= gain <= 10_000,
    ensures
        mixed(bank, seq![voice], frame, gain) == voice_sample(bank, voice, frame, gain),
{
    lemma_voice_sample_in_range(bank, voice, frame, gain);
    assert(seq![voice].drop_last() =~= Seq::<PlayingSound>::empty());
    assert(mixed(bank, Seq::<PlayingSound>::empty(), frame, gain) == 0);
    assert(seq![voice].last() == voice);
}

/// Two voices whose sum leaves the range of a sample give the end of the
/// range on the side on which it was left: the sum never wraps around.
pub proof fn lemma_mixed_two_saturates(
    bank: Map<Instrument, Seq<i16>>,
    first: PlayingSound,
    second: PlayingSound,
    frame: int,
    gain: int,
)
    requires
        0 <= frame,
        0 <= gain <= 10_000,
    ensures
        ({
            let sum = voice_sample(bank, first, frame, gain) + voice_sample(
                bank,
                second,
                frame,
                gain,
            );
            let both = mixed(bank, seq![first, second], frame, gain);
            &&& both == clamp16(sum)
            &&& sum > SAMPLE_MAX ==> both == SAMPLE_MAX
            &&& sum < SAMPLE_MIN ==> both == SAMPLE_MIN
        }),
{
    lemma_mixed_one(bank, first, frame, gain);
    assert(seq![first, second].drop_last() =~= seq![first]);
    assert(seq![first, second].last() == second);
}

/// A voice is heard in every frame up to the last of its sample and in none
/// after, and it is left among the voices exactly as long as its cursor has
/// not reached the end of its sample.
pub proof fn lemma_voice_fate(
    bank: Map<Instrument, Seq<i16>>,
    voice: PlayingSound,
    frames: int,
    gain: int,
)
    requires
        0 <= frames,
    ensures
        forall|frame: int|
            0 <= frame && voice.pos + frame < bank[voice.handle].len() ==> #[trigger] voice_sample(
                bank,
                voice,
                frame,
                gain,
            ) == scaled(bank[voice.handle][voice.pos + frame] as int, gain),
        forall|frame: int|
            voice.pos + frame >= bank[voice.handle].len() ==> #[trigger] voice_sample(
                bank,
                voice,
                frame,
                gain,
            ) == 0,
        advance_voices(bank, seq![voice], frames) == if voice.pos + frames
            < bank[voice.handle].len() {
            seq![PlayingSound { pos: (voice.pos + frames) as usize, handle: voice.handle }]
        } else {
            Seq::<PlayingSound>::empty()
        },
{
    let pred = lasts_beyond(bank, frames);
    let step = moved_on(frames);
    let none = Seq::<PlayingSound>::empty();
    assert(seq![voice] =~= none.push(voice));
    none.lemma_filter_push(voice, pred);
    assert(none.filter(pred) =~= none);
    if pred(voice) {
        assert(none.push(voice).map_values(step) =~= seq![step(voice)]);
    } else {
        assert(none.map_values(step) =~= none);
    }
}

/// After any number of frames, every voice that is left has frames of its
/// sample left, and it stems from a voice that was there before.
pub proof fn lemma_advanced_voices_last(
    bank: Map<Instrument, Seq<i16>>,
    voices: Seq<PlayingSound>,
    frames: int,
    k: int,
)
    requires
        0 <= frames,
        0 <= k < advance_voices(bank, voices, frames).len(),
        forall|j: int|
            0 <= j < voices.len() ==> bank[(#[trigger] voices[j]).handle].len() <= usize::MAX,
    ensures
        ({
            let left = advance_voices(bank, voices, frames)[k];
            &&& left.pos < bank[left.handle].len()
            &&& exists|j: int|
                0 <= j < voices.len() && (#[trigger] voices[j]).handle == left.handle
                    && voices[j].pos + frames == left.pos
        }),
{
    let pred = lasts_beyond(bank, frames);
    let step = moved_on(frames);
    let kept = voices.filter(pred);
    voices.lemma_filter_pred(pred, k);
    assert(kept.contains(kept[k]));
    voices.lemma_filter_contains_rev(pred, kept[k]);
    let j = choose|j: int| 0 <= j < voices.len() && voices[j] == kept[k];
    assert(pred(kept[k]));
    assert(bank[kept[k].handle].len() <= usize::MAX);
    assert(kept.map_values(step)[k] == step(kept[k]));
    assert(voices[j].handle == step(kept[k]).handle);
}

/// Scales one sample by the gain of `volume`.
pub fn scale_sample(sample: i16, volume: Volume) -> (r: i16)
    requires
        volume.wf(),
    ensures
        r == scaled(sample as int, volume.value()),
{
    let gain: i64 = volume.as_scale() as i64;
    let wide: i64 = sample as i64;
    proof {
        lemma_scaled_in_range(sample as int, gain as int);
    }
    if wide >= 0 {
        assert(0 <= wide * gain <= 32767 * 10_000) by (nonlinear_arith)
            requires
                0 <= wide <= 32767,
                0 <= gain <= 10_000,
        ;
        ((wide * gain + 5_000) / 10_000) as i16
    } else {
        assert(0 <= (-wide) * gain <= 32768 * 10_000) by (nonlinear_arith)
            requires
                0 < -wide <= 32768,
                0 <= gain <= 10_000,
        ;
        (-(((-wide) * gain + 5_000) / 10_000)) as i16
    }
}

/// Adds two samples and stops at the ends of the range instead of wrapping.
pub fn saturating_sum(a: i16, b: i16) -> (r: i16)
    ensures
        r == clamp16(a + b),
{
    let sum: i32 = a as i32 + b as i32;
    if sum < SAMPLE_MIN as i32 {
        SAMPLE_MIN
    } else if sum > SAMPLE_MAX as i32 {
        SAMPLE_MAX
    } else {
        sum as i16
    }
}

/// The reason a voice was not started: no sample is loaded for its
/// instrument.
#[derive(Debug, Clone, Copy, PartialEq, Eq, Structural)]
pub struct NotLoaded(pub Instrument);

/// The mixer: a bank of samples, the voices that are playing, and the shape
/// of the output.
pub struct Playback {
    instruments: Vec<Option<Vec<i16>>>,
    playing: Vec<PlayingSound>,
    channels: u32,
    buffer_frame_size: usize,
}

impl Playback {
    /// The sample of each instrument that has one.
    pub closed spec fn bank(self) -> Map<Instrument, Seq<i16>> {
        Map::new(
            |handle: Instrument| self.instruments@[handle.index() as int].is_some(),
            |handle: Instrument| self.instruments@[handle.index() as int].unwrap()@,
        )
    }

    /// The voices that are playing, oldest first.
    pub closed spec fn voices(self) -> Seq<PlayingSound> {
        self.playing@
    }

    /// The number of channels of the output, all of which carry the same
    /// signal.
    pub closed spec fn channels(self) -> int {
        self.channels as int
    }

    /// The most frames that one update writes.
    pub closed spec fn chunk(self) -> int {
        self.buffer_frame_size as int
    }

    /// The bank has one place for each instrument.
    pub closed spec fn has_slots(self) -> bool {
        self.instruments@.len() == 3
    }

    /// Every voice plays an instrument that has a sample.
    pub open spec fn wf(self) -> bool {
        &&& self.has_slots()
        &&& forall|k: int|
            0 <= k < self.voices().len() ==> self.bank().dom().contains(
                #[trigger] self.voices()[k].handle,
            )
    }

    /// Every sample of the bank has a length that the machine can hold.
    pub proof fn lemma_bank_fits(self, handle: Instrument)
        requires
            self.bank().dom().contains(handle),
        ensures
            self.bank()[handle].len() <= usize::MAX,
    {
        let sound = self.instruments@[handle.index() as int].unwrap();
        assert(sound@.len() == sound.len());
    }

    /// A mixer without samples and without voices, for an output of
    /// `channels` channels that is fed at most `buffer_frame_size` frames at
    /// a time.
    pub fn new(channels: u32, buffer_frame_size: usize) -> (r: Self)
        ensures
            r.wf(),
            r.bank() == Map::<Instrument, Seq<i16>>::empty(),
            r.voices() == Seq::<PlayingSound>::empty(),
            r.channels() == channels,
            r.chunk() == buffer_frame_size,
    {
        let mut instruments: Vec<Option<Vec<i16>>> = Vec::new();
        instruments.push(None);
        instruments.push(None);
        instruments.push(None);
        let r = Playback { instruments, playing: Vec::new(), channels, buffer_frame_size };
        proof {
            assert(r.bank() =~= Map::<Instrument, Seq<i16>>::empty());
        }
        r
    }

    /// Loads `sound` as the sample of `handle`, in place of any earlier one.
    pub fn add_instrument(&mut self, sound: Vec<i16>, handle: Instrument)
        requires
            old(self).wf(),
        ensures
            final(self).wf(),
            final(self).bank() == old(self).bank().insert(handle, sound@),
            final(self).voices() == old(self).voices(),
            final(self).channels() == old(self).channels(),
            final(self).chunk() == old(self).chunk(),
    {
        let slot: usize = handle.to_index();
        self.instruments.set(slot, Some(sound));
        proof {
            assert(self.bank() =~= old(self).bank().insert(handle, sound@));
        }
    }

    /// Starts a new voice at the beginning of the sample of `handle`, or
    /// refuses if that instrument has no sample.
    pub fn start_sound(&mut self, handle: Instrument) -> (r: Result<(), NotLoaded>)
        requires
            old(self).wf(),
        ensures
            final(self).wf(),
            final(self).bank() == old(self).bank(),
            final(self).channels() == old(self).channels(),
            final(self).chunk() == old(self).chunk(),
            old(self).bank().dom().contains(handle) ==> r.is_ok() && final(self).voices() == old(self).voices().push(PlayingSound { pos: 0, handle }),
            !old(self).bank().dom().contains(handle) ==> r == Err::<(), NotLoaded>(
                NotLoaded(handle),
            ) && final(self).voices() == old(self).voices(),
    {
        if self.instruments[handle.to_index()].is_none() {
            return Err(NotLoaded(handle));
        }
        self.playing.push(PlayingSound { pos: 0, handle });
        Ok(())
    }

    /// Starts a voice for each of `notes` in their order and returns those
    /// that were refused because their instrument has no sample.
    pub fn start_sounds(&mut self, notes: &Vec<Instrument>) -> (rejected: Vec<Instrument>)
        requires
            old(self).wf(),
        ensures
            final(self).wf(),
            final(self).bank() == old(self).bank(),
            final(self).channels() == old(self).channels(),
            final(self).chunk() == old(self).chunk(),
            final(self).voices() == old(self).voices() + started(old(self).bank(), notes@),
            rejected@ == notes@.filter(unloaded(old(self).bank())),
    {
        let ghost bank = self.bank();
        let ghost yes = loaded(bank);
        let ghost no = unloaded(bank);
        let mut rejected: Vec<Instrument> = Vec::new();
        let n: usize = notes.len();
        let mut i: usize = 0;
        proof {
            assert(notes@.take(0) =~= Seq::<Instrument>::empty());
            assert(notes@.take(0).filter(yes).map_values(fresh()) =~= Seq::<PlayingSound>::empty());
            assert(self.voices() =~= old(self).voices() + Seq::<PlayingSound>::empty());
        }
        while i < n
            invariant
                i <= n,
                n == notes@.len(),
                self.wf(),
                bank == self.bank(),
                bank == old(self).bank(),
                yes == loaded(bank),
                no == unloaded(bank),
                self.channels() == old(self).channels(),
                self.chunk() == old(self).chunk(),
                self.voices() == old(self).voices() + notes@.take(i as int).filter(yes).map_values(
                    fresh(),
                ),
                rejected@ == notes@.take(i as int).filter(no),
            decreases n - i,
        {
            let handle: Instrument = notes[i];
            proof {
                let before = notes@.take(i as int);
                assert(notes@.take(i + 1) =~= before.push(handle));
                before.lemma_filter_push(handle, yes);
                before.lemma_filter_push(handle, no);
                if yes(handle) {
                    assert(before.push(handle).filter(yes).map_values(fresh()) =~= before.filter(
                        yes,
                    ).map_values(fresh()).push(PlayingSound { pos: 0, handle }));
                }
            }
            let ghost voices = self.voices();
            match self.start_sound(handle) {
                Ok(()) => {
                    assert(self.voices() =~= old(self).voices() + notes@.take(i + 1).filter(
                        yes,
                    ).map_values(fresh()));
                },
                Err(_) => {
                    rejected.push(handle);
                },
            }
            i = i + 1;
        }
        proof {
            assert(notes@.take(n as int) =~= notes@);
        }
        rejected
    }

    /// The number of voices that are playing.
    pub fn playing_count(&self) -> (r: usize)
        ensures
            r == self.voices().len(),
    {
        self.playing.len()
    }

    /// The sample of an instrument that has one.
    fn sample(&self, handle: Instrument) -> (sound: &Vec<i16>)
        requires
            self.has_slots(),
            self.bank().dom().contains(handle),
        ensures
            sound@ == self.bank()[handle],
    {
        match &self.instruments[handle.to_index()] {
            Some(sound) => sound,
            None => vstd::pervasive::unreached(),
        }
    }

    /// The value of the frame that lies `frame` frames ahead.
    fn mix_frame(&self, frame: usize, volume: Volume) -> (value: i16)
        requires
            self.wf(),
            volume.wf(),
        ensures
            value == mixed(self.bank(), self.voices(), frame as int, volume.value()),
    {
        let ghost bank = self.bank();
        let ghost voices = self.voices();
        let ghost gain = volume.value();
        let n: usize = self.playing.len();
        let mut value: i16 = 0;
        let mut v: usize = 0;
        proof {
            assert(voices.take(0) =~= Seq::<PlayingSound>::empty());
        }
        while v < n
            invariant
                v <= n,
                n == self.playing@.len(),
                self.wf(),
                volume.wf(),
                bank == self.bank(),
                voices == self.voices(),
                gain == volume.value(),
                value == mixed(bank, voices.take(v as int), frame as int, gain),
            decreases n - v,
        {
            let voice: PlayingSound = self.playing[v];
            assert(voices[v as int] == voice);
            let sound = self.sample(voice.handle);
            let part: i16 = if voice.pos < sound.len() && frame < sound.len() - voice.pos {
                scale_sample(sound[voice.pos + frame], volume)
            } else {
                0
            };
            proof {
                assert(part == voice_sample(bank, voice, frame as int, gain));
                assert(voices.take(v + 1).drop_last() =~= voices.take(v as int));
                assert(voices.take(v + 1).last() == voice);
            }
            value = saturating_sum(value, part);
            v = v + 1;
        }
        proof {
            assert(voices.take(n as int) =~= voices);
        }
        value
    }

    /// The voices as they are after `frames` frames.
    fn advanced(&self, frames: usize) -> (kept: Vec<PlayingSound>)
        requires
            self.wf(),
        ensures
            kept@ == advance_voices(self.bank(), self.voices(), frames as int),
            forall|k: int|
                0 <= k < kept@.len() ==> self.bank().dom().contains(#[trigger] kept@[k].handle),
    {
        let ghost bank = self.bank();
        let ghost voices = self.voices();
        let ghost pred = lasts_beyond(bank, frames as int);
        let ghost step = moved_on(frames as int);
        let n: usize = self.playing.len();
        let mut kept: Vec<PlayingSound> = Vec::new();
        let mut v: usize = 0;
        proof {
            assert(voices.take(0) =~= Seq::<PlayingSound>::empty());
            assert(voices.take(0).filter(pred).map_values(step) =~= Seq::<PlayingSound>::empty());
        }
        while v < n
            invariant
                v <= n,
                n == self.playing@.len(),
                self.wf(),
                bank == self.bank(),
                voices == self.voices(),
                pred == lasts_beyond(bank, frames as int),
                step == moved_on(frames as int),
                kept@ == voices.take(v as int).filter(pred).map_values(step),
                forall|k: int| 0 <= k < kept@.len() ==> bank.dom().contains(#[trigger] kept@[k].handle),
            decreases n - v,
        {
            let voice: PlayingSound = self.playing[v];
            assert(voices[v as int] == voice);
            let sound = self.sample(voice.handle);
            let lasts: bool = voice.pos < sound.len() && frames < sound.len() - voice.pos;
            proof {
                let before = voices.take(v as int);
                assert(voices.take(v + 1) =~= before.push(voice));
                before.lemma_filter_push(voice, pred);
                assert(pred(voice) == lasts);
                if lasts {
                    assert(before.push(voice).filter(pred).map_values(step) =~= before.filter(
                        pred,
                    ).map_values(step).push(step(voice)));
                }
            }
            if lasts {
                kept.push(PlayingSound { pos: voice.pos + frames, handle: voice.handle });
            }
            v = v + 1;
        }
        proof {
            assert(voices.take(n as int) =~= voices);
        }
        kept
    }

    /// Mixes the next frames and moves every voice on by as many.
    ///
    /// `avail` is the number of frames that the output device can take now.
    /// The result holds the smaller of that and the chunk size in frames,
    /// interleaved, each channel of a frame carrying the mixed value. When
    /// the device can take nothing, nothing is mixed and no voice moves.
    /// A voice whose sample ends within these frames is gone afterwards.
    pub fn update(&mut self, avail: usize, volume: Volume) -> (buffer: Vec<i16>)
        requires
            old(self).wf(),
            volume.wf(),
        ensures
            final(self).wf(),
            final(self).bank() == old(self).bank(),
            final(self).channels() == old(self).channels(),
            final(self).chunk() == old(self).chunk(),
            buffer@.len() == frames_to_write(old(self).chunk(), avail as int) * old(self).channels(),
            forall|i: int|
                0 <= i < buffer@.len() ==> #[trigger] buffer@[i] == mixed(
                    old(self).bank(),
                    old(self).voices(),
                    i / old(self).channels(),
                    volume.value(),
                ),
            final(self).voices() == if frames_to_write(old(self).chunk(), avail as int) == 0 {
                old(self).voices()
            } else {
                advance_voices(
                    old(self).bank(),
                    old(self).voices(),
                    frames_to_write(old(self).chunk(), avail as int),
                )
            },
            frames_to_write(old(self).chunk(), avail as int) > 0 ==> forall|k: int|
                0 <= k < final(self).voices().len() ==> (#[trigger] final(self).voices()[k]).pos
                    < old(self).bank()[final(self).voices()[k].handle].len(),
    {
        let frames: usize = if self.buffer_frame_size <= avail {
            self.buffer_frame_size
        } else {
            avail
        };
        let mut buffer: Vec<i16> = Vec::new();
        if frames == 0 {
            assert(0 * self.channels == 0);
            return buffer;
        }
        let ghost bank = self.bank();
        let ghost voices = self.voices();
        let ghost gain = volume.value();
        let channels: u32 = self.channels;
        let mut frame: usize = 0;
        while frame < frames
            invariant
                frame <= frames,
                self.wf(),
                volume.wf(),
                bank == self.bank(),
                voices == self.voices(),
                gain == volume.value(),
                channels == self.channels,
                buffer@.len() == frame * channels,
                forall|i: int|
                    0 <= i < buffer@.len() ==> #[trigger] buffer@[i] == mixed(
                        bank,
                        voices,
                        i / (channels as int),
                        gain,
                    ),
            decreases frames - frame,
        {
            let value: i16 = self.mix_frame(frame, volume);
            let mut channel: u32 = 0;
            while channel < channels
                invariant
                    channel <= channels,
                    value == mixed(bank, voices, frame as int, gain),
                    buffer@.len() == frame * channels + channel,
                    forall|i: int|
                        0 <= i < buffer@.len() ==> #[trigger] buffer@[i] == mixed(
                            bank,
                            voices,
                            i / (channels as int),
                            gain,
                        ),
                decreases channels - channel,
            {
                proof {
                    vstd::arithmetic::div_mod::lemma_fundamental_div_mod_converse(
                        frame * channels + channel,
                        channels as int,
                        frame as int,
                        channel as int,
                    );
                }
                buffer.push(value);
                channel = channel + 1;
            }
            assert((frame + 1) * channels == frame * channels + channels) by (nonlinear_arith);
            frame = frame + 1;
        }
        let kept = self.advanced(frames);
        proof {
            assert forall|k: int| 0 <= k < kept@.len() implies (#[trigger] kept@[k]).pos
                < bank[kept@[k].handle].len() by {
                assert forall|j: int| 0 <= j < voices.len() implies bank[(
                #[trigger] voices[j]).handle].len() <= usize::MAX by {
                    self.lemma_bank_fits(voices[j].handle);
                }
                lemma_advanced_voices_last(bank, voices, frames as int, k);
            }
        }
        self.playing = kept;
        buffer
    }
}

} // verus!
