//! Looping patterns and the sequencer that plays them against a tempo clock.

use vstd::prelude::*;

use crate::sound::Beat;
use crate::sound::Instrument;
use crate::sound::NoteEvent;
use crate::sound::TICKS_PER_BEAT;
use crate::time::elapsed;
use crate::time::since;
use crate::units::Bpm;

verus! {

/// The built-in patterns.
#[derive(Debug, Clone, Copy, PartialEq, Eq, Structural)]
pub enum ScoreType {
    Empty,
    Standard,
    Funky,
}

impl ScoreType {
    /// The position of this pattern in cyclic order.
    pub open spec fn index(self) -> nat {
        match self {
            ScoreType::Empty => 0,
            ScoreType::Standard => 1,
            ScoreType::Funky => 2,
        }
    }

    /// The pattern at `index`, starting over after the last one.
    pub open spec fn of_index(index: int) -> ScoreType {
        if index % 3 == 0 {
            ScoreType::Empty
        } else if index % 3 == 1 {
            ScoreType::Standard
        } else {
            ScoreType::Funky
        }
    }

    /// Picks the pattern at `index`, starting over after the last one.
    pub fn from_index(index: usize) -> (r: Self)
        ensures
            r == Self::of_index(index as int),
            r.index() == index % 3,
    {
        let k: usize = index % 3;
        if k == 0 {
            ScoreType::Empty
        } else if k == 1 {
            ScoreType::Standard
        } else {
            ScoreType::Funky
        }
    }

    /// The position of this pattern in cyclic order.
    pub fn to_index(self) -> (r: usize)
        ensures
            r == self.index(),
    {
        match self {
            ScoreType::Empty => 0,
            ScoreType::Standard => 1,
            ScoreType::Funky => 2,
        }
    }

    /// The tracks of this pattern, with each note in ticks from the start of
    /// the loop.
    pub open spec fn tracks(self) -> Seq<(Instrument, Seq<Beat>)> {
        match self {
            ScoreType::Empty => Seq::empty(),
            ScoreType::Standard => seq![
                (
                    Instrument::HiHat,
                    seq![
                        half_beats(0),
                        half_beats(4),
                        half_beats(8),
                        half_beats(12),
                        half_beats(16),
                        half_beats(20),
                        half_beats(24),
                        half_beats(28),
                    ],
                ),
                (Instrument::Snare, seq![half_beats(8), half_beats(24)]),
                (Instrument::BassDrum, seq![half_beats(0), half_beats(16)]),
            ],
            ScoreType::Funky => seq![
                (
                    Instrument::HiHat,
                    seq![
                        half_beats(0),
                        half_beats(2),
                        half_beats(4),
                        half_beats(6),
                        half_beats(8),
                        half_beats(11),
                        half_beats(12),
                        half_beats(14),
                        half_beats(15),
                    ],
                ),
                (Instrument::Snare, seq![half_beats(4), half_beats(12)]),
                (Instrument::BassDrum, seq![half_beats(0), half_beats(6), half_beats(8), half_beats(14)]),
            ],
        }
    }

    /// The loop length of this pattern in ticks: sixteen beats for the
    /// standard pattern, eight for the others.
    pub open spec fn loop_length(self) -> int {
        match self {
            ScoreType::Standard => 16 * TICKS_PER_BEAT,
            _ => 8 * TICKS_PER_BEAT,
        }
    }

    /// A name of four letters for a small display.
    pub fn to_string(self) -> (r: String)
        ensures
            r@ == match self {
                ScoreType::Empty => "None"@,
                ScoreType::Standard => "Stnd"@,
                ScoreType::Funky => "Funk"@,
            },
    {
        match self {
            ScoreType::Empty => "None".to_owned(),
            ScoreType::Standard => "Stnd".to_owned(),
            ScoreType::Funky => "Funk".to_owned(),
        }
    }

    /// A sequencer at the start of this pattern.
    pub fn apply(self) -> (r: Score)
        ensures
            r.wf(),
            r.kind() == self,
            r.pattern() == self.tracks(),
            r.length() == self.loop_length(),
            r.beat() == 0,
            r.anchor().is_none(),
    {
        match self {
            ScoreType::Empty => Score::empty(),
            ScoreType::Standard => Score::standard(),
            ScoreType::Funky => Score::funky(),
        }
    }
}

/// Ticks in half a beat.
pub const HALF_BEAT: Beat = 30_000_000_000_000;

/// The position `n` half beats into a loop.
pub open spec fn spec_half_beats(n: u32) -> Beat {
    (n * HALF_BEAT) as Beat
}

/// The position `n` half beats into a loop.
#[verifier::when_used_as_spec(spec_half_beats)]
pub fn half_beats(n: u32) -> (r: Beat)
    ensures
        r == spec_half_beats(n),
        r == n * HALF_BEAT,
{
    assert(n * HALF_BEAT <= u32::MAX * HALF_BEAT) by (nonlinear_arith)
        requires
            0 <= n <= u32::MAX,
    ;
    n as Beat * HALF_BEAT
}

/// The `k`-th repetition of a note that sits `offset` ticks into a loop of
/// `length` ticks.
pub open spec fn occurrence(offset: int, length: int, k: int) -> int {
    offset + k * length
}

/// Whether some repetition of the note at `offset` falls strictly between
/// `start` and `end`.
pub open spec fn note_due(offset: int, length: int, start: int, end: int) -> bool {
    exists|k: int| 0 <= k && start < #[trigger] occurrence(offset, length, k) < end
}

/// The distance from `start` to the first repetition of the note at `offset`
/// that lies strictly after `start`.
pub open spec fn gap_to_next(offset: int, length: int, start: int) -> int {
    if start < offset {
        offset - start
    } else {
        length - (start - offset) % length
    }
}

proof fn lemma_mul_step(k: int, q: int, length: int)
    requires
        0 < length,
    ensures
        k * length > q * length ==> k > q,
        k >= q + 1 ==> k * length >= q * length + length,
        (q + 1) * length == q * length + length,
{
    assert(k * length > q * length ==> k > q) by (nonlinear_arith)
        requires
            0 < length,
    ;
    assert(k >= q + 1 ==> k * length >= q * length + length) by (nonlinear_arith)
        requires
            0 < length,
    ;
    assert((q + 1) * length == q * length + length) by (nonlinear_arith);
}

/// A note is due exactly when the first of its repetitions after `start`
/// comes before `end`.
pub proof fn lemma_note_due_gap(offset: int, length: int, start: int, end: int)
    requires
        0 <= offset < length,
        0 <= start,
    ensures
        0 < gap_to_next(offset, length, start),
        start >= offset ==> gap_to_next(offset, length, start) <= length,
        note_due(offset, length, start, end) <==> start + gap_to_next(offset, length, start) < end,
{
    let gap = gap_to_next(offset, length, start);
    if start < offset {
        assert(occurrence(offset, length, 0) == offset);
        if note_due(offset, length, start, end) {
            let k = choose|k: int| 0 <= k && start < #[trigger] occurrence(offset, length, k) < end;
            lemma_mul_step(k, -1, length);
            assert(k * length >= 0);
        }
    } else {
        let d = start - offset;
        let q = d / length;
        let r = d % length;
        vstd::arithmetic::div_mod::lemma_fundamental_div_mod(d, length);
        vstd::arithmetic::div_mod::lemma_mod_bound(d, length);
        assert(d == length * q + r);
        assert(length * q == q * length) by (nonlinear_arith);
        lemma_mul_step(q + 1, q, length);
        assert(occurrence(offset, length, q + 1) == start + gap);
        vstd::arithmetic::div_mod::lemma_div_pos_is_pos(d, length);
        if note_due(offset, length, start, end) {
            let k = choose|k: int| 0 <= k && start < #[trigger] occurrence(offset, length, k) < end;
            lemma_mul_step(k, q, length);
        }
    }
}

/// Decides whether the note at `offset` is due in the tick that starts at
/// `start` and lasts `elapsed` ticks.
pub fn is_due(offset: Beat, length: Beat, start: Beat, elapsed: Beat) -> (r: bool)
    requires
        offset < length,
    ensures
        r == note_due(offset as int, length as int, start as int, start + elapsed),
{
    proof {
        lemma_note_due_gap(offset as int, length as int, start as int, start + elapsed);
    }
    if start < offset {
        offset - start < elapsed
    } else {
        length - (start - offset) % length < elapsed
    }
}

/// The ticks that the beat axis moves from `prev` to `now` at a tempo of
/// `tempo` thousandths of a beat per minute.
pub open spec fn elapsed_ticks(tempo: int, prev: u64, now: u64) -> int {
    since(prev, now) * tempo
}

/// The test that picks the due notes of a track.
pub open spec fn due_pred(length: int, start: int, end: int) -> spec_fn(Beat) -> bool {
    |offset: Beat| note_due(offset as int, length, start, end)
}

/// The event that any note of `instrument` gives.
pub open spec fn event_of(instrument: Instrument) -> spec_fn(Beat) -> NoteEvent {
    |offset: Beat| NoteEvent { instrument }
}

/// One event for each due note of a track, in the order of its notes.
pub open spec fn track_events(
    track: (Instrument, Seq<Beat>),
    length: int,
    start: int,
    end: int,
) -> Seq<NoteEvent> {
    track.1.filter(due_pred(length, start, end)).map_values(event_of(track.0))
}

/// The events of all tracks, track after track.
pub open spec fn due_events(
    pattern: Seq<(Instrument, Seq<Beat>)>,
    length: int,
    start: int,
    end: int,
) -> Seq<NoteEvent> {
    pattern.map_values(|track: (Instrument, Seq<Beat>)| track_events(track, length, start, end))
        .flatten()
}

/// Adding a track to a pattern appends its events to those of the pattern.
pub proof fn lemma_due_events_push(
    pattern: Seq<(Instrument, Seq<Beat>)>,
    track: (Instrument, Seq<Beat>),
    length: int,
    start: int,
    end: int,
)
    ensures
        due_events(pattern.push(track), length, start, end) == due_events(
            pattern,
            length,
            start,
            end,
        ) + track_events(track, length, start, end),
{
    let per_track = |track: (Instrument, Seq<Beat>)| track_events(track, length, start, end);
    let before = pattern.map_values(per_track);
    assert(pattern.push(track).map_values(per_track) =~= before.push(per_track(track)));
    before.lemma_flatten_push(per_track(track));
}

/// A track reports an event exactly when the event names its instrument and
/// one of its notes is due.
pub proof fn lemma_track_events_contains(
    track: (Instrument, Seq<Beat>),
    length: int,
    start: int,
    end: int,
    event: NoteEvent,
)
    ensures
        track_events(track, length, start, end).contains(event) <==> track.0 == event.instrument
            && exists|j: int|
            0 <= j < track.1.len() && note_due(#[trigger] track.1[j] as int, length, start, end),
{
    let pred = due_pred(length, start, end);
    let make = event_of(track.0);
    let kept = track.1.filter(pred);
    let events = kept.map_values(make);
    if events.contains(event) {
        let k = choose|k: int| 0 <= k < events.len() && events[k] == event;
        assert(events[k] == make(kept[k]));
        track.1.lemma_filter_pred(pred, k);
        assert(kept.contains(kept[k]));
        track.1.lemma_filter_contains_rev(pred, kept[k]);
        let j = choose|j: int| 0 <= j < track.1.len() && track.1[j] == kept[k];
        assert(note_due(track.1[j] as int, length, start, end));
    }
    if track.0 == event.instrument && exists|j: int|
        0 <= j < track.1.len() && note_due(#[trigger] track.1[j] as int, length, start, end) {
        let j = choose|j: int|
            0 <= j < track.1.len() && note_due(#[trigger] track.1[j] as int, length, start, end);
        assert(pred(track.1[j]));
        track.1.lemma_filter_contains(pred, j);
        let k = choose|k: int| 0 <= k < kept.len() && kept[k] == track.1[j];
        assert(events[k] == event);
    }
}

/// The sequencer reports an event exactly when some track of the event's
/// instrument holds a note of which a repetition lies strictly between
/// `start` and `end`.
pub proof fn lemma_due_events_contains(
    pattern: Seq<(Instrument, Seq<Beat>)>,
    length: int,
    start: int,
    end: int,
    event: NoteEvent,
)
    ensures
        due_events(pattern, length, start, end).contains(event) <==> exists|i: int, j: int|
            0 <= i < pattern.len() && 0 <= j < pattern[i].1.len() && pattern[i].0
                == event.instrument && note_due(
                #[trigger] pattern[i].1[j] as int,
                length,
                start,
                end,
            ),
    decreases pattern.len(),
{
    let found = |p: Seq<(Instrument, Seq<Beat>)>|
        exists|i: int, j: int|
            0 <= i < p.len() && 0 <= j < p[i].1.len() && p[i].0 == event.instrument && note_due(
                #[trigger] p[i].1[j] as int,
                length,
                start,
                end,
            );
    if pattern.len() == 0 {
        assert(pattern.map_values(
            |track: (Instrument, Seq<Beat>)| track_events(track, length, start, end),
        ) =~= Seq::<Seq<NoteEvent>>::empty());
        assert(due_events(pattern, length, start, end) =~= Seq::<NoteEvent>::empty());
    } else {
        let rest = pattern.drop_last();
        let track = pattern.last();
        assert(pattern =~= rest.push(track));
        lemma_due_events_push(rest, track, length, start, end);
        lemma_due_events_contains(rest, length, start, end, event);
        lemma_track_events_contains(track, length, start, end, event);
        let head = due_events(rest, length, start, end);
        let tail = track_events(track, length, start, end);
        let all = due_events(pattern, length, start, end);
        assert(all == head + tail);
        if all.contains(event) {
            let k = choose|k: int| 0 <= k < all.len() && all[k] == event;
            if k < head.len() {
                assert(head[k] == event);
                assert(found(rest));
                let (i, j) = choose|i: int, j: int|
                    0 <= i < rest.len() && 0 <= j < rest[i].1.len() && rest[i].0
                        == event.instrument && note_due(
                        #[trigger] rest[i].1[j] as int,
                        length,
                        start,
                        end,
                    );
                assert(pattern[i].1[j] == rest[i].1[j]);
            } else {
                assert(tail[k - head.len()] == event);
                let j = choose|j: int|
                    0 <= j < track.1.len() && note_due(
                        #[trigger] track.1[j] as int,
                        length,
                        start,
                        end,
                    );
                assert(pattern[pattern.len() - 1].1[j] == track.1[j]);
            }
            assert(found(pattern));
        }
        if found(pattern) {
            let (i, j) = choose|i: int, j: int|
                0 <= i < pattern.len() && 0 <= j < pattern[i].1.len() && pattern[i].0
                    == event.instrument && note_due(
                    #[trigger] pattern[i].1[j] as int,
                    length,
                    start,
                    end,
                );
            if i < rest.len() {
                assert(rest[i].1[j] == pattern[i].1[j]);
                assert(found(rest));
                let k = choose|k: int| 0 <= k < head.len() && head[k] == event;
                assert(all[k] == event);
            } else {
                assert(track.1[j] == pattern[i].1[j]);
                let k = choose|k: int| 0 <= k < tail.len() && tail[k] == event;
                assert(all[head.len() + k] == event);
            }
        }
    }
}

/// A tick in which the beat time does not move reports nothing.
pub proof fn lemma_empty_tick_is_silent(
    pattern: Seq<(Instrument, Seq<Beat>)>,
    length: int,
    start: int,
)
    ensures
        due_events(pattern, length, start, start).len() == 0,
{
    let events = due_events(pattern, length, start, start);
    if events.len() > 0 {
        assert(events.contains(events[0]));
        lemma_due_events_contains(pattern, length, start, start, events[0]);
    }
}

/// In a tick no longer than the loop, a note of which a repetition falls on
/// `start` or on `end` is not due: the first was reported by the tick before,
/// the second is left to the tick after.
pub proof fn lemma_boundary_note_not_due(offset: int, length: int, start: int, end: int, k: int)
    requires
        0 < length,
        end - start <= length,
        occurrence(offset, length, k) == start || occurrence(offset, length, k) == end,
    ensures
        !note_due(offset, length, start, end),
{
    if note_due(offset, length, start, end) {
        let m = choose|m: int| 0 <= m && start < #[trigger] occurrence(offset, length, m) < end;
        assert((m - k) * length == m * length - k * length) by (nonlinear_arith);
        let d = m - k;
        assert(-length < d * length < length);
        assert(d == 0) by (nonlinear_arith)
            requires
                0 < length,
                -length < d * length < length,
        ;
    }
}

/// Whether every note of a pattern lies inside a loop of `length` ticks.
pub open spec fn pattern_fits(pattern: Seq<(Instrument, Seq<Beat>)>, length: int) -> bool {
    forall|i: int, j: int|
        0 <= i < pattern.len() && 0 <= j < pattern[i].1.len() ==> (#[trigger] pattern[i].1[j])
            < length
}

/// The tracks as plain data.
pub open spec fn pattern_of(tracks: Seq<Track>) -> Seq<(Instrument, Seq<Beat>)> {
    tracks.map_values(|track: Track| track.view())
}

/// One instrument and the places in the loop where it sounds.
pub struct Track {
    pub instrument: Instrument,
    pub notes: Vec<Beat>,
}

impl Track {
    /// The track as plain data.
    pub open spec fn view(self) -> (Instrument, Seq<Beat>) {
        (self.instrument, self.notes@)
    }

    /// Whether every note of this track lies inside a loop of `length` ticks.
    pub fn fits(&self, length: Beat) -> (r: bool)
        ensures
            r == forall|j: int| 0 <= j < self.notes@.len() ==> self.notes@[j] < length,
    {
        let n: usize = self.notes.len();
        let mut j: usize = 0;
        while j < n
            invariant
                j <= n,
                n == self.notes@.len(),
                forall|k: int| 0 <= k < j ==> self.notes@[k] < length,
            decreases n - j,
        {
            if self.notes[j] >= length {
                return false;
            }
            j = j + 1;
        }
        true
    }

    /// Appends to `events` one event for each note of this track that is due
    /// in the tick that starts at `start` and lasts `elapsed` ticks.
    fn collect(&self, length: Beat, start: Beat, elapsed: Beat, events: &mut Vec<NoteEvent>)
        requires
            forall|j: int| 0 <= j < self.notes@.len() ==> self.notes@[j] < length,
        ensures
            final(events)@ == old(events)@ + track_events(
                self.view(),
                length as int,
                start as int,
                start + elapsed,
            ),
    {
        let ghost pred = due_pred(length as int, start as int, start + elapsed);
        let ghost make = event_of(self.instrument);
        let n: usize = self.notes.len();
        let mut j: usize = 0;
        proof {
            assert(self.notes@.take(0) =~= Seq::<Beat>::empty());
            assert(self.notes@.take(0).filter(pred).map_values(make) =~= Seq::<NoteEvent>::empty());
            assert(events@ =~= old(events)@ + Seq::<NoteEvent>::empty());
        }
        while j < n
            invariant
                j <= n,
                n == self.notes@.len(),
                forall|j: int| 0 <= j < self.notes@.len() ==> self.notes@[j] < length,
                pred == due_pred(length as int, start as int, start + elapsed),
                make == event_of(self.instrument),
                events@ == old(events)@ + self.notes@.take(j as int).filter(pred).map_values(make),
            decreases n - j,
        {
            let offset: Beat = self.notes[j];
            let due: bool = is_due(offset, length, start, elapsed);
            proof {
                let before = self.notes@.take(j as int);
                assert(self.notes@.take(j + 1) =~= before.push(offset));
                before.lemma_filter_push(offset, pred);
                assert(pred(offset) == due);
                if due {
                    assert(before.push(offset).filter(pred).map_values(make) =~= before.filter(
                        pred,
                    ).map_values(make).push(make(offset)));
                }
            }
            if due {
                events.push(NoteEvent { instrument: self.instrument });
            }
            j = j + 1;
        }
        proof {
            assert(self.notes@.take(n as int) =~= self.notes@);
        }
    }
}

/// A pattern together with the running position of the sequencer in it.
pub struct Score {
    tracks: Vec<Track>,
    length: Beat,
    prev: Option<u64>,
    beat_time: Beat,
    pub t: ScoreType,
}

impl Score {
    /// The tracks of the pattern as plain data.
    pub closed spec fn pattern(self) -> Seq<(Instrument, Seq<Beat>)> {
        pattern_of(self.tracks@)
    }

    /// The loop length in ticks.
    pub closed spec fn length(self) -> int {
        self.length as int
    }

    /// The beat time reached so far, in ticks. It is never folded into the
    /// loop.
    pub closed spec fn beat(self) -> int {
        self.beat_time as int
    }

    /// The clock reading of the last update, if there was one.
    pub closed spec fn anchor(self) -> Option<u64> {
        self.prev
    }

    /// Which built-in pattern this is.
    pub closed spec fn kind(self) -> ScoreType {
        self.t
    }

    /// The loop has a positive length and holds every note.
    pub open spec fn wf(self) -> bool {
        &&& 0 < self.length() <= Beat::MAX
        &&& 0 <= self.beat() <= Beat::MAX
        &&& pattern_fits(self.pattern(), self.length())
    }

    /// The beat time after an update at clock reading `now` and a tempo of
    /// `tempo` thousandths of a beat per minute.
    pub open spec fn next_beat(self, tempo: int, now: u64) -> int {
        match self.anchor() {
            None => self.beat(),
            Some(prev) => self.beat() + elapsed_ticks(tempo, prev, now),
        }
    }

    /// The events that an update at clock reading `now` and tempo `tempo`
    /// gives: none without an anchor, else those of the notes that are due
    /// between the old and the new beat time.
    pub open spec fn events_at(self, tempo: int, now: u64) -> Seq<NoteEvent> {
        match self.anchor() {
            None => Seq::empty(),
            Some(prev) => due_events(
                self.pattern(),
                self.length(),
                self.beat(),
                self.next_beat(tempo, now),
            ),
        }
    }

    /// Whether the beat time after an update still fits its type.
    pub open spec fn can_update(self, tempo: int, now: u64) -> bool {
        self.next_beat(tempo, now) <= Beat::MAX
    }

    /// A sequencer at the start of a pattern of one's own, or nothing if the
    /// loop is empty or a note lies outside it.
    pub fn new(tracks: Vec<Track>, length: Beat, t: ScoreType) -> (r: Option<Self>)
        ensures
            r.is_some() <==> 0 < length && pattern_fits(pattern_of(tracks@), length as int),
            r.is_some() ==> {
                let score = r.unwrap();
                &&& score.wf()
                &&& score.kind() == t
                &&& score.pattern() == pattern_of(tracks@)
                &&& score.length() == length
                &&& score.beat() == 0
                &&& score.anchor().is_none()
            },
    {
        if length == 0 {
            return None;
        }
        let ghost pattern = pattern_of(tracks@);
        let n: usize = tracks.len();
        let mut i: usize = 0;
        while i < n
            invariant
                i <= n,
                n == tracks@.len(),
                pattern == pattern_of(tracks@),
                forall|a: int, b: int|
                    0 <= a < i && 0 <= b < pattern[a].1.len() ==> (#[trigger] pattern[a].1[b])
                        < length,
            decreases n - i,
        {
            if !tracks[i].fits(length) {
                proof {
                    let b = choose|b: int|
                        0 <= b < tracks@[i as int].notes@.len() && !(tracks@[i as int].notes@[b]
                            < length);
                    assert(!(pattern[i as int].1[b] < length));
                }
                return None;
            }
            i = i + 1;
        }
        Some(Score { tracks, length, prev: None, beat_time: 0, t })
    }

    /// A sequencer at the start of the pattern without notes.
    pub fn empty() -> (r: Self)
        ensures
            r.wf(),
            r.kind() == ScoreType::Empty,
            r.pattern() == ScoreType::Empty.tracks(),
            r.length() == ScoreType::Empty.loop_length(),
            r.beat() == 0,
            r.anchor().is_none(),
    {
        let tracks: Vec<Track> = Vec::new();
        proof {
            assert(pattern_of(tracks@) =~= ScoreType::Empty.tracks());
        }
        Score { tracks, length: 16 * HALF_BEAT, prev: None, beat_time: 0, t: ScoreType::Empty }
    }

    /// A sequencer at the start of the standard rock pattern: a hi-hat on
    /// every other beat, the snare on the fifth and the bass drum on the
    /// first of every eight.
    pub fn standard() -> (r: Self)
        ensures
            r.wf(),
            r.kind() == ScoreType::Standard,
            r.pattern() == ScoreType::Standard.tracks(),
            r.length() == ScoreType::Standard.loop_length(),
            r.beat() == 0,
            r.anchor().is_none(),
    {
        let hihat = Track {
            instrument: Instrument::HiHat,
            notes: vec![
                half_beats(0),
                half_beats(4),
                half_beats(8),
                half_beats(12),
                half_beats(16),
                half_beats(20),
                half_beats(24),
                half_beats(28),
            ],
        };
        let snare = Track {
            instrument: Instrument::Snare,
            notes: vec![half_beats(8), half_beats(24)],
        };
        let bassdrum = Track {
            instrument: Instrument::BassDrum,
            notes: vec![half_beats(0), half_beats(16)],
        };
        let tracks: Vec<Track> = vec![hihat, snare, bassdrum];
        proof {
            let want = ScoreType::Standard.tracks();
            let have = pattern_of(tracks@);
            assert(have[0].1 =~= want[0].1);
            assert(have[1].1 =~= want[1].1);
            assert(have[2].1 =~= want[2].1);
            assert(have =~= want);
            assert(pattern_fits(have, 32 * HALF_BEAT));
        }
        Score { tracks, length: 32 * HALF_BEAT, prev: None, beat_time: 0, t: ScoreType::Standard }
    }

    /// A sequencer at the start of the funky pattern.
    pub fn funky() -> (r: Self)
        ensures
            r.wf(),
            r.kind() == ScoreType::Funky,
            r.pattern() == ScoreType::Funky.tracks(),
            r.length() == ScoreType::Funky.loop_length(),
            r.beat() == 0,
            r.anchor().is_none(),
    {
        let hihat = Track {
            instrument: Instrument::HiHat,
            notes: vec![
                half_beats(0),
                half_beats(2),
                half_beats(4),
                half_beats(6),
                half_beats(8),
                half_beats(11),
                half_beats(12),
                half_beats(14),
                half_beats(15),
            ],
        };
        let snare = Track {
            instrument: Instrument::Snare,
            notes: vec![half_beats(4), half_beats(12)],
        };
        let bassdrum = Track {
            instrument: Instrument::BassDrum,
            notes: vec![half_beats(0), half_beats(6), half_beats(8), half_beats(14)],
        };
        let tracks: Vec<Track> = vec![hihat, snare, bassdrum];
        proof {
            let want = ScoreType::Funky.tracks();
            let have = pattern_of(tracks@);
            assert(have[0].1 =~= want[0].1);
            assert(have[1].1 =~= want[1].1);
            assert(have[2].1 =~= want[2].1);
            assert(have =~= want);
            assert(pattern_fits(have, 16 * HALF_BEAT));
        }
        Score { tracks, length: 16 * HALF_BEAT, prev: None, beat_time: 0, t: ScoreType::Funky }
    }

    /// Whether the beat time after an update at `now` fits its type at every
    /// tempo.
    pub open spec fn has_room(self, now: u64) -> bool {
        match self.anchor() {
            None => true,
            Some(prev) => self.beat() + since(prev, now) * Bpm::MAX <= Beat::MAX,
        }
    }

    /// With room for every tempo there is room for the given one.
    pub proof fn lemma_has_room(self, bpm: Bpm, now: u64)
        requires
            bpm.wf(),
            self.has_room(now),
        ensures
            self.can_update(bpm.value(), now),
    {
        match self.anchor() {
            None => {},
            Some(prev) => {
                let nanos = since(prev, now);
                let tempo = bpm.value();
                assert(nanos * tempo <= nanos * Bpm::MAX) by (nonlinear_arith)
                    requires
                        0 <= nanos,
                        tempo <= Bpm::MAX,
                ;
            },
        }
    }

    /// Tells whether the beat time after an update at `now` fits its type
    /// at every tempo.
    pub fn fits(&self, now: u64) -> (r: bool)
        requires
            self.wf(),
        ensures
            r == self.has_room(now),
    {
        match self.prev {
            None => true,
            Some(prev) => {
                let nanos: u64 = elapsed(prev, now);
                assert(nanos * Bpm::MAX <= u64::MAX * Bpm::MAX) by (nonlinear_arith)
                    requires
                        0 <= nanos <= u64::MAX,
                ;
                let most: u128 = nanos as u128 * Bpm::MAX as u128;
                most <= Beat::MAX - self.beat_time
            },
        }
    }

    /// Advances the sequencer to the clock reading `now`, in nanoseconds, at
    /// tempo `bpm`, and returns the notes that became due.
    ///
    /// The first update only records `now`. Each later one moves the beat
    /// time by the elapsed time times the tempo and reports a note when one
    /// of its repetitions lies strictly between the old and the new beat
    /// time.
    pub fn update(&mut self, bpm: Bpm, now: u64) -> (events: Vec<NoteEvent>)
        requires
            old(self).wf(),
            bpm.wf(),
            old(self).can_update(bpm.value(), now),
        ensures
            final(self).wf(),
            final(self).pattern() == old(self).pattern(),
            final(self).length() == old(self).length(),
            final(self).kind() == old(self).kind(),
            final(self).anchor() == Some(now),
            final(self).beat() == old(self).next_beat(bpm.value(), now),
            final(self).beat() >= old(self).beat(),
            events@ == old(self).events_at(bpm.value(), now),
            old(self).anchor() == Some(now) ==> events@.len() == 0 && final(self).beat() == old(self).beat(),
    {
        let prev: u64 = match self.prev {
            None => {
                self.prev = Some(now);
                return Vec::new();
            },
            Some(prev) => prev,
        };
        let nanos: u64 = elapsed(prev, now);
        let tempo: u32 = bpm.as_milli_bpm();
        assert(nanos * tempo <= u64::MAX * u32::MAX) by (nonlinear_arith)
            requires
                0 <= nanos <= u64::MAX,
                0 <= tempo <= u32::MAX,
        ;
        let elapsed: Beat = nanos as u128 * tempo as u128;
        let start: Beat = self.beat_time;
        let end: Beat = start + elapsed;

        let ghost pattern = self.pattern();
        let ghost per_track = |track: (Instrument, Seq<Beat>)|
            track_events(track, self.length as int, start as int, end as int);
        let mut events: Vec<NoteEvent> = Vec::new();
        let n: usize = self.tracks.len();
        let mut i: usize = 0;
        proof {
            assert(pattern.take(0).map_values(per_track) =~= Seq::<Seq<NoteEvent>>::empty());
        }
        while i < n
            invariant
                i <= n,
                n == self.tracks@.len(),
                pattern == self.pattern(),
                pattern_fits(pattern, self.length as int),
                end == start + elapsed,
                per_track == |track: (Instrument, Seq<Beat>)|
                    track_events(track, self.length as int, start as int, end as int),
                events@ == pattern.take(i as int).map_values(per_track).flatten(),
            decreases n - i,
        {
            let track = &self.tracks[i];
            proof {
                assert(pattern[i as int] == track.view());
                assert forall|j: int| 0 <= j < track.notes@.len() implies track.notes@[j]
                    < self.length by {
                    assert(pattern[i as int].1[j] < self.length);
                }
                let before = pattern.take(i as int).map_values(per_track);
                assert(pattern.take(i + 1).map_values(per_track) =~= before.push(
                    per_track(track.view()),
                ));
                before.lemma_flatten_push(per_track(track.view()));
            }
            track.collect(self.length, start, elapsed, &mut events);
            i = i + 1;
        }
        proof {
            assert(pattern.take(n as int) =~= pattern);
            if prev == now {
                lemma_empty_tick_is_silent(pattern, self.length as int, start as int);
            }
        }
        self.beat_time = end;
        self.prev = Some(now);
        events
    }

    /// The beat time reached so far, in ticks.
    pub fn get_beat(&self) -> (r: Beat)
        ensures
            r == self.beat(),
    {
        self.beat_time
    }

    /// Moves the sequencer to beat time `beat` and leaves all else as it is.
    pub fn set_beat(&mut self, beat: Beat)
        ensures
            final(self).beat() == beat,
            final(self).pattern() == old(self).pattern(),
            final(self).length() == old(self).length(),
            final(self).anchor() == old(self).anchor(),
            final(self).kind() == old(self).kind(),
            old(self).wf() ==> final(self).wf(),
    {
        self.beat_time = beat;
    }
}

} // verus!
