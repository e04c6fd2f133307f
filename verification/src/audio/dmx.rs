//! A MUS song read event by event, optionally looping forever.
use vstd::prelude::*;
use crate::midi::{MidiCommand, MidiSink, send_midi_command, sent_for};
use crate::wad::mus::{
    MusError, apply_velocity_update, decode_mus_event, lemma_event_length, mus_song_range,
    spec_decode_mus_event, spec_mus_song_range, stream_byte, midi_channel_of,
};

verus! {

/// Samples rendered per tick of MUS delay: a song's ticks last 1/140 second
/// and the synthesizer renders 44100 samples per second per channel.
pub const SAMPLES_PER_TICK: usize = 315;

/// How many samples, per channel, a delay of `delay` ticks lasts.
pub fn samples_for_delay(delay: usize) -> (r: usize)
    requires
        SAMPLES_PER_TICK * delay <= usize::MAX,
    ensures
        r == SAMPLES_PER_TICK * delay,
        r == 44100 * delay / 140,
{
    assert(315 * delay == 44100 * delay / 140) by (nonlinear_arith);
    SAMPLES_PER_TICK * delay
}

/// The song data of a MUS lump, the position of the next event in it, the
/// velocity last given to each of the 16 channels, and whether the song loops.
pub struct MusStream {
    data: Vec<u8>,
    data_offset: usize,
    last_velocity: Vec<i32>,
    repeat: bool,
}

/// What a [`MusStream`] holds.
pub struct MusStreamView {
    pub data: Seq<u8>,
    pub offset: int,
    pub velocities: Seq<i32>,
    pub repeat: bool,
}

impl View for MusStream {
    type V = MusStreamView;

    closed spec fn view(&self) -> MusStreamView {
        MusStreamView {
            data: self.data@,
            offset: self.data_offset as int,
            velocities: self.last_velocity@,
            repeat: self.repeat,
        }
    }
}

/// A stream remembers 16 velocities, its song fits the 16-bit MUS header,
/// and its position stays inside the song (or at its end when it does not loop).
pub open spec fn stream_wf(s: MusStreamView) -> bool {
    &&& s.velocities.len() == 16
    &&& s.data.len() <= 0xFFFF
    &&& 0 <= s.offset <= s.data.len()
    &&& (s.repeat && s.data.len() > 0 ==> s.offset < s.data.len())
}

/// Where reading continues after `length` bytes from `offset`.
pub open spec fn advance_offset(len: int, offset: int, repeat: bool, length: int) -> int {
    if repeat {
        (offset + length) % len
    } else {
        offset + length
    }
}

/// Parsing one event of the stream: its delay, the new position and
/// velocities, and the commands it sends.
pub open spec fn spec_stream_event(s: MusStreamView) -> Result<
    (Option<usize>, int, Seq<i32>, Seq<MidiCommand>),
    MusError,
> {
    match spec_decode_mus_event(s.data, s.offset, s.repeat, true, true, s.velocities) {
        Err(e) => Err(e),
        Ok(event) => Ok(
            (
                event.delay,
                advance_offset(s.data.len() as int, s.offset, s.repeat, event.length as int),
                apply_velocity_update(s.velocities, event.velocity_update),
                sent_for(event.command),
            ),
        ),
    }
}

/// Parsing events until one is followed by a delay or the song ends: the
/// outcome, the position and velocities afterwards, and the commands sent on
/// the way (those of the events parsed before a failing one stay sent).
/// `count` events have been parsed so far; a looping song that goes through
/// as many events as it has bytes without a delay never reaches one.
pub open spec fn spec_events_until_delay(
    data: Seq<u8>,
    repeat: bool,
    offset: int,
    velocities: Seq<i32>,
    count: int,
) -> (Result<Option<usize>, MusError>, int, Seq<i32>, Seq<MidiCommand>)
    decreases data.len() - count,
{
    if offset >= data.len() {
        (Ok(None), offset, velocities, Seq::empty())
    } else if count >= data.len() {
        (Err(MusError::NoDelay), offset, velocities, Seq::empty())
    } else {
        match spec_stream_event(
            MusStreamView { data, offset, velocities, repeat },
        ) {
            Err(e) => (Err(e), offset, velocities, Seq::empty()),
            Ok((delay, offset2, velocities2, sent)) => if delay is Some {
                (Ok(delay), offset2, velocities2, sent)
            } else {
                let rest = spec_events_until_delay(data, repeat, offset2, velocities2, count + 1);
                (rest.0, rest.1, rest.2, sent + rest.3)
            },
        }
    }
}

proof fn lemma_stream_event_wf(s: MusStreamView)
    requires
        stream_wf(s),
    ensures
        spec_stream_event(s) matches Ok((_, offset, velocities, _)) ==> stream_wf(
            MusStreamView { data: s.data, offset, velocities, repeat: s.repeat },
        ),
{
    lemma_event_length(s.data, s.offset, s.repeat, true, true, s.velocities);
    if let Ok(event) = spec_decode_mus_event(s.data, s.offset, s.repeat, true, true, s.velocities) {
        if s.repeat {
            vstd::arithmetic::div_mod::lemma_mod_bound(s.offset + event.length, s.data.len() as int);
        }
    }
}

/// A looping song that is not empty never ends: its position lies inside the
/// song, and stays there after one event or after events up to a delay.
pub proof fn lemma_looping_stream_never_ends(s: MusStreamView, count: int)
    requires
        stream_wf(s),
        s.repeat,
        s.data.len() > 0,
    ensures
        s.offset < s.data.len(),
        spec_stream_event(s) matches Ok((_, offset, _, _)) ==> 0 <= offset < s.data.len(),
        spec_events_until_delay(s.data, true, s.offset, s.velocities, count).1 < s.data.len(),
    decreases s.data.len() - count,
{
    lemma_stream_event_wf(s);
    if count < s.data.len() {
        if let Ok((delay, offset, velocities, _)) = spec_stream_event(s) {
            if delay is None {
                lemma_looping_stream_never_ends(
                    MusStreamView { data: s.data, offset, velocities, repeat: true },
                    count + 1,
                );
            }
        }
    }
}

proof fn lemma_stream_bytes(s: MusStreamView, k: int)
    requires
        stream_wf(s),
        0 <= k,
        s.offset + k < s.data.len(),
    ensures
        stream_byte(s.data, s.offset, s.repeat, k) == Some(s.data[s.offset + k]),
{
    if s.repeat {
        vstd::arithmetic::div_mod::lemma_small_mod((s.offset + k) as nat, s.data.len());
    }
}

/// A play-note event (type 1, no delay) read from the song: with a velocity
/// byte `v` (the note byte's top bit set, and `v` inside the song) it plays the note with `v`'s low
/// seven bits and remembers them for its channel; without one it plays the
/// note with the velocity its channel remembers and changes no velocity.
pub proof fn lemma_stream_note_velocity(s: MusStreamView)
    requires
        stream_wf(s),
        s.offset + 2 <= s.data.len(),
        s.data[s.offset] < 128,
        (s.data[s.offset] / 16) % 8 == 1,
    ensures
        ({
            let ch = midi_channel_of(s.data[s.offset]);
            let note = s.data[s.offset + 1];
            let v = s.data[s.offset + 2];
            &&& note >= 128 && s.offset + 3 <= s.data.len() ==> (spec_stream_event(s) matches Ok((delay, _, velocities, sent))
                && delay is None && velocities == s.velocities.update(ch, (v % 128) as i32)
                && sent == seq![
                MidiCommand::NoteOn {
                    channel: ch as i32,
                    key: (note - 128) as i32,
                    velocity: (v % 128) as i32,
                },
            ])
            &&& note < 128 ==> (spec_stream_event(s) matches Ok((delay, _, velocities, sent))
                && delay is None && velocities == s.velocities && sent == seq![
                MidiCommand::NoteOn {
                    channel: ch as i32,
                    key: note as i32,
                    velocity: s.velocities[ch],
                },
            ])
        }),
{
    lemma_stream_bytes(s, 0);
    lemma_stream_bytes(s, 1);
    if s.offset + 3 <= s.data.len() {
        lemma_stream_bytes(s, 2);
    }
}

/// Two play-note events in a row on one channel, the first with a velocity
/// byte `v` and the second without: the second plays its note with `v`'s low
/// seven bits, the velocity the first left for the channel.
pub proof fn lemma_stream_velocity_carries(s: MusStreamView)
    requires
        stream_wf(s),
        s.offset + 5 <= s.data.len(),
        s.data[s.offset] < 128,
        (s.data[s.offset] / 16) % 8 == 1,
        s.data[s.offset + 1] >= 128,
        s.data[s.offset + 3] < 128,
        (s.data[s.offset + 3] / 16) % 8 == 1,
        s.data[s.offset + 3] % 16 == s.data[s.offset] % 16,
        s.data[s.offset + 4] < 128,
    ensures
        spec_stream_event(s) matches Ok((_, offset, velocities, _)) && spec_stream_event(
            MusStreamView { data: s.data, offset, velocities, repeat: s.repeat },
        ) matches Ok((_, _, _, sent)) && sent == seq![
            MidiCommand::NoteOn {
                channel: midi_channel_of(s.data[s.offset]) as i32,
                key: s.data[s.offset + 4] as i32,
                velocity: (s.data[s.offset + 2] % 128) as i32,
            },
        ],
{
    lemma_stream_note_velocity(s);
    lemma_stream_event_wf(s);
    lemma_stream_bytes(s, 0);
    lemma_stream_bytes(s, 1);
    lemma_stream_bytes(s, 2);
    if let Ok((_, offset, velocities, _)) = spec_stream_event(s) {
        if s.repeat {
            vstd::arithmetic::div_mod::lemma_small_mod((s.offset + 3) as nat, s.data.len());
        }
        assert(offset == s.offset + 3);
        let s1 = MusStreamView { data: s.data, offset, velocities, repeat: s.repeat };
        lemma_stream_note_velocity(s1);
    }
}

impl MusStream {
    /// The stream's invariant.
    pub open spec fn wf(&self) -> bool {
        stream_wf(self@)
    }

    /// Takes the song out of a MUS lump, whose header must be valid (see
    /// [`mus_song_range`] to check one); the stream starts at the song's first
    /// event with every remembered velocity 0.
    pub fn new(lump: &[u8], repeat: bool) -> (r: MusStream)
        requires
            spec_mus_song_range(lump@) is Ok,
        ensures
            r.wf(),
            spec_mus_song_range(lump@) matches Ok((a, b)) && r@ == (MusStreamView {
                data: lump@.subrange(a, b),
                offset: 0,
                velocities: Seq::new(16, |i: int| 0i32),
                repeat,
            }),
    {
        let (song_start, song_end) = mus_song_range(lump).unwrap();
        let mut data: Vec<u8> = Vec::new();
        let mut i = song_start;
        while i < song_end
            invariant
                song_start <= i <= song_end <= lump@.len(),
                data@ == lump@.subrange(song_start as int, i as int),
            decreases song_end - i,
        {
            data.push(lump[i]);
            i = i + 1;
        }
        let mut last_velocity: Vec<i32> = Vec::new();
        while last_velocity.len() < 16
            invariant
                last_velocity@.len() <= 16,
                forall|j: int| 0 <= j < last_velocity@.len() ==> last_velocity@[j] == 0,
            decreases 16 - last_velocity@.len(),
        {
            last_velocity.push(0);
        }
        let s = MusStream { data, data_offset: 0, last_velocity, repeat };
        assert(s@.velocities =~= Seq::new(16, |i: int| 0i32));
        s
    }

    /// Whether the stream has reached the end of its song (a looping stream
    /// with a non-empty song never does).
    pub fn at_end(&self) -> (r: bool)
        ensures
            r == (self@.offset >= self@.data.len()),
    {
        self.data_offset >= self.data.len()
    }

    /// Reads the next byte of the song, wrapping to its beginning when the song
    /// loops.
    pub fn get_byte(&mut self) -> (r: Result<u8, MusError>)
        requires
            old(self).wf(),
        ensures
            final(self).wf(),
            final(self)@.data == old(self)@.data,
            final(self)@.velocities == old(self)@.velocities,
            final(self)@.repeat == old(self)@.repeat,
            match stream_byte(old(self)@.data, old(self)@.offset, old(self)@.repeat, 0) {
                None => r == Err::<u8, MusError>(MusError::UnexpectedEnd) && final(self)@.offset
                    == old(self)@.offset,
                Some(b) => r == Ok::<u8, MusError>(b) && final(self)@.offset == advance_offset(
                    old(self)@.data.len() as int,
                    old(self)@.offset,
                    old(self)@.repeat,
                    1,
                ),
            },
    {
        if self.data_offset >= self.data.len() {
            return Err(MusError::UnexpectedEnd);
        }
        let next_byte = self.data[self.data_offset];
        proof {
            if self.repeat {
                vstd::arithmetic::div_mod::lemma_small_mod(
                    self.data_offset as nat,
                    self.data@.len(),
                );
                vstd::arithmetic::div_mod::lemma_mod_bound(
                    self.data_offset + 1,
                    self.data@.len() as int,
                );
            }
        }
        if self.repeat {
            self.data_offset = (self.data_offset + 1) % self.data.len();
        } else {
            self.data_offset = self.data_offset + 1;
        }
        Ok(next_byte)
    }

    /// Parses the next event, sends its MIDI command through `sink` and returns the
    /// delay that follows it, if any. Channels are moved as MIDI expects
    /// (percussion to channel 9) and a new velocity keeps its low seven bits.
    /// On failure the stream is left as it was.
    pub fn parse_mus_event(&mut self, sink: &mut MidiSink) -> (r: Result<
        Option<usize>,
        MusError,
    >)
        requires
            old(self).wf(),
        ensures
            final(self).wf(),
            final(self)@.data == old(self)@.data,
            final(self)@.repeat == old(self)@.repeat,
            match spec_stream_event(old(self)@) {
                Err(e) => r == Err::<Option<usize>, MusError>(e) && final(self)@ == old(self)@
                    && final(sink).sent() == old(sink).sent(),
                Ok((delay, offset, velocities, sent)) => r == Ok::<Option<usize>, MusError>(delay)
                    && final(self)@.offset == offset && final(self)@.velocities == velocities
                    && final(sink).sent() == old(sink).sent() + sent,
            },
    {
        let event = match decode_mus_event(
            &self.data,
            self.data_offset,
            self.repeat,
            true,
            true,
            self.last_velocity.as_slice(),
        ) {
            Ok(e) => e,
            Err(e) => return Err(e),
        };
        proof {
            lemma_event_length(
                self.data@,
                self.data_offset as int,
                self.repeat,
                true,
                true,
                self.last_velocity@,
            );
            lemma_stream_event_wf(self@);
        }
        send_midi_command(sink, event.command);
        if let Some((channel, velocity)) = event.velocity_update {
            self.last_velocity.set(channel, velocity);
        }
        if self.repeat {
            self.data_offset = (self.data_offset + event.length) % self.data.len();
        } else {
            self.data_offset = self.data_offset + event.length;
        }
        Ok(event.delay)
    }

    /// Parses events, sending each one's command through `sink`, until one is
    /// followed by a delay, which is returned, or the song ends (`None`).
    pub fn parse_mus_events(&mut self, sink: &mut MidiSink) -> (r: Result<
        Option<usize>,
        MusError,
    >)
        requires
            old(self).wf(),
        ensures
            final(self).wf(),
            final(self)@.data == old(self)@.data,
            final(self)@.repeat == old(self)@.repeat,
            ({
                let (outcome, offset, velocities, sent) = spec_events_until_delay(
                    old(self)@.data,
                    old(self)@.repeat,
                    old(self)@.offset,
                    old(self)@.velocities,
                    0,
                );
                r == outcome && final(self)@.offset == offset && final(self)@.velocities
                    == velocities && final(sink).sent() == old(sink).sent() + sent
            }),
    {
        let mut count: usize = 0;
        loop
            invariant
                self.wf(),
                self@.data == old(self)@.data,
                self@.repeat == old(self)@.repeat,
                count <= self@.data.len(),
                ({
                    let whole = spec_events_until_delay(
                        old(self)@.data,
                        old(self)@.repeat,
                        old(self)@.offset,
                        old(self)@.velocities,
                        0,
                    );
                    let rest = spec_events_until_delay(
                        self@.data,
                        self@.repeat,
                        self@.offset,
                        self@.velocities,
                        count as int,
                    );
                    &&& whole.0 == rest.0
                    &&& whole.1 == rest.1
                    &&& whole.2 == rest.2
                    &&& old(sink).sent() + whole.3 == sink.sent() + rest.3
                }),
            decreases self@.data.len() - count,
        {
            if self.data_offset >= self.data.len() {
                return Ok(None);
            }
            if count >= self.data.len() {
                return Err(MusError::NoDelay);
            }
            let ghost sent_before = sink.sent();
            let result = self.parse_mus_event(sink);
            proof {
                if let Ok(None) = result {
                    let step = spec_events_until_delay(
                        self@.data,
                        self@.repeat,
                        self@.offset,
                        self@.velocities,
                        count + 1,
                    );
                    let sent = sink.sent().subrange(sent_before.len() as int, sink.sent().len() as int);
                    assert(sink.sent() =~= sent_before + sent);
                    assert(sent_before + (sent + step.3) =~= sink.sent() + step.3);
                }
            }
            match result {
                Err(e) => {
                    assert(old(sink).sent() + Seq::<MidiCommand>::empty() =~= old(sink).sent());
                    return Err(e);
                },
                Ok(Some(delay)) => return Ok(Some(delay)),
                Ok(None) => {},
            }
            count = count + 1;
        }
    }
}

} // verus!
