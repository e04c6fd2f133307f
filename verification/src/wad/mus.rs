//! MUS music lumps: the header and the event stream that drives a synthesizer.
use vstd::prelude::*;
use std::collections::VecDeque;
use crate::bytes::{le_u16, read_u16_le};
use crate::midi::{MidiCommand, MidiSink, midi_command_in_range, send_midi_command, sent_for};

verus! {

/// Why a MUS lump or event could not be decoded.
#[derive(Clone, Copy, Debug, PartialEq, Eq)]
pub enum MusError {
    /// The lump is shorter than the 14-byte header.
    TooShort,
    /// The lump does not begin with `MUS` followed by 0x1A.
    BadSignature,
    /// The song's end (offset plus length) overflows 16 bits or lies past the lump.
    SongOutOfBounds,
    /// An event needs a byte past the end of the data.
    UnexpectedEnd,
    /// A note event names a channel that has no remembered velocity.
    NoVelocitySlot,
    /// A delay never ends: the whole (repeating) data consists of continuation bytes.
    EndlessDelay,
    /// A delay does not fit in `usize`.
    DelayOverflow,
    /// Looping data holds no event with a delay, so no delay is ever reached.
    NoDelay,
}

/// A decoded MUS event: the MIDI command it sends, the velocity it remembers
/// for its channel, the delay that follows it and how many bytes it takes.
#[derive(Clone, Copy, Debug, PartialEq, Eq)]
pub struct MusEvent {
    pub command: MidiCommand,
    pub velocity_update: Option<(usize, i32)>,
    pub delay: Option<usize>,
    pub length: usize,
}

/// Byte containers that MUS events are decoded from.
pub trait MusBytes {
    spec fn bytes_view(&self) -> Seq<u8>;

    fn byte_count(&self) -> (n: usize)
        ensures
            n == self.bytes_view().len(),
    ;

    fn byte_at(&self, i: usize) -> (b: u8)
        requires
            i < self.bytes_view().len(),
        ensures
            b == self.bytes_view()[i as int],
    ;
}

impl MusBytes for Vec<u8> {
    open spec fn bytes_view(&self) -> Seq<u8> {
        self@
    }

    fn byte_count(&self) -> (n: usize) {
        self.len()
    }

    fn byte_at(&self, i: usize) -> (b: u8) {
        self[i]
    }
}

impl<'a> MusBytes for VecDeque<&'a u8> {
    open spec fn bytes_view(&self) -> Seq<u8> {
        self@.map_values(|b: &'a u8| *b)
    }

    fn byte_count(&self) -> (n: usize) {
        self.len()
    }

    fn byte_at(&self, i: usize) -> (b: u8) {
        *self[i]
    }
}

/// The `k`-th byte read from `data` starting at `start`: past the end there is
/// none, unless the data repeats, in which case reading wraps to its beginning.
pub open spec fn stream_byte(data: Seq<u8>, start: int, repeat: bool, k: int) -> Option<u8> {
    if repeat {
        if data.len() == 0 {
            None
        } else {
            Some(data[(start + k) % (data.len() as int)])
        }
    } else if 0 <= start + k < data.len() {
        Some(data[start + k])
    } else {
        None
    }
}

/// The position in `data` of the `k`-th byte read from `start`.
pub open spec fn stream_position(len: int, start: int, repeat: bool, k: int) -> int {
    if repeat {
        (start + k) % len
    } else {
        start + k
    }
}

/// MUS channel 15 is percussion, which MIDI keeps on channel 9; MUS channels
/// 9 to 14 move up by one to make room for it.
pub open spec fn remap_channel(channel: int) -> int {
    if channel == 15 {
        9
    } else if channel >= 9 {
        channel + 1
    } else {
        channel
    }
}

/// The event type: bits 4 to 6 of the event's first byte.
pub open spec fn event_type(head: u8) -> int {
    ((head / 16) % 8) as int
}

/// The channel of an event: the low four bits of its first byte, remapped when asked.
pub open spec fn event_channel(head: u8, remap: bool) -> int {
    if remap {
        remap_channel((head % 16) as int)
    } else {
        (head % 16) as int
    }
}

/// The MIDI command of a MUS system event.
pub open spec fn system_event_command(channel: i32, id: u8) -> MidiCommand {
    if id == 10 {
        MidiCommand::Message { channel, command: 0xB0, data1: 120, data2: 0 }
    } else if id == 11 {
        MidiCommand::Message { channel, command: 0xB0, data1: 123, data2: 0 }
    } else if id == 12 {
        MidiCommand::Message { channel, command: 0xB0, data1: 126, data2: 0 }
    } else if id == 13 {
        MidiCommand::Message { channel, command: 0xB0, data1: 127, data2: 0 }
    } else if id == 14 {
        MidiCommand::Message { channel, command: 0xB0, data1: 121, data2: 0 }
    } else {
        MidiCommand::Nothing
    }
}

/// The MIDI command of a MUS controller event.
pub open spec fn controller_event_command(channel: i32, number: u8, value: i32) -> MidiCommand {
    if number == 0 {
        MidiCommand::Message { channel, command: 0xC0, data1: value, data2: 0 }
    } else if number == 1 {
        MidiCommand::Message { channel, command: 0xB0, data1: 0, data2: value }
    } else if number == 2 {
        MidiCommand::Message { channel, command: 0xB0, data1: 1, data2: value }
    } else if number == 3 {
        MidiCommand::Message { channel, command: 0xB0, data1: 7, data2: value }
    } else if number == 4 {
        MidiCommand::Message { channel, command: 0xB0, data1: 10, data2: value }
    } else if number == 5 {
        MidiCommand::Message { channel, command: 0xB0, data1: 11, data2: value }
    } else if number == 6 {
        MidiCommand::Message { channel, command: 0xB0, data1: 91, data2: value }
    } else if number == 7 {
        MidiCommand::Message { channel, command: 0xB0, data1: 93, data2: value }
    } else if number == 8 {
        MidiCommand::Message { channel, command: 0xB0, data1: 64, data2: value }
    } else if number == 9 {
        MidiCommand::Message { channel, command: 0xB0, data1: 67, data2: value }
    } else {
        MidiCommand::Nothing
    }
}

/// The part of an event after its first byte and before its delay: the command,
/// the velocity remembered, and the number of bytes read so far (first byte included).
pub open spec fn spec_event_body(
    data: Seq<u8>,
    start: int,
    repeat: bool,
    mask_velocity: bool,
    velocities: Seq<i32>,
    channel: int,
    event_type: int,
) -> Result<(MidiCommand, Option<(usize, i32)>, int), MusError> {
    let ch = channel as i32;
    if event_type == 0 {
        match stream_byte(data, start, repeat, 1) {
            None => Err(MusError::UnexpectedEnd),
            Some(key) => Ok((MidiCommand::NoteOff { channel: ch, key: key as i32 }, None, 2)),
        }
    } else if event_type == 1 {
        match stream_byte(data, start, repeat, 1) {
            None => Err(MusError::UnexpectedEnd),
            Some(note) => if note < 128 {
                if channel < velocities.len() {
                    Ok(
                        (
                            MidiCommand::NoteOn {
                                channel: ch,
                                key: note as i32,
                                velocity: velocities[channel],
                            },
                            None,
                            2,
                        ),
                    )
                } else {
                    Err(MusError::NoVelocitySlot)
                }
            } else {
                match stream_byte(data, start, repeat, 2) {
                    None => Err(MusError::UnexpectedEnd),
                    Some(v) => {
                        let velocity = (if mask_velocity {
                            (v % 128) as int
                        } else {
                            v as int
                        }) as i32;
                        if channel < velocities.len() {
                            Ok(
                                (
                                    MidiCommand::NoteOn {
                                        channel: ch,
                                        key: (note - 128) as i32,
                                        velocity,
                                    },
                                    Some((channel as usize, velocity)),
                                    3,
                                ),
                            )
                        } else {
                            Err(MusError::NoVelocitySlot)
                        }
                    },
                }
            },
        }
    } else if event_type == 2 {
        match stream_byte(data, start, repeat, 1) {
            None => Err(MusError::UnexpectedEnd),
            Some(bend) => Ok(
                (
                    MidiCommand::Message {
                        channel: ch,
                        command: 0xE0,
                        data1: ((bend % 2) * 128) as i32,
                        data2: (bend / 2) as i32,
                    },
                    None,
                    2,
                ),
            ),
        }
    } else if event_type == 3 {
        match stream_byte(data, start, repeat, 1) {
            None => Err(MusError::UnexpectedEnd),
            Some(id) => Ok((system_event_command(ch, id), None, 2)),
        }
    } else if event_type == 4 {
        match stream_byte(data, start, repeat, 1) {
            None => Err(MusError::UnexpectedEnd),
            Some(number) => match stream_byte(data, start, repeat, 2) {
                None => Err(MusError::UnexpectedEnd),
                Some(value) => Ok((controller_event_command(ch, number, value as i32), None, 3)),
            },
        }
    } else {
        Ok((MidiCommand::Nothing, None, 1))
    }
}

/// A delay: a big-endian number in 7-bit groups, each byte but the last with its
/// high bit set, read from the `k`-th byte on with `acc` accumulated so far after
/// `count` continuation bytes. Returns the delay and the number of bytes read in
/// all (counted from the event's start).
pub open spec fn spec_delay(
    data: Seq<u8>,
    start: int,
    repeat: bool,
    k: int,
    acc: int,
    count: int,
) -> Result<(int, int), MusError>
    decreases data.len() - count,
{
    if count >= data.len() {
        Err(MusError::EndlessDelay)
    } else {
        match stream_byte(data, start, repeat, k) {
            None => Err(MusError::UnexpectedEnd),
            Some(d) => {
                let acc2 = acc * 128 + d % 128;
                if acc2 > usize::MAX {
                    Err(MusError::DelayOverflow)
                } else if d < 128 {
                    Ok((acc2, k + 1))
                } else {
                    spec_delay(data, start, repeat, k + 1, acc2, count + 1)
                }
            },
        }
    }
}

/// The event that begins at `start` in `data`. `remap` moves channels as MIDI
/// expects; `mask_velocity` keeps only the low seven bits of a new velocity.
pub open spec fn spec_decode_mus_event(
    data: Seq<u8>,
    start: int,
    repeat: bool,
    remap: bool,
    mask_velocity: bool,
    velocities: Seq<i32>,
) -> Result<MusEvent, MusError> {
    match stream_byte(data, start, repeat, 0) {
        None => Err(MusError::UnexpectedEnd),
        Some(head) => match spec_event_body(
            data,
            start,
            repeat,
            mask_velocity,
            velocities,
            event_channel(head, remap),
            event_type(head),
        ) {
            Err(e) => Err(e),
            Ok((command, velocity_update, used)) => if head >= 128 {
                match spec_delay(data, start, repeat, used, 0, 0) {
                    Err(e) => Err(e),
                    Ok((delay, end)) => Ok(
                        MusEvent {
                            command,
                            velocity_update,
                            delay: Some(delay as usize),
                            length: end as usize,
                        },
                    ),
                }
            } else {
                Ok(MusEvent { command, velocity_update, delay: None, length: used as usize })
            },
        },
    }
}

/// The remembered velocities after an event's update.
pub open spec fn apply_velocity_update(
    velocities: Seq<i32>,
    update: Option<(usize, i32)>,
) -> Seq<i32> {
    match update {
        None => velocities,
        Some((channel, velocity)) => velocities.update(channel as int, velocity),
    }
}

proof fn lemma_mod_step(a: int, n: int)
    requires
        0 <= a,
        0 < n,
    ensures
        (a + 1) % n == (if a % n + 1 == n { 0 } else { a % n + 1 }),
        0 <= a % n < n,
{
    vstd::arithmetic::div_mod::lemma_fundamental_div_mod(a, n);
    vstd::arithmetic::div_mod::lemma_fundamental_div_mod(a + 1, n);
    vstd::arithmetic::div_mod::lemma_mod_bound(a, n);
    vstd::arithmetic::div_mod::lemma_mod_bound(a + 1, n);
    if a % n + 1 == n {
        assert((a + 1) == n * (a / n + 1)) by (nonlinear_arith)
            requires
                a == n * (a / n) + a % n,
                a % n + 1 == n,
        ;
        vstd::arithmetic::div_mod::lemma_mod_multiples_basic(a / n + 1, n);
        assert(n * (a / n + 1) == (a / n + 1) * n) by (nonlinear_arith);
    } else {
        vstd::arithmetic::div_mod::lemma_mod_adds(a, 1, n);
        vstd::arithmetic::div_mod::lemma_small_mod(1, n as nat);
    }
}

/// The reading position stands at the `k`-th byte read from `start`.
pub open spec fn cursor_at(len: int, start: int, repeat: bool, k: int, pos: int) -> bool {
    if repeat {
        len > 0 && pos == (start + k) % len
    } else {
        pos == start + k
    }
}

/// Reads the `k`-th byte from `start` at `pos` and moves `pos` on.
fn next_byte<B: MusBytes>(
    data: &B,
    Ghost(start): Ghost<int>,
    repeat: bool,
    pos: &mut usize,
    Ghost(k): Ghost<int>,
) -> (r: Option<u8>)
    requires
        0 <= start,
        0 <= k,
        cursor_at(data.bytes_view().len() as int, start, repeat, k, *old(pos) as int),
    ensures
        r == stream_byte(data.bytes_view(), start, repeat, k),
        r is Some ==> cursor_at(
            data.bytes_view().len() as int,
            start,
            repeat,
            k + 1,
            *final(pos) as int,
        ),
        r is None ==> *final(pos) == *old(pos),
{
    let n = data.byte_count();
    proof {
        if repeat {
            lemma_mod_step(start + k, n as int);
        }
    }
    if *pos < n {
        let b = data.byte_at(*pos);
        if repeat {
            if *pos + 1 == n {
                *pos = 0;
            } else {
                *pos = *pos + 1;
            }
        } else {
            *pos = *pos + 1;
        }
        Some(b)
    } else {
        None
    }
}


proof fn lemma_byte_bits(b: u8)
    by (bit_vector)
    ensures
        (b & 0x80 != 0) == (b >= 128),
        b & 0x7F == b % 128,
        (b & 0x70) >> 4 == (b / 16) % 8,
        b & 0x0F == b % 16,
        b >> 1 == b / 2,
        b << 7 == (b % 2) * 128,
{
}

/// The MIDI channel that the MUS event beginning with `head` sounds on,
/// written out: percussion (15) goes to 9, channels 9 to 14 move up by one,
/// the others stay.
pub open spec fn midi_channel_of(head: u8) -> int {
    let c = (head % 16) as int;
    if c == 15 {
        9
    } else if c >= 9 {
        c + 1
    } else {
        c
    }
}

proof fn lemma_read_byte(data: Seq<u8>, start: int, repeat: bool, k: int)
    requires
        0 <= start,
        0 <= k,
        start + k < data.len(),
    ensures
        stream_byte(data, start, repeat, k) == Some(data[start + k]),
{
    if repeat {
        vstd::arithmetic::div_mod::lemma_small_mod((start + k) as nat, data.len());
    }
}

/// The two-byte events without a delay. A release-note event (type 0) with
/// key byte `k` releases key `k` on its channel. A pitch-bend event (type 2)
/// with bend byte `b` sends status 0xE0 with `b`'s upper seven bits as the
/// high data value and 128 (when `b` is odd) or 0 as the low one, so the bend
/// sent grows by two steps with each step of `b`. Neither remembers a velocity.
pub proof fn lemma_two_byte_events(
    data: Seq<u8>,
    start: int,
    repeat: bool,
    remap: bool,
    mask_velocity: bool,
    velocities: Seq<i32>,
)
    requires
        0 <= start,
        start + 2 <= data.len(),
        data[start] < 128,
        (data[start] / 16) % 8 == 0 || (data[start] / 16) % 8 == 2,
    ensures
        ({
            let ch = (if remap {
                midi_channel_of(data[start])
            } else {
                (data[start] % 16) as int
            }) as i32;
            let b = data[start + 1];
            let command = if (data[start] / 16) % 8 == 0 {
                MidiCommand::NoteOff { channel: ch, key: b as i32 }
            } else {
                MidiCommand::Message {
                    channel: ch,
                    command: 0xE0,
                    data1: ((b % 2) * 128) as i32,
                    data2: (b / 2) as i32,
                }
            };
            spec_decode_mus_event(data, start, repeat, remap, mask_velocity, velocities) == Ok::<
                MusEvent,
                MusError,
            >(MusEvent { command, velocity_update: None, delay: None, length: 2 })
        }),
{
    lemma_read_byte(data, start, repeat, 0);
    lemma_read_byte(data, start, repeat, 1);
}

/// The controller number a MUS controller event (type 4) sets, written out:
/// 0 changes the instrument (program change, no controller), then bank
/// select, modulation, volume, pan, expression, reverb, chorus, sustain pedal
/// and soft pedal are MIDI controllers 0, 1, 7, 10, 11, 91, 93, 64 and 67.
pub open spec fn midi_controller_of(number: u8) -> int {
    if number == 1 {
        0
    } else if number == 2 {
        1
    } else if number == 3 {
        7
    } else if number == 4 {
        10
    } else if number == 5 {
        11
    } else if number == 6 {
        91
    } else if number == 7 {
        93
    } else if number == 8 {
        64
    } else {
        67
    }
}

/// A controller event (type 4, no delay) with number `n` and value `v`: number
/// 0 sends a program change (status 0xC0) to instrument `v`; numbers 1 to 9
/// send a control change (status 0xB0) of their MIDI controller to `v`; other
/// numbers send nothing. The event is three bytes long and remembers no
/// velocity.
pub proof fn lemma_controller_event(
    data: Seq<u8>,
    start: int,
    repeat: bool,
    remap: bool,
    mask_velocity: bool,
    velocities: Seq<i32>,
)
    requires
        0 <= start,
        start + 3 <= data.len(),
        data[start] < 128,
        (data[start] / 16) % 8 == 4,
    ensures
        ({
            let ch = (if remap {
                midi_channel_of(data[start])
            } else {
                (data[start] % 16) as int
            }) as i32;
            let n = data[start + 1];
            let v = data[start + 2] as i32;
            let command = if n == 0 {
                MidiCommand::Message { channel: ch, command: 0xC0, data1: v, data2: 0 }
            } else if n <= 9 {
                MidiCommand::Message {
                    channel: ch,
                    command: 0xB0,
                    data1: midi_controller_of(n) as i32,
                    data2: v,
                }
            } else {
                MidiCommand::Nothing
            };
            spec_decode_mus_event(data, start, repeat, remap, mask_velocity, velocities) == Ok::<
                MusEvent,
                MusError,
            >(MusEvent { command, velocity_update: None, delay: None, length: 3 })
        }),
{
    lemma_read_byte(data, start, repeat, 0);
    lemma_read_byte(data, start, repeat, 1);
    lemma_read_byte(data, start, repeat, 2);
}

/// A delay follows an event whose first byte has its top bit set: one byte
/// below 128 is a delay of that many ticks; two bytes, the first with its top
/// bit set, are a delay of 128 times the first's low seven bits plus the
/// second. Here after a two-byte release-note event.
pub proof fn lemma_event_delay(
    data: Seq<u8>,
    start: int,
    remap: bool,
    mask_velocity: bool,
    velocities: Seq<i32>,
)
    requires
        0 <= start,
        start + 3 <= data.len(),
        data[start] >= 128,
        (data[start] / 16) % 8 == 0,
    ensures
        data[start + 2] < 128 ==> (spec_decode_mus_event(
            data,
            start,
            false,
            remap,
            mask_velocity,
            velocities,
        ) matches Ok(event) && event.delay == Some(data[start + 2] as usize) && event.length
            == 3),
        data[start + 2] >= 128 && start + 4 <= data.len() && data[start + 3] < 128 ==> (
        spec_decode_mus_event(data, start, false, remap, mask_velocity, velocities) matches Ok(
            event,
        ) && event.delay == Some(((data[start + 2] - 128) * 128 + data[start + 3]) as usize)
            && event.length == 4),
{
    lemma_read_byte(data, start, false, 0);
    lemma_read_byte(data, start, false, 1);
    lemma_read_byte(data, start, false, 2);
    if start + 4 <= data.len() {
        lemma_read_byte(data, start, false, 3);
    }
    reveal_with_fuel(spec_delay, 3);
}

/// A play-note event (type 1, no delay) on a channel that has a remembered
/// velocity: with its note byte's top bit clear it plays that note with the
/// remembered velocity, takes two bytes and remembers nothing new; with the top
/// bit set it plays the note in the low seven bits with the next byte as
/// velocity (its low seven bits when velocities are masked), takes three bytes
/// and remembers that velocity for the channel.
pub proof fn lemma_play_note_event(
    data: Seq<u8>,
    start: int,
    repeat: bool,
    remap: bool,
    mask_velocity: bool,
    velocities: Seq<i32>,
)
    requires
        0 <= start,
        start + 2 <= data.len(),
        data[start] < 128,
        (data[start] / 16) % 8 == 1,
        (if remap {
            midi_channel_of(data[start])
        } else {
            (data[start] % 16) as int
        }) < velocities.len(),
    ensures
        ({
            let ch = if remap {
                midi_channel_of(data[start])
            } else {
                (data[start] % 16) as int
            };
            let note = data[start + 1];
            let event = spec_decode_mus_event(data, start, repeat, remap, mask_velocity, velocities);
            &&& note < 128 ==> event == Ok::<MusEvent, MusError>(
                MusEvent {
                    command: MidiCommand::NoteOn {
                        channel: ch as i32,
                        key: note as i32,
                        velocity: velocities[ch],
                    },
                    velocity_update: None,
                    delay: None,
                    length: 2,
                },
            )
            &&& note >= 128 && start + 3 <= data.len() ==> ({
                let v = (if mask_velocity {
                    data[start + 2] % 128
                } else {
                    data[start + 2]
                }) as i32;
                event == Ok::<MusEvent, MusError>(
                    MusEvent {
                        command: MidiCommand::NoteOn {
                            channel: ch as i32,
                            key: (note - 128) as i32,
                            velocity: v,
                        },
                        velocity_update: Some((ch as usize, v)),
                        delay: None,
                        length: 3,
                    },
                )
            })
        }),
{
    lemma_read_byte(data, start, repeat, 0);
    lemma_read_byte(data, start, repeat, 1);
    if start + 3 <= data.len() {
        lemma_read_byte(data, start, repeat, 2);
    }
}

/// A system event (type 3, no delay) with id `e`: ids 10 to 14 send control
/// changes 120 (all sounds off), 123 (all notes off), 126 (mono), 127 (poly)
/// and 121 (reset controllers) with value 0; other ids send nothing.
pub proof fn lemma_system_event(
    data: Seq<u8>,
    start: int,
    repeat: bool,
    remap: bool,
    mask_velocity: bool,
    velocities: Seq<i32>,
)
    requires
        0 <= start,
        start + 2 <= data.len(),
        data[start] < 128,
        (data[start] / 16) % 8 == 3,
    ensures
        ({
            let ch = (if remap {
                midi_channel_of(data[start])
            } else {
                (data[start] % 16) as int
            }) as i32;
            let e = data[start + 1];
            let controller: i32 = if e == 10 {
                120
            } else if e == 11 {
                123
            } else if e == 12 {
                126
            } else if e == 13 {
                127
            } else {
                121
            };
            let command = if 10 <= e <= 14 {
                MidiCommand::Message { channel: ch, command: 0xB0, data1: controller, data2: 0 }
            } else {
                MidiCommand::Nothing
            };
            spec_decode_mus_event(data, start, repeat, remap, mask_velocity, velocities) == Ok::<
                MusEvent,
                MusError,
            >(MusEvent { command, velocity_update: None, delay: None, length: 2 })
        }),
{
    lemma_read_byte(data, start, repeat, 0);
    lemma_read_byte(data, start, repeat, 1);
}

/// Moves a MUS channel to the MIDI channel it sounds on.
pub fn remap_mus_channel(channel: i32) -> (r: i32)
    requires
        0 <= channel < 16,
    ensures
        r == remap_channel(channel as int),
{
    if channel == 15 {
        9
    } else if channel >= 9 {
        channel + 1
    } else {
        channel
    }
}

fn system_event(channel: i32, id: u8) -> (r: MidiCommand)
    ensures
        r == system_event_command(channel, id),
{
    match id {
        10 => MidiCommand::Message { channel, command: 0xB0, data1: 120, data2: 0 },
        11 => MidiCommand::Message { channel, command: 0xB0, data1: 123, data2: 0 },
        12 => MidiCommand::Message { channel, command: 0xB0, data1: 126, data2: 0 },
        13 => MidiCommand::Message { channel, command: 0xB0, data1: 127, data2: 0 },
        14 => MidiCommand::Message { channel, command: 0xB0, data1: 121, data2: 0 },
        _ => MidiCommand::Nothing,
    }
}

fn controller_event(channel: i32, number: u8, value: i32) -> (r: MidiCommand)
    ensures
        r == controller_event_command(channel, number, value),
{
    match number {
        0 => MidiCommand::Message { channel, command: 0xC0, data1: value, data2: 0 },
        1 => MidiCommand::Message { channel, command: 0xB0, data1: 0, data2: value },
        2 => MidiCommand::Message { channel, command: 0xB0, data1: 1, data2: value },
        3 => MidiCommand::Message { channel, command: 0xB0, data1: 7, data2: value },
        4 => MidiCommand::Message { channel, command: 0xB0, data1: 10, data2: value },
        5 => MidiCommand::Message { channel, command: 0xB0, data1: 11, data2: value },
        6 => MidiCommand::Message { channel, command: 0xB0, data1: 91, data2: value },
        7 => MidiCommand::Message { channel, command: 0xB0, data1: 93, data2: value },
        8 => MidiCommand::Message { channel, command: 0xB0, data1: 64, data2: value },
        9 => MidiCommand::Message { channel, command: 0xB0, data1: 67, data2: value },
        _ => MidiCommand::Nothing,
    }
}

fn decode_event_body<B: MusBytes>(
    data: &B,
    Ghost(start): Ghost<int>,
    repeat: bool,
    mask_velocity: bool,
    velocities: &[i32],
    channel: i32,
    event_type: u8,
    pos: &mut usize,
) -> (r: Result<(MidiCommand, Option<(usize, i32)>, usize), MusError>)
    requires
        0 <= start,
        0 <= channel < 16,
        cursor_at(data.bytes_view().len() as int, start, repeat, 1, *old(pos) as int),
    ensures
        match spec_event_body(
            data.bytes_view(),
            start,
            repeat,
            mask_velocity,
            velocities@,
            channel as int,
            event_type as int,
        ) {
            Err(e) => r == Err::<(MidiCommand, Option<(usize, i32)>, usize), MusError>(e),
            Ok((command, update, used)) => {
                &&& r == Ok::<(MidiCommand, Option<(usize, i32)>, usize), MusError>(
                    (command, update, used as usize),
                )
                &&& cursor_at(
                    data.bytes_view().len() as int,
                    start,
                    repeat,
                    used,
                    *final(pos) as int,
                )
            },
        },
{
    if event_type == 0 {
        let key = match next_byte(data, Ghost(start), repeat, pos, Ghost(1int)) {
            Some(b) => b,
            None => return Err(MusError::UnexpectedEnd),
        };
        Ok((MidiCommand::NoteOff { channel, key: key as i32 }, None, 2))
    } else if event_type == 1 {
        let note = match next_byte(data, Ghost(start), repeat, pos, Ghost(1int)) {
            Some(b) => b,
            None => return Err(MusError::UnexpectedEnd),
        };
        proof {
            lemma_byte_bits(note);
        }
        if note & 0x80 == 0 {
            if (channel as usize) < velocities.len() {
                Ok(
                    (
                        MidiCommand::NoteOn {
                            channel,
                            key: (note & 0x7F) as i32,
                            velocity: velocities[channel as usize],
                        },
                        None,
                        2,
                    ),
                )
            } else {
                Err(MusError::NoVelocitySlot)
            }
        } else {
            let v = match next_byte(data, Ghost(start), repeat, pos, Ghost(2int)) {
                Some(b) => b,
                None => return Err(MusError::UnexpectedEnd),
            };
            proof {
                lemma_byte_bits(v);
            }
            let velocity: i32 = if mask_velocity {
                (v & 0x7F) as i32
            } else {
                v as i32
            };
            if (channel as usize) < velocities.len() {
                Ok(
                    (
                        MidiCommand::NoteOn { channel, key: (note & 0x7F) as i32, velocity },
                        Some((channel as usize, velocity)),
                        3,
                    ),
                )
            } else {
                Err(MusError::NoVelocitySlot)
            }
        }
    } else if event_type == 2 {
        let bend = match next_byte(data, Ghost(start), repeat, pos, Ghost(1int)) {
            Some(b) => b,
            None => return Err(MusError::UnexpectedEnd),
        };
        proof {
            lemma_byte_bits(bend);
        }
        Ok(
            (
                MidiCommand::Message {
                    channel,
                    command: 0xE0,
                    data1: (bend << 7) as i32,
                    data2: (bend >> 1) as i32,
                },
                None,
                2,
            ),
        )
    } else if event_type == 3 {
        let id = match next_byte(data, Ghost(start), repeat, pos, Ghost(1int)) {
            Some(b) => b,
            None => return Err(MusError::UnexpectedEnd),
        };
        Ok((system_event(channel, id), None, 2))
    } else if event_type == 4 {
        let number = match next_byte(data, Ghost(start), repeat, pos, Ghost(1int)) {
            Some(b) => b,
            None => return Err(MusError::UnexpectedEnd),
        };
        let value = match next_byte(data, Ghost(start), repeat, pos, Ghost(2int)) {
            Some(b) => b,
            None => return Err(MusError::UnexpectedEnd),
        };
        Ok((controller_event(channel, number, value as i32), None, 3))
    } else {
        proof {
            if repeat {
                assert(*pos as int == (start + 1) % (data.bytes_view().len() as int));
            }
        }
        Ok((MidiCommand::Nothing, None, 1))
    }
}

fn decode_delay<B: MusBytes>(
    data: &B,
    Ghost(start): Ghost<int>,
    repeat: bool,
    pos: &mut usize,
    used: usize,
) -> (r: Result<(usize, usize), MusError>)
    requires
        0 <= start,
        1 <= used <= 3,
        repeat ==> data.bytes_view().len() <= isize::MAX,
        cursor_at(data.bytes_view().len() as int, start, repeat, used as int, *old(pos) as int),
    ensures
        match spec_delay(data.bytes_view(), start, repeat, used as int, 0, 0) {
            Err(e) => r == Err::<(usize, usize), MusError>(e),
            Ok((delay, end)) => r == Ok::<(usize, usize), MusError>((delay as usize, end as usize)),
        },
{
    let n = data.byte_count();
    let mut total: usize = 0;
    let mut count: usize = 0;
    let mut k: usize = used;
    loop
        invariant
            0 <= start,
            1 <= used <= 3,
            n == data.bytes_view().len(),
            repeat ==> n <= isize::MAX,
            k == used + count,
            count <= n,
            cursor_at(n as int, start, repeat, k as int, *pos as int),
            spec_delay(data.bytes_view(), start, repeat, used as int, 0, 0) == spec_delay(
                data.bytes_view(),
                start,
                repeat,
                k as int,
                total as int,
                count as int,
            ),
        decreases n - count,
    {
        if count >= n {
            return Err(MusError::EndlessDelay);
        }
        let d = match next_byte(data, Ghost(start), repeat, pos, Ghost(k as int)) {
            Some(b) => b,
            None => return Err(MusError::UnexpectedEnd),
        };
        proof {
            lemma_byte_bits(d);
        }
        let low = (d & 0x7F) as usize;
        let shifted = match total.checked_mul(128) {
            Some(x) => x,
            None => return Err(MusError::DelayOverflow),
        };
        total = match shifted.checked_add(low) {
            Some(x) => x,
            None => return Err(MusError::DelayOverflow),
        };
        if d & 0x80 == 0 {
            return Ok((total, k + 1));
        }
        k = k + 1;
        count = count + 1;
    }
}

proof fn lemma_delay_end(data: Seq<u8>, start: int, repeat: bool, k: int, acc: int, count: int)
    requires
        0 <= start,
        0 <= k,
        0 <= count,
    ensures
        spec_delay(data, start, repeat, k, acc, count) matches Ok((delay, end)) ==> {
            &&& k < end
            &&& end <= k + data.len() - count
            &&& (!repeat ==> start + end <= data.len())
            &&& delay <= usize::MAX
        },
    decreases data.len() - count,
{
    if count < data.len() {
        match stream_byte(data, start, repeat, k) {
            None => {},
            Some(d) => {
                let acc2 = acc * 128 + d % 128;
                if acc2 <= usize::MAX && d >= 128 {
                    lemma_delay_end(data, start, repeat, k + 1, acc2, count + 1);
                }
            },
        }
    }
}

/// A decoded event never takes more bytes than the data holds (plus the at
/// most three bytes before its delay when the data repeats); without
/// repetition it ends within the data. The channel whose velocity it
/// remembers has a slot, and the data values of its command fit in a byte.
pub proof fn lemma_event_length(
    data: Seq<u8>,
    start: int,
    repeat: bool,
    remap: bool,
    mask_velocity: bool,
    velocities: Seq<i32>,
)
    requires
        0 <= start,
        repeat ==> data.len() + 3 <= usize::MAX,
        data.len() <= usize::MAX,
    ensures
        spec_decode_mus_event(data, start, repeat, remap, mask_velocity, velocities) matches Ok(
            event,
        ) ==> {
            &&& 1 <= event.length <= data.len() + 3
            &&& (!repeat ==> start + event.length <= data.len())
            &&& (event.velocity_update matches Some((channel, _)) ==> channel < velocities.len())
            &&& midi_command_in_range(event.command)
        },
{
    if let Some(head) = stream_byte(data, start, repeat, 0) {
        if let Ok((command, update, used)) = spec_event_body(
            data,
            start,
            repeat,
            mask_velocity,
            velocities,
            event_channel(head, remap),
            event_type(head),
        ) {
            assert(1 <= used <= 3);
            assert(!repeat ==> start + used <= data.len());
            lemma_delay_end(data, start, repeat, used, 0, 0);
        }
    }
}

/// Decodes the MUS event at `start` in `data` without consuming anything:
/// its command, the velocity it remembers, its delay and its length.
#[verifier::spinoff_prover]
#[verifier::rlimit(40)]
pub fn decode_mus_event<B: MusBytes>(
    data: &B,
    start: usize,
    repeat: bool,
    remap: bool,
    mask_velocity: bool,
    velocities: &[i32],
) -> (r: Result<MusEvent, MusError>)
    requires
        repeat ==> data.bytes_view().len() <= isize::MAX,
    ensures
        r == spec_decode_mus_event(
            data.bytes_view(),
            start as int,
            repeat,
            remap,
            mask_velocity,
            velocities@,
        ),
{
    let n = data.byte_count();
    if repeat && n == 0 {
        return Err(MusError::UnexpectedEnd);
    }
    let mut pos: usize = if repeat {
        start % n
    } else {
        start
    };
    let head = match next_byte(data, Ghost(start as int), repeat, &mut pos, Ghost(0int)) {
        Some(b) => b,
        None => return Err(MusError::UnexpectedEnd),
    };
    proof {
        lemma_byte_bits(head);
    }
    let delay_present = head & 0x80 != 0;
    let event_type = (head & 0x70) >> 4;
    let raw_channel = (head & 0x0F) as i32;
    let channel = if remap {
        remap_mus_channel(raw_channel)
    } else {
        raw_channel
    };
    let (command, velocity_update, used) = match decode_event_body(
        data,
        Ghost(start as int),
        repeat,
        mask_velocity,
        velocities,
        channel,
        event_type,
        &mut pos,
    ) {
        Ok(t) => t,
        Err(e) => return Err(e),
    };
    if delay_present {
        let (delay, end) = match decode_delay(data, Ghost(start as int), repeat, &mut pos, used) {
            Ok(t) => t,
            Err(e) => return Err(e),
        };
        Ok(MusEvent { command, velocity_update, delay: Some(delay), length: end })
    } else {
        Ok(MusEvent { command, velocity_update, delay: None, length: used })
    }
}


/// The song of a MUS lump lies at `(offset, offset + length)`: the header is 14
/// bytes, begins with the signature `MUS` 0x1A, and holds the song's length and
/// offset as 16-bit little-endian numbers at bytes 4 and 6.
pub open spec fn spec_mus_song_range(lump: Seq<u8>) -> Result<(int, int), MusError> {
    if lump.len() < 14 {
        Err(MusError::TooShort)
    } else if !(lump[0] == 0x4D && lump[1] == 0x55 && lump[2] == 0x53 && lump[3] == 0x1A) {
        Err(MusError::BadSignature)
    } else {
        let length = le_u16(lump, 4);
        let offset = le_u16(lump, 6);
        if offset + length > 0xFFFF || offset + length > lump.len() {
            Err(MusError::SongOutOfBounds)
        } else {
            Ok((offset, offset + length))
        }
    }
}

/// Checks the header of a MUS lump and returns where its song data lies.
pub fn mus_song_range(lump: &[u8]) -> (r: Result<(usize, usize), MusError>)
    ensures
        match spec_mus_song_range(lump@) {
            Err(e) => r == Err::<(usize, usize), MusError>(e),
            Ok((a, b)) => r == Ok::<(usize, usize), MusError>((a as usize, b as usize)),
        },
{
    if lump.len() < 14 {
        return Err(MusError::TooShort);
    }
    if !(lump[0] == 0x4D && lump[1] == 0x55 && lump[2] == 0x53 && lump[3] == 0x1A) {
        return Err(MusError::BadSignature);
    }
    let song_length = read_u16_le(lump, 4);
    let song_offset = read_u16_le(lump, 6);
    let song_end = match song_offset.checked_add(song_length) {
        Some(e) => e,
        None => return Err(MusError::SongOutOfBounds),
    };
    if song_end as usize > lump.len() {
        return Err(MusError::SongOutOfBounds);
    }
    Ok((song_offset as usize, song_end as usize))
}

/// Parses the MUS event at the front of `bytes`, which must hold a whole
/// event, and sends its command through `sink`. The event's bytes are removed
/// from the front of `bytes`, the velocity it gives its channel is remembered
/// in `last_velocity`, and the length in bytes of the event is returned.
pub fn parse_mus_event(
    sink: &mut MidiSink,
    last_velocity: &mut Vec<i32>,
    bytes: &mut VecDeque<&u8>,
) -> (r: Option<usize>)
    requires
        spec_decode_mus_event(
            old(bytes).bytes_view(),
            0,
            false,
            false,
            false,
            old(last_velocity)@,
        ) is Ok,
    ensures
        match spec_decode_mus_event(
            old(bytes).bytes_view(),
            0,
            false,
            false,
            false,
            old(last_velocity)@,
        ) {
            Err(_) => false,
            Ok(event) => {
                &&& r == Some(event.length)
                &&& final(bytes)@ == old(bytes)@.subrange(
                    event.length as int,
                    old(bytes)@.len() as int,
                )
                &&& final(last_velocity)@ == apply_velocity_update(
                    old(last_velocity)@,
                    event.velocity_update,
                )
                &&& final(sink).sent() == old(sink).sent() + sent_for(event.command)
            },
        },
{
    let event = match decode_mus_event(bytes, 0, false, false, false, last_velocity.as_slice()) {
        Ok(e) => e,
        Err(_) => {
            return None;
        },
    };
    let n = bytes.len();
    proof {
        broadcast use vstd::std_specs::vecdeque::group_vec_dequeue_axioms;
        assert(bytes.bytes_view().len() == bytes@.len());
        lemma_event_length(bytes.bytes_view(), 0, false, false, false, last_velocity@);
    }
    send_midi_command(sink, event.command);
    if let Some((channel, velocity)) = event.velocity_update {
        last_velocity.set(channel, velocity);
    }
    let ghost before = bytes@;
    let mut i: usize = 0;
    while i < event.length
        invariant
            event.length <= before.len(),
            i <= event.length,
            bytes@ == before.subrange(i as int, before.len() as int),
        decreases event.length - i,
    {
        bytes.pop_front();
        i = i + 1;
    }
    Some(event.length)
}


/// Moving MUS channels to MIDI channels loses none: every channel lands on a
/// MIDI channel, no two on the same one, and MUS percussion (15) lands on the
/// MIDI percussion channel (9).
pub proof fn lemma_remap_channel_bijective()
    ensures
        forall|c: int| 0 <= c < 16 ==> 0 <= #[trigger] remap_channel(c) < 16,
        forall|c: int, d: int|
            0 <= c < 16 && 0 <= d < 16 && c != d ==> #[trigger] remap_channel(c)
                != #[trigger] remap_channel(d),
        remap_channel(15) == 9,
        forall|c: int| 0 <= c < 9 ==> #[trigger] remap_channel(c) == c,
{
}


proof fn lemma_delay_shift(data: Seq<u8>, start: int, k: int, acc: int, count: int)
    requires
        0 <= start <= data.len(),
        0 <= count < k <= data.len() - start,
    ensures
        spec_delay(data, start, false, k, acc, count) == spec_delay(
            data.subrange(start, data.len() as int),
            0,
            false,
            k,
            acc,
            count,
        ),
    decreases data.len() - count,
{
    let rest = data.subrange(start, data.len() as int);
    assert(stream_byte(data, start, false, k) == stream_byte(rest, 0, false, k));
    if k < data.len() - start {
        let d = data[start + k];
        let acc2 = acc * 128 + d % 128;
        if acc2 <= usize::MAX && d >= 128 {
            lemma_delay_shift(data, start, k + 1, acc2, count + 1);
        }
    }
}

/// Parsing an event at an offset of data that does not repeat is parsing it at
/// the start of the data that remains: the event cannot see the bytes before
/// it, so the song stream's parser and the byte queue's parser read the same
/// events.
pub proof fn lemma_decode_at_offset(
    data: Seq<u8>,
    start: int,
    remap: bool,
    mask_velocity: bool,
    velocities: Seq<i32>,
)
    requires
        0 <= start <= data.len(),
    ensures
        spec_decode_mus_event(data, start, false, remap, mask_velocity, velocities)
            == spec_decode_mus_event(
            data.subrange(start, data.len() as int),
            0,
            false,
            remap,
            mask_velocity,
            velocities,
        ),
{
    let rest = data.subrange(start, data.len() as int);
    assert(stream_byte(data, start, false, 0) == stream_byte(rest, 0, false, 0));
    assert(stream_byte(data, start, false, 1) == stream_byte(rest, 0, false, 1));
    assert(stream_byte(data, start, false, 2) == stream_byte(rest, 0, false, 2));
    if let Some(head) = stream_byte(data, start, false, 0) {
        let body = spec_event_body(
            data,
            start,
            false,
            mask_velocity,
            velocities,
            event_channel(head, remap),
            event_type(head),
        );
        assert(body == spec_event_body(
            rest,
            0,
            false,
            mask_velocity,
            velocities,
            event_channel(head, remap),
            event_type(head),
        ));
        if let Ok((command, update, used)) = body {
            assert(stream_byte(data, start, false, used - 1) is Some);
            lemma_delay_shift(data, start, used, 0, 0);
        }
    }
}

} // verus!
