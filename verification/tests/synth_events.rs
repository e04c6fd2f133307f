use std::collections::VecDeque;
use std::sync::Arc;

use doom_wgpu::audio::dmx::MusStream;
use doom_wgpu::midi::{send_midi_command, MidiCommand, MidiSink};
use doom_wgpu::wad::mus::{decode_mus_event, MusError};
use doom_wgpu::wad::parse_mus_event;
use rustysynth::{SoundFont, Synthesizer, SynthesizerSettings};

fn chunk(id: &[u8; 4], body: &[u8]) -> Vec<u8> {
    let mut out = id.to_vec();
    out.extend_from_slice(&(body.len() as u32).to_le_bytes());
    out.extend_from_slice(body);
    out
}

fn list(kind: &[u8; 4], chunks: &[Vec<u8>]) -> Vec<u8> {
    let mut body = kind.to_vec();
    for c in chunks {
        body.extend_from_slice(c);
    }
    chunk(b"LIST", &body)
}

fn name20(name: &str) -> Vec<u8> {
    let mut out = name.as_bytes().to_vec();
    out.resize(20, 0);
    out
}

fn u16s(values: &[u16]) -> Vec<u8> {
    values.iter().flat_map(|v| v.to_le_bytes()).collect()
}

/// A SoundFont with one preset, one instrument and one square-wave sample.
fn soundfont() -> Arc<SoundFont> {
    let wave: Vec<u8> = (0..64)
        .flat_map(|i: i16| (if i % 8 < 4 { 12000i16 } else { -12000 }).to_le_bytes())
        .collect();

    let mut phdr = Vec::new();
    for (name, zone) in [("Square", 0u16), ("EOP", 1)] {
        phdr.extend(name20(name));
        phdr.extend(u16s(&[0, 0, zone]));
        phdr.extend([0u8; 12]);
    }
    let mut inst = Vec::new();
    for (name, zone) in [("Square", 0u16), ("EOI", 1)] {
        inst.extend(name20(name));
        inst.extend(u16s(&[zone]));
    }
    let mut shdr = Vec::new();
    shdr.extend(name20("Square"));
    for v in [0i32, 48, 8, 40, 44100] {
        shdr.extend(v.to_le_bytes());
    }
    shdr.extend([60u8, 0]);
    shdr.extend(u16s(&[0, 1]));
    shdr.extend(name20("EOS"));
    shdr.extend([0u8; 26]);

    let file_body = [
        b"sfbk".to_vec(),
        list(b"INFO", &[]),
        list(b"sdta", &[chunk(b"smpl", &wave)]),
        list(
            b"pdta",
            &[
                chunk(b"phdr", &phdr),
                chunk(b"pbag", &u16s(&[0, 0, 1, 0])),
                chunk(b"pgen", &u16s(&[41, 0, 0, 0])),
                chunk(b"inst", &inst),
                chunk(b"ibag", &u16s(&[0, 0, 1, 0])),
                chunk(b"igen", &u16s(&[53, 0, 0, 0])),
                chunk(b"shdr", &shdr),
            ],
        ),
    ]
    .concat();
    let file = chunk(b"RIFF", &file_body);
    Arc::new(SoundFont::new(&mut &file[..]).unwrap())
}

fn synthesizer() -> MidiSink {
    let mut settings = SynthesizerSettings::new(44100);
    settings.enable_reverb_and_chorus = false;
    MidiSink::new(Synthesizer::new(&soundfont(), &settings).unwrap())
}

fn loudness(sink: &mut MidiSink) -> f32 {
    let mut left = vec![0f32; 512];
    let mut right = vec![0f32; 512];
    sink.synthesizer().render(&mut left, &mut right);
    left.iter().chain(right.iter()).map(|s| s.abs()).sum()
}

fn mus_lump(song: &[u8]) -> Vec<u8> {
    let mut lump = b"MUS\x1A".to_vec();
    lump.extend_from_slice(&(song.len() as u16).to_le_bytes());
    lump.extend_from_slice(&14u16.to_le_bytes());
    lump.extend_from_slice(&[1, 0, 0, 0, 0, 0]);
    lump.extend_from_slice(song);
    lump
}

/// Play key 60 on channel 0 at velocity 100; then release it with a delay of
/// 5 ticks, or of 1 * 128 + 5 ticks.
const SONG: [u8; 6] = [0x10, 0x80 | 60, 100, 0x80, 60, 0x05];
const SONG_WITH_DELAY: [u8; 7] = [0x10, 0x80 | 60, 100, 0x80, 60, 0x81, 0x05];

#[test]
fn midi_commands_reach_the_synthesizer() {
    let mut sink = synthesizer();
    assert_eq!(loudness(&mut sink), 0.0);
    send_midi_command(&mut sink, MidiCommand::Nothing);
    assert_eq!(loudness(&mut sink), 0.0);
    send_midi_command(&mut sink, MidiCommand::NoteOn { channel: 0, key: 60, velocity: 100 });
    assert!(loudness(&mut sink) > 0.0);
    send_midi_command(
        &mut sink,
        MidiCommand::Message { channel: 0, command: 0xB0, data1: 120, data2: 0 },
    );
    assert_eq!(loudness(&mut sink), 0.0);
}

#[test]
fn deque_events_consume_their_bytes() {
    let mut sink = synthesizer();
    let mut velocities = vec![0; 16];
    let song = SONG_WITH_DELAY;
    let mut bytes: VecDeque<&u8> = song.iter().collect();
    assert_eq!(parse_mus_event(&mut sink, &mut velocities, &mut bytes), Some(3));
    assert_eq!(bytes.len(), 4);
    assert_eq!(velocities[0], 100);
    assert!(loudness(&mut sink) > 0.0);
    assert_eq!(parse_mus_event(&mut sink, &mut velocities, &mut bytes), Some(4));
    assert!(bytes.is_empty());
}

#[test]
fn deque_events_that_cannot_be_parsed() {
    let velocities = vec![7; 16];
    let truncated = [0x10u8, 0x80 | 60];
    let bytes: VecDeque<&u8> = truncated.iter().collect();
    assert_eq!(decode_mus_event(&bytes, 0, false, false, false, &velocities), Err(MusError::UnexpectedEnd));
    let empty: VecDeque<&u8> = VecDeque::new();
    assert_eq!(decode_mus_event(&empty, 0, false, false, false, &velocities), Err(MusError::UnexpectedEnd));
    let short_velocities = vec![0; 2];
    let play = [0x13u8, 60];
    let bytes: VecDeque<&u8> = play.iter().collect();
    assert_eq!(
        decode_mus_event(&bytes, 0, false, false, false, &short_velocities),
        Err(MusError::NoVelocitySlot)
    );
}

#[test]
fn stream_events_run_until_a_delay() {
    let mut sink = synthesizer();
    let mut stream = MusStream::new(&mus_lump(&SONG_WITH_DELAY), false);
    assert_eq!(stream.parse_mus_event(&mut sink), Ok(None));
    assert!(!stream.at_end());
    assert_eq!(stream.parse_mus_event(&mut sink), Ok(Some(133)));
    assert!(stream.at_end());

    let mut stream = MusStream::new(&mus_lump(&SONG_WITH_DELAY), false);
    assert_eq!(stream.parse_mus_events(&mut sink), Ok(Some(133)));
    assert!(stream.at_end());
    assert_eq!(stream.parse_mus_events(&mut sink), Ok(None));
}

#[test]
fn looping_stream_starts_over() {
    let mut sink = synthesizer();
    let mut stream = MusStream::new(&mus_lump(&SONG), true);
    assert_eq!(stream.parse_mus_events(&mut sink), Ok(Some(5)));
    assert!(!stream.at_end());
    assert_eq!(stream.parse_mus_events(&mut sink), Ok(Some(5)));
    assert_eq!(stream.get_byte(), Ok(0x10));
}

#[test]
fn looping_stream_without_delay_is_refused() {
    let mut sink = synthesizer();
    let mut stream = MusStream::new(&mus_lump(&[0x10, 60, 0x00, 60]), true);
    assert_eq!(stream.parse_mus_events(&mut sink), Err(MusError::NoDelay));
}
