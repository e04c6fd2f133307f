use doom_wgpu::audio::dmx::{samples_for_delay, MusStream};
use doom_wgpu::midi::MidiCommand;
use doom_wgpu::wad::mus::{decode_mus_event, mus_song_range, remap_mus_channel, MusError, MusEvent};

fn decode(data: &[u8], start: usize, repeat: bool, remap: bool, mask: bool) -> Result<MusEvent, MusError> {
    let v: Vec<u8> = data.to_vec();
    let velocities: Vec<i32> = (0..16).map(|i| 10 * i).collect();
    decode_mus_event(&v, start, repeat, remap, mask, &velocities)
}

fn mus_lump(song: &[u8]) -> Vec<u8> {
    let mut lump = b"MUS\x1A".to_vec();
    lump.extend_from_slice(&(song.len() as u16).to_le_bytes());
    lump.extend_from_slice(&16u16.to_le_bytes());
    lump.extend_from_slice(&[1, 0, 0, 0, 0, 0]);
    lump.extend_from_slice(&[0xEE, 0xEE]);
    lump.extend_from_slice(song);
    lump
}

#[test]
fn release_note_event() {
    let e = decode(&[0x03, 60], 0, false, false, false).unwrap();
    assert_eq!(e, MusEvent { command: MidiCommand::NoteOff { channel: 3, key: 60 }, velocity_update: None, delay: None, length: 2 });
}

#[test]
fn play_note_uses_remembered_velocity() {
    let e = decode(&[0x12, 64], 0, false, false, false).unwrap();
    assert_eq!(e.command, MidiCommand::NoteOn { channel: 2, key: 64, velocity: 20 });
    assert_eq!(e.velocity_update, None);
    assert_eq!(e.length, 2);
}

#[test]
fn play_note_with_new_velocity() {
    let e = decode(&[0x15, 0x80 | 64, 0xFF], 0, false, false, false).unwrap();
    assert_eq!(e.command, MidiCommand::NoteOn { channel: 5, key: 64, velocity: 255 });
    assert_eq!(e.velocity_update, Some((5, 255)));
    let e = decode(&[0x15, 0x80 | 64, 0xFF], 0, false, false, true).unwrap();
    assert_eq!(e.command, MidiCommand::NoteOn { channel: 5, key: 64, velocity: 127 });
    assert_eq!(e.velocity_update, Some((5, 127)));
    assert_eq!(e.length, 3);
}

#[test]
fn pitch_bend_event() {
    let e = decode(&[0x20, 0x81], 0, false, false, false).unwrap();
    assert_eq!(e.command, MidiCommand::Message { channel: 0, command: 0xE0, data1: 128, data2: 0x40 });
    let e = decode(&[0x20, 0x80], 0, false, false, false).unwrap();
    assert_eq!(e.command, MidiCommand::Message { channel: 0, command: 0xE0, data1: 0, data2: 0x40 });
}

#[test]
fn system_events() {
    let expected = [(10, 120), (11, 123), (12, 126), (13, 127), (14, 121)];
    for (id, data1) in expected {
        let e = decode(&[0x31, id], 0, false, false, false).unwrap();
        assert_eq!(e.command, MidiCommand::Message { channel: 1, command: 0xB0, data1, data2: 0 });
    }
    assert_eq!(decode(&[0x31, 15], 0, false, false, false).unwrap().command, MidiCommand::Nothing);
}

#[test]
fn controller_events() {
    let e = decode(&[0x44, 0, 30], 0, false, false, false).unwrap();
    assert_eq!(e.command, MidiCommand::Message { channel: 4, command: 0xC0, data1: 30, data2: 0 });
    assert_eq!(e.length, 3);
    let numbers = [(1, 0), (2, 1), (3, 7), (4, 10), (5, 11), (6, 91), (7, 93), (8, 64), (9, 67)];
    for (number, data1) in numbers {
        let e = decode(&[0x44, number, 99], 0, false, false, false).unwrap();
        assert_eq!(e.command, MidiCommand::Message { channel: 4, command: 0xB0, data1, data2: 99 });
    }
    assert_eq!(decode(&[0x44, 10, 99], 0, false, false, false).unwrap().command, MidiCommand::Nothing);
}

#[test]
fn events_five_to_seven_send_nothing() {
    for head in [0x50u8, 0x60, 0x70] {
        let e = decode(&[head], 0, false, false, false).unwrap();
        assert_eq!(e, MusEvent { command: MidiCommand::Nothing, velocity_update: None, delay: None, length: 1 });
    }
}

#[test]
fn delays_are_base_128() {
    let e = decode(&[0x83, 60, 0x05], 0, false, false, false).unwrap();
    assert_eq!(e.delay, Some(5));
    assert_eq!(e.length, 3);
    let e = decode(&[0x83, 60, 0x81, 0x80, 0x03, 0x44], 0, false, false, false).unwrap();
    assert_eq!(e.delay, Some(128 * 128 + 3));
    assert_eq!(e.length, 5);
}

#[test]
fn decode_errors() {
    assert_eq!(decode(&[], 0, false, false, false), Err(MusError::UnexpectedEnd));
    assert_eq!(decode(&[0x03], 0, false, false, false), Err(MusError::UnexpectedEnd));
    assert_eq!(decode(&[0x83, 60, 0x81], 0, false, false, false), Err(MusError::UnexpectedEnd));
    let mut big = vec![0x83, 60];
    big.extend_from_slice(&[0xFF; 10]);
    big.push(0x7F);
    assert_eq!(decode(&big, 0, false, false, false), Err(MusError::DelayOverflow));
    assert_eq!(decode(&[0x83, 0x80], 0, true, false, false), Err(MusError::EndlessDelay));
    assert_eq!(decode(&[0x83, 60, 0x80], 0, true, false, false).unwrap().delay, Some(3 * 128 + 60));
    let v: Vec<u8> = vec![0x12, 64];
    assert_eq!(decode_mus_event(&v, 0, false, false, false, &[0, 0]), Err(MusError::NoVelocitySlot));
    assert_eq!(decode(&[], 0, true, false, false), Err(MusError::UnexpectedEnd));
}

#[test]
fn repeating_data_wraps_around() {
    let e = decode(&[60, 0x03], 1, true, false, false).unwrap();
    assert_eq!(e.command, MidiCommand::NoteOff { channel: 3, key: 60 });
    assert_eq!(e.length, 2);
    let e = decode(&[60, 0x03], 3, true, false, false).unwrap();
    assert_eq!(e.command, MidiCommand::NoteOff { channel: 3, key: 60 });
}

#[test]
fn channel_remapping() {
    assert_eq!(remap_mus_channel(15), 9);
    assert_eq!(remap_mus_channel(9), 10);
    assert_eq!(remap_mus_channel(14), 15);
    assert_eq!(remap_mus_channel(8), 8);
    let mut seen: Vec<i32> = (0..16).map(remap_mus_channel).collect();
    seen.sort();
    assert_eq!(seen, (0..16).collect::<Vec<i32>>());
    let e = decode(&[0x0F, 35], 0, false, true, false).unwrap();
    assert_eq!(e.command, MidiCommand::NoteOff { channel: 9, key: 35 });
}

#[test]
fn song_range_from_header() {
    let lump = mus_lump(&[1, 2, 3]);
    assert_eq!(mus_song_range(&lump), Ok((16, 19)));
    assert_eq!(mus_song_range(&lump[..13]), Err(MusError::TooShort));
    let mut bad = lump.clone();
    bad[3] = 0;
    assert_eq!(mus_song_range(&bad), Err(MusError::BadSignature));
    assert_eq!(mus_song_range(&lump[..18]), Err(MusError::SongOutOfBounds));
    let mut overflow = lump.clone();
    overflow[4..6].copy_from_slice(&0xFFF0u16.to_le_bytes());
    assert_eq!(mus_song_range(&overflow), Err(MusError::SongOutOfBounds));
}

#[test]
fn stream_get_byte_and_end() {
    let lump = mus_lump(&[7, 8]);
    let mut once = MusStream::new(&lump, false);
    assert!(!once.at_end());
    assert_eq!(once.get_byte(), Ok(7));
    assert_eq!(once.get_byte(), Ok(8));
    assert!(once.at_end());
    assert_eq!(once.get_byte(), Err(MusError::UnexpectedEnd));
    let mut looping = MusStream::new(&lump, true);
    assert_eq!(looping.get_byte(), Ok(7));
    assert_eq!(looping.get_byte(), Ok(8));
    assert_eq!(looping.get_byte(), Ok(7));
    assert!(!looping.at_end());
    assert!(mus_song_range(&lump[..10]).is_err());
    let empty = MusStream::new(&mus_lump(&[]), true);
    assert!(empty.at_end());
}

#[test]
fn delays_last_315_samples_per_tick() {
    assert_eq!(samples_for_delay(0), 0);
    assert_eq!(samples_for_delay(1), 315);
    assert_eq!(samples_for_delay(133), 41895);
    assert_eq!(samples_for_delay(140), 44100);
}
