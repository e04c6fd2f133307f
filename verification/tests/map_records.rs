use doom_wgpu::app::{App, AppAction, WindowEvent};
use doom_wgpu::bytes::{bytes_start_with, read_i16_le, read_i32_le, read_u16_le, read_u32_le};
use doom_wgpu::fixed::Fixed;
use doom_wgpu::wad::map::{get_and_check_map_lump, get_map_data, read_map_things, GameMap, LineDef, MapError, MapThing, Vertex, ZVertex};
use doom_wgpu::wad::sound::{Sound, SoundError};
use doom_wgpu::wad::LumpInfo;
use std::collections::VecDeque;

fn thing(flags: i16) -> MapThing {
    MapThing { x_position: 0, y_position: 0, angle_facing: 0, thing_type: 1, flags }
}

#[test]
fn little_endian_reads() {
    let b = [0x34, 0x12, 0xFF, 0xFF, 0x01, 0x00, 0x00, 0x80];
    assert_eq!(read_u16_le(&b, 0), 0x1234);
    assert_eq!(read_i16_le(&b, 2), -1);
    assert_eq!(read_u32_le(&b, 4), 0x8000_0001);
    assert_eq!(read_i32_le(&b, 4), i32::MIN + 1);
    assert_eq!(read_i32_le(&b, 0), -0xEDCC);
    assert!(bytes_start_with(b"DSPISTOL", b"DS"));
    assert!(!bytes_start_with(b"DS", b"DSP"));
}

#[test]
fn linedef_flags() {
    let l = LineDef { starting_vertex: 0, ending_vertex: 1, flags: 0x1FF, special: 0, tag: 0, front_sidedef_index: 0, back_sidedef_index: 0xFFFF };
    assert!(l.blocking() && l.monster_blocking() && l.two_sided() && l.top_unpegged() && l.bottom_unpegged());
    assert!(l.secret() && l.sound_blocking() && l.automap_invisible() && l.automap_always_visible());
    let l = LineDef { flags: 0x4, ..l };
    assert!(l.two_sided());
    assert!(!l.blocking() && !l.monster_blocking() && !l.secret() && !l.automap_always_visible());
}

#[test]
fn thing_spawning() {
    assert!(thing(0x1).should_spawn(1, true));
    assert!(thing(0x1).should_spawn(2, false));
    assert!(!thing(0x1).should_spawn(3, true));
    assert!(thing(0x2).should_spawn(3, true));
    assert!(thing(0x4).should_spawn(5, true));
    assert!(!thing(0x4).should_spawn(4, false) == false);
    assert!(!thing(0x17).should_spawn(4, true));
    assert!(thing(0x17).should_spawn(4, false));
    assert!(!thing(0x11).should_spawn(0, true));
    assert!(!thing(0x11).should_spawn(9, true));
    assert!(thing(0x8).in_ambush());
    assert!(!thing(0x7).in_ambush());
}

#[test]
fn thing_records() {
    let bytes = [0xFF, 0xFF, 2, 0, 90, 0, 1, 0, 0x08, 0x00];
    assert_eq!(MapThing::from_bytes(&bytes, 0), MapThing { x_position: -1, y_position: 2, angle_facing: 90, thing_type: 1, flags: 8 });
    let mut file = vec![0u8; 3];
    file.extend_from_slice(&bytes);
    file.extend_from_slice(&bytes);
    let info = LumpInfo { file_position: 3, size: 20, name: *b"THINGS\0\0" };
    assert_eq!(get_map_data(&file, info).len(), 2);
    assert_eq!(read_map_things(&file, info).unwrap(), get_map_data(&file, info));
    assert_eq!(read_map_things(&file, LumpInfo { size: 21, ..info }), Err(MapError::LumpOutOfBounds));
    assert_eq!(read_map_things(&file, LumpInfo { size: 19, ..info }), Err(MapError::PartialRecord));
    assert_eq!(read_map_things(&file, LumpInfo { file_position: -1, ..info }), Err(MapError::LumpOutOfBounds));
}

#[test]
fn map_lumps_are_taken_in_order() {
    let info = LumpInfo { file_position: 0, size: 0, name: *b"LINEDEFS" };
    let other = LumpInfo { name: *b"SIDEDEFS", ..info };
    let mut queue = VecDeque::from(vec![info, other]);
    assert_eq!(get_and_check_map_lump(&mut queue, "THINGS"), info);
    assert_eq!(queue.len(), 1);
    assert_eq!(get_and_check_map_lump(&mut queue, "THINGS"), other);
    assert!(queue.is_empty());
    let mut queue = VecDeque::from(vec![info, other]);
    let m = GameMap::new(&[], &mut queue);
    assert!(m.things.is_empty());
    assert_eq!(queue, VecDeque::from(vec![other]));
}

#[test]
fn vertices_to_fixed_point() {
    let z = ZVertex::from(Vertex { x_position: -3, y_position: 2 });
    assert_eq!(z, ZVertex { x_position: Fixed(-3 * 65536), y_position: Fixed(2 * 65536) });
    assert_eq!(Fixed::from(i16::MIN), Fixed(i32::MIN));
}

#[test]
fn sound_lumps() {
    let mut lump = vec![3, 0, 0x11, 0x2B, 34, 0, 0, 0];
    lump.extend_from_slice(&[0; 16]);
    lump.extend_from_slice(&[1, 2, 0, 0]);
    let s = Sound::new(&lump);
    assert_eq!(Sound::decode(&lump).unwrap().samples, s.samples);
    assert_eq!(s.sample_rate, 11025);
    assert_eq!(s.samples, vec![1, 2]);
    assert!(matches!(Sound::decode(&[3]), Err(SoundError::TooShort)));
    assert!(matches!(Sound::decode(&[4, 0]), Err(SoundError::UnsupportedFormat(4))));
    assert!(matches!(Sound::decode(&[3, 0, 1]), Err(SoundError::TooShort)));
    assert!(matches!(Sound::decode(&[3, 0, 1, 0, 31, 0, 0, 0]), Err(SoundError::BadSampleCount)));
    assert!(matches!(Sound::decode(&[3, 0, 1, 0, 40, 0, 0, 0]), Err(SoundError::TooShort)));
    let mut silent = lump.clone();
    silent[2] = 0;
    silent[3] = 0;
    assert!(matches!(Sound::decode(&silent), Err(SoundError::ZeroSampleRate)));
}

#[test]
fn app_event_decisions() {
    let mut app: App<u32> = App::new("DOOM1.WAD");
    assert_eq!(app.wad_name(), "DOOM1.WAD");
    assert_eq!(app.window_event(WindowEvent::CloseRequested), AppAction::Nothing);
    assert!(app.state_mut().is_none());
    app.user_event(7);
    assert_eq!(app.window_event(WindowEvent::CloseRequested), AppAction::Exit);
    assert_eq!(app.window_event(WindowEvent::Resized { width: 3, height: 4 }), AppAction::Resize { width: 3, height: 4 });
    assert_eq!(app.window_event(WindowEvent::RedrawRequested), AppAction::Render);
    assert_eq!(app.window_event(WindowEvent::Other), AppAction::Nothing);
    *app.state_mut().unwrap() += 1;
    assert_eq!(app.state_mut(), Some(&mut 8));
}
