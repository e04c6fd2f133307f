use doom_wgpu::wad::demo::{DemoError, DemoHeader, DemoTic};
use doom_wgpu::wad::map::{MapError, MapThing};
use doom_wgpu::wad::sound::SoundError;
use doom_wgpu::wad::wad::{parse_lump, Lump, LumpInfo, Wad, WadError};

fn name8(s: &[u8]) -> [u8; 8] {
    let mut n = [0u8; 8];
    n[..s.len()].copy_from_slice(s);
    n
}

/// Builds a WAD file: the lumps' data follow the 12-byte header, then the directory.
fn build_wad(kind: &[u8; 4], lumps: &[([u8; 8], Vec<u8>)]) -> Vec<u8> {
    let mut file = Vec::new();
    file.extend_from_slice(kind);
    file.extend_from_slice(&(lumps.len() as i32).to_le_bytes());
    file.extend_from_slice(&[0, 0, 0, 0]);
    let mut directory = Vec::new();
    for (name, data) in lumps {
        let position = file.len() as i32;
        file.extend_from_slice(data);
        directory.extend_from_slice(&position.to_le_bytes());
        directory.extend_from_slice(&(data.len() as i32).to_le_bytes());
        directory.extend_from_slice(name);
    }
    let table = file.len() as i32;
    file[8..12].copy_from_slice(&table.to_le_bytes());
    file.extend_from_slice(&directory);
    file
}

fn palette_bytes() -> Vec<u8> {
    (0..768u32).map(|i| (i % 251) as u8).collect()
}

fn sound_lump(rate: u16, samples: &[u8]) -> Vec<u8> {
    let mut lump = Vec::new();
    lump.extend_from_slice(&3u16.to_le_bytes());
    lump.extend_from_slice(&rate.to_le_bytes());
    lump.extend_from_slice(&(samples.len() as u32 + 32).to_le_bytes());
    lump.extend_from_slice(&[0u8; 16]);
    lump.extend_from_slice(samples);
    lump.extend_from_slice(&[0u8; 16]);
    lump
}

fn thing_bytes(x: i16, y: i16, angle: i16, kind: i16, flags: i16) -> Vec<u8> {
    let mut v = Vec::new();
    for f in [x, y, angle, kind, flags] {
        v.extend_from_slice(&f.to_le_bytes());
    }
    v
}

/// "E१M१": a map marker name with Devanagari digits, exactly 8 bytes long.
fn devanagari_marker() -> [u8; 8] {
    let s = "E\u{0967}M\u{0967}".as_bytes();
    assert_eq!(s.len(), 8);
    name8(s)
}

fn sample_wad() -> Vec<u8> {
    let mut colormap = vec![0u8; 512];
    colormap[300] = 7;
    let mut demo = vec![109u8, 2, 1, 1, 0, 0, 0, 0, 0, 1, 0, 0, 0];
    demo.extend_from_slice(&[25, 0, 0, 0, 50, 1, 2, 3]);
    demo.push(0x80);
    let mut things = thing_bytes(100, -200, 90, 1, 7);
    things.extend(thing_bytes(-5, 6, 180, 3004, 0x18));
    build_wad(
        b"IWAD",
        &[
            (name8(b"PLAYPAL"), palette_bytes()),
            (name8(b"COLORMAP"), colormap),
            (name8(b"ENDOOM"), vec![1, 2, 3]),
            (name8(b"DEMO1"), demo),
            (name8(b"DSPISTOL"), sound_lump(11025, &[128, 200, 3])),
            (name8(b"DPPISTOL"), vec![0, 0, 1, 0]),
            (name8(b"D_E1M1"), vec![b'M', b'U', b'S', 0x1A, 9, 9]),
            (name8(b"E1M1"), vec![]),
            (devanagari_marker(), vec![]),
            (name8(b"THINGS"), things),
            (name8(b"PLAYPAL"), vec![1]),
            (name8(b"FLOOR0_1"), vec![5; 10]),
        ],
    )
}

#[test]
fn wad_parse_reads_every_kind_of_lump() {
    let wad = Wad::parse(&sample_wad()).unwrap();
    let names: Vec<&str> = wad.lump_names().iter().map(|s| s.as_str()).collect();
    assert_eq!(
        names,
        vec![
            "PLAYPAL\0",
            "COLORMAP",
            "ENDOOM\0\0",
            "DEMO1\0\0\0",
            "DSPISTOL",
            "DPPISTOL",
            "D_E1M1\0\0",
            "E1M1\0\0\0\0",
            "E\u{0967}M\u{0967}",
            "FLOOR0_1",
        ]
    );
    let lumps = wad.lumps();
    assert_eq!(lumps.len(), 10);
    assert!(matches!(lumps[2], Lump::Ignored));
    assert!(matches!(lumps[5], Lump::SoundPCSpeaker));
    assert!(matches!(lumps[7], Lump::Unknown));
    assert!(matches!(lumps[9], Lump::Unknown));
    match &lumps[3] {
        Lump::Demo(d) => {
            assert_eq!(d.header().game_version, 109);
            assert_eq!(d.header().p1_present, 1);
            assert_eq!(
                d.tics(),
                &vec![
                    DemoTic { stride: 25, strafe: 0, turn: 0, flags: 0 },
                    DemoTic { stride: 50, strafe: 1, turn: 2, flags: 3 },
                ]
            );
        }
        _ => panic!("DEMO1 is not a demo"),
    }
    match &lumps[8] {
        Lump::GameMap(m) => {
            assert_eq!(
                m.things,
                vec![
                    MapThing { x_position: 100, y_position: -200, angle_facing: 90, thing_type: 1, flags: 7 },
                    MapThing { x_position: -5, y_position: 6, angle_facing: 180, thing_type: 3004, flags: 0x18 },
                ]
            );
        }
        _ => panic!("the marker is not a map"),
    }
}

#[test]
fn wad_getters_find_lumps_by_name() {
    let wad = Wad::load(&sample_wad());
    let palettes = wad.get_palette();
    assert_eq!(palettes.len(), 1);
    assert_eq!(palettes[0][0], [0, 1, 2]);
    assert_eq!(palettes[0][255], [(765 % 251) as u8, (766 % 251) as u8, (767 % 251) as u8]);
    let maps = wad.get_colormap();
    assert_eq!(maps.len(), 2);
    assert_eq!(maps[1][300 - 256], 7);
    let sound = wad.get_sound("DSPIS");
    assert_eq!(sound.sample_rate, 11025);
    assert_eq!(sound.samples, vec![128, 200, 3]);
    assert_eq!(wad.get_music("D_E1"), &vec![b'M', b'U', b'S', 0x1A, 9, 9]);
    assert_eq!(wad.find_music("D_E1").unwrap(), &vec![b'M', b'U', b'S', 0x1A, 9, 9]);
    assert_eq!(wad.find_sound("DSPIS").unwrap().sample_rate, sound.sample_rate);
    assert_eq!(wad.find_music("DS").err(), Some(WadError::WrongLumpKind));
    assert_eq!(wad.find_sound("NOPE").err(), Some(WadError::MissingLump));
}

#[test]
fn wad_getters_report_missing_lumps() {
    let wad = Wad::parse(&build_wad(b"PWAD", &[(name8(b"FOO"), vec![])])).unwrap();
    assert_eq!(wad.find_palette().err(), Some(WadError::MissingLump));
    assert_eq!(wad.find_colormap().err(), Some(WadError::MissingLump));
    let wad = Wad::parse(&build_wad(b"PWAD", &[(name8(b"PLAYPAL"), vec![]), (name8(b"COLORMAP"), vec![])])).unwrap();
    assert_eq!(wad.get_palette().len(), 0);
    assert_eq!(wad.get_colormap().len(), 0);
    let wad = Wad::parse(&build_wad(b"PWAD", &[(name8(b"DSX"), sound_lump(8000, &[])), (name8(b"PLAYPAL"), vec![0; 0])])).unwrap();
    assert_eq!(wad.find_music("DSX").err(), Some(WadError::WrongLumpKind));
}

#[test]
fn wad_header_errors() {
    assert_eq!(Wad::parse(b"IWA").err(), Some(WadError::TooShort));
    assert_eq!(Wad::parse(b"IWOD\0\0\0\0\0\0\0\0").err(), Some(WadError::NotWad));
    assert_eq!(Wad::parse(b"PWAD\0\0\0\0").err(), Some(WadError::TooShort));
    let mut file = build_wad(b"IWAD", &[]);
    file[4..8].copy_from_slice(&(-1i32).to_le_bytes());
    assert_eq!(Wad::parse(&file).err(), Some(WadError::NegativeLumpCount));
    let mut file = build_wad(b"IWAD", &[]);
    file[8..12].copy_from_slice(&(-4i32).to_le_bytes());
    assert_eq!(Wad::parse(&file).err(), Some(WadError::BadInfoTable));
    let mut file = build_wad(b"IWAD", &[]);
    file[8..12].copy_from_slice(&100i32.to_le_bytes());
    assert_eq!(Wad::parse(&file).err(), Some(WadError::BadInfoTable));
    let mut file = build_wad(b"IWAD", &[]);
    file.push(0);
    assert_eq!(Wad::parse(&file).err(), Some(WadError::BadInfoTable));
    let empty = Wad::parse(&build_wad(b"IWAD", &[])).unwrap();
    assert!(empty.lumps().is_empty());
}

#[test]
fn wad_lump_errors() {
    let bad_name = build_wad(b"IWAD", &[([0xFF, 0, 0, 0, 0, 0, 0, 0], vec![])]);
    assert_eq!(Wad::parse(&bad_name).err(), Some(WadError::BadLumpName));
    let mut out_of_bounds = build_wad(b"IWAD", &[(name8(b"X"), vec![1, 2])]);
    let at = out_of_bounds.len() - 12;
    out_of_bounds[at..at + 4].copy_from_slice(&1000i32.to_le_bytes());
    assert_eq!(Wad::parse(&out_of_bounds).err(), Some(WadError::LumpOutOfBounds));
    let palette = build_wad(b"IWAD", &[(name8(b"PLAYPAL"), vec![0; 10])]);
    assert_eq!(Wad::parse(&palette).err(), Some(WadError::BadPalette));
    let colormap = build_wad(b"IWAD", &[(name8(b"COLORMAP"), vec![0; 10])]);
    assert_eq!(Wad::parse(&colormap).err(), Some(WadError::BadColorMap));
    let demo = build_wad(b"IWAD", &[(name8(b"DEMO2"), vec![0; 10])]);
    assert_eq!(Wad::parse(&demo).err(), Some(WadError::Demo(DemoError::TooShort)));
    let sound = build_wad(b"IWAD", &[(name8(b"DSOOF"), vec![2, 0])]);
    assert_eq!(Wad::parse(&sound).err(), Some(WadError::Sound(SoundError::UnsupportedFormat(2))));
    let no_things = build_wad(b"IWAD", &[(devanagari_marker(), vec![])]);
    assert_eq!(Wad::parse(&no_things).err(), Some(WadError::GameMap(MapError::MissingLump)));
    let other_next = build_wad(b"IWAD", &[(devanagari_marker(), vec![]), (name8(b"LINEDEFS"), vec![0; 10])]);
    let wad = Wad::parse(&other_next).unwrap();
    assert_eq!(wad.lumps().len(), 1);
    assert!(matches!(&wad.lumps()[0], Lump::GameMap(m) if m.things.len() == 1));
    let partial = build_wad(b"IWAD", &[(devanagari_marker(), vec![]), (name8(b"THINGS"), vec![0; 9])]);
    assert_eq!(Wad::parse(&partial).err(), Some(WadError::GameMap(MapError::PartialRecord)));
}

#[test]
fn ignored_lumps_are_not_bounds_checked() {
    let info = LumpInfo { file_position: -5, size: 99, name: name8(b"GENMIDI") };
    assert!(matches!(parse_lump(&[], &info), Ok(Lump::Ignored)));
    let info = LumpInfo { file_position: -5, size: 99, name: name8(b"GENMIDX") };
    assert!(matches!(parse_lump(&[], &info), Err(WadError::LumpOutOfBounds)));
}

#[test]
fn duplicate_names_keep_the_first_lump() {
    let file = build_wad(b"PWAD", &[(name8(b"D_A"), vec![1]), (name8(b"D_A"), vec![2]), (name8(b"D_B"), vec![3])]);
    let wad = Wad::parse(&file).unwrap();
    assert_eq!(wad.lump_names().len(), 2);
    assert_eq!(wad.get_music("D_A"), &vec![1]);
    assert_eq!(wad.get_music("D_"), &vec![1]);
    assert_eq!(wad.get_music("D_B"), &vec![3]);
}

#[test]
fn lump_info_decodes_little_endian_fields() {
    let mut bytes = vec![0xAA];
    bytes.extend_from_slice(&0x01020304i32.to_le_bytes());
    bytes.extend_from_slice(&(-2i32).to_le_bytes());
    bytes.extend_from_slice(b"COLORMAP");
    let info = LumpInfo::from_bytes(&bytes, 1);
    assert_eq!(info, LumpInfo { file_position: 0x01020304, size: -2, name: *b"COLORMAP" });
}

#[test]
fn demo_header_fields_in_order() {
    let mut lump: Vec<u8> = (1..=13).collect();
    lump.push(0x80);
    let d = doom_wgpu::wad::Demo::new(&lump).unwrap();
    assert_eq!(
        d.header(),
        DemoHeader {
            game_version: 1,
            skill_level: 2,
            episode: 3,
            map: 4,
            multiplayer_mode: 5,
            respawn: 6,
            fast: 7,
            no_monsters: 8,
            pov_player: 9,
            p1_present: 10,
            p2_present: 11,
            p3_present: 12,
            p4_present: 13,
        }
    );
    assert!(d.tics().is_empty());
    lump.push(1);
    assert_eq!(doom_wgpu::wad::Demo::new(&lump).err(), Some(DemoError::PartialTic));
}

#[test]
fn entry_taken_by_a_map_marker_does_not_name_a_lump() {
    let file = build_wad(
        b"IWAD",
        &[
            (devanagari_marker(), vec![]),
            (name8(b"LINEDEFS"), vec![0; 10]),
            (name8(b"LINEDEFS"), vec![7]),
            (name8(b"LINEDEFS"), vec![8]),
        ],
    );
    let wad = Wad::load(&file);
    assert_eq!(wad.lump_names().len(), 2);
    assert_eq!(wad.lump_names()[1], "LINEDEFS");
    assert!(matches!(&wad.lumps()[0], Lump::GameMap(m) if m.things.len() == 1));
    assert!(matches!(&wad.lumps()[1], Lump::Unknown));
}
