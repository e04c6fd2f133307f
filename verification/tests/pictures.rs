use doom_wgpu::renderer::palette::{palette_rgba, rgb_to_rgba};
use doom_wgpu::renderer::texture;
use doom_wgpu::wad::patch::{parse_column, Patch, PictureError};

/// A 2x3 picture: column 0 has a post of two pixels from row 1, column 1 a
/// post of one pixel at row 0 and another at row 2.
fn picture() -> Vec<u8> {
    let mut lump = Vec::new();
    lump.extend_from_slice(&2u16.to_le_bytes());
    lump.extend_from_slice(&3u16.to_le_bytes());
    lump.extend_from_slice(&[0, 0, 0, 0]);
    lump.extend_from_slice(&16u32.to_le_bytes());
    lump.extend_from_slice(&23u32.to_le_bytes());
    // column 0 at 16: top 1, length 2, pad, 10, 11, pad, end
    lump.extend_from_slice(&[1, 2, 0, 10, 11, 0, 0xFF]);
    // column 1 at 23: top 0, length 1, pad, 20, pad; top 2, length 1, pad, 22, pad; end
    lump.extend_from_slice(&[0, 1, 0, 20, 0, 2, 1, 0, 22, 0, 0xFF]);
    lump
}

#[test]
fn patch_indices_row_by_row() {
    let p = Patch::new(&picture()).unwrap();
    assert_eq!(p.width, 2);
    assert_eq!(p.height, 3);
    assert_eq!(p.indices, vec![256, 20, 10, 256, 11, 22]);
}

#[test]
fn picture_indices_row_by_row() {
    assert_eq!(texture::parse_picture(&picture()).unwrap(), vec![0, 20, 10, 0, 11, 22]);
}

#[test]
fn columns_alone() {
    let lump = picture();
    assert_eq!(parse_column(&lump, 16, 3).unwrap(), vec![256, 10, 11]);
    assert_eq!(texture::parse_column(&lump, 23, 3).unwrap(), vec![20, 0, 22]);
    assert_eq!(parse_column(&lump, 16, 2), Err(PictureError::BadColumn));
    assert_eq!(parse_column(&lump, 100, 3), Err(PictureError::BadColumn));
    assert_eq!(parse_column(&[0, 0, 0, 0xFF], 0, 3), Err(PictureError::BadColumn));
    assert_eq!(parse_column(&[0, 1, 0, 5], 0, 3), Err(PictureError::BadColumn));
}

#[test]
fn picture_errors() {
    assert!(matches!(Patch::new(&[1, 0, 1]), Err(PictureError::TooShort)));
    assert!(matches!(Patch::new(&[2, 0, 1, 0, 0, 0, 0, 0, 16]), Err(PictureError::TooShort)));
    assert!(matches!(Patch::new(&[0xFF, 0x3F, 1, 0]), Err(PictureError::SizeOverflow)));
    let mut bad = picture();
    bad[12] = 100;
    assert!(matches!(Patch::new(&bad), Err(PictureError::BadColumn)));
    let mut huge = Vec::new();
    huge.extend_from_slice(&2u16.to_le_bytes());
    huge.extend_from_slice(&0x8000u16.to_le_bytes());
    huge.extend_from_slice(&[0, 0, 0, 0]);
    huge.extend_from_slice(&16u32.to_le_bytes());
    huge.extend_from_slice(&16u32.to_le_bytes());
    huge.push(0xFF);
    assert!(matches!(Patch::new(&huge), Err(PictureError::SizeOverflow)));
    huge[2..4].copy_from_slice(&0x7FFFu16.to_le_bytes());
    let p = Patch::new(&huge).unwrap();
    assert_eq!(p.indices.len(), 0xFFFE);
    assert!(p.indices.iter().all(|&i| i == 256));
    assert_eq!(texture::parse_picture(&[1, 0, 1]), Err(PictureError::TooShort));
}

#[test]
fn rgba_conversion() {
    assert_eq!(rgb_to_rgba(&[1, 2, 3, 4, 5, 6, 7]), vec![1, 2, 3, 255, 4, 5, 6, 255]);
    assert_eq!(rgb_to_rgba(&[]), Vec::<u8>::new());
    let mut palette = [[0u8; 3]; 256];
    palette[0] = [9, 8, 7];
    palette[255] = [1, 2, 3];
    let rgba = palette_rgba(&palette);
    assert_eq!(rgba.len(), 1024);
    assert_eq!(&rgba[0..4], &[9, 8, 7, 255]);
    assert_eq!(&rgba[1020..1024], &[1, 2, 3, 255]);
}
