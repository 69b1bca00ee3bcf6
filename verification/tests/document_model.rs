//! End-to-end tests: documents are assembled as in-memory byte streams,
//! parsed, and rendered, and the results are compared pixel for pixel.

use asefile::blend::Rgba8;
use asefile::AsepriteFile;
use std::io::Write;

fn word(out: &mut Vec<u8>, v: u16) {
    out.extend_from_slice(&v.to_le_bytes());
}

fn dword(out: &mut Vec<u8>, v: u32) {
    out.extend_from_slice(&v.to_le_bytes());
}

fn short(out: &mut Vec<u8>, v: i16) {
    out.extend_from_slice(&v.to_le_bytes());
}

fn string(out: &mut Vec<u8>, s: &str) {
    word(out, s.len() as u16);
    out.extend_from_slice(s.as_bytes());
}

fn zlib(data: &[u8]) -> Vec<u8> {
    let mut enc = flate2::write::ZlibEncoder::new(Vec::new(), flate2::Compression::default());
    enc.write_all(data).unwrap();
    enc.finish().unwrap()
}

/// A 128-byte file header.
fn header(num_frames: u16, width: u16, height: u16, depth: u16, transparent: u8) -> Vec<u8> {
    let mut h = Vec::new();
    dword(&mut h, 0); // file size (ignored)
    word(&mut h, 0xA5E0);
    word(&mut h, num_frames);
    word(&mut h, width);
    word(&mut h, height);
    word(&mut h, depth);
    dword(&mut h, 0); // flags
    word(&mut h, 100); // default frame time
    dword(&mut h, 0);
    dword(&mut h, 0);
    h.push(transparent);
    h.push(0);
    word(&mut h, 0);
    word(&mut h, 0); // num colors (informational)
    h.push(1); // pixel width
    h.push(1); // pixel height
    short(&mut h, 0);
    short(&mut h, 0);
    word(&mut h, 0);
    word(&mut h, 0);
    h.extend_from_slice(&[0u8; 84]);
    assert_eq!(h.len(), 128);
    h
}

fn chunk(type_code: u16, payload: &[u8]) -> Vec<u8> {
    let mut c = Vec::new();
    dword(&mut c, (payload.len() + 6) as u32);
    word(&mut c, type_code);
    c.extend_from_slice(payload);
    c
}

fn frame(chunks: &[Vec<u8>]) -> Vec<u8> {
    let mut body = Vec::new();
    for c in chunks {
        body.extend_from_slice(c);
    }
    let mut f = Vec::new();
    dword(&mut f, (body.len() + 16) as u32);
    word(&mut f, 0xF1FA);
    word(&mut f, chunks.len() as u16);
    word(&mut f, 100); // duration
    word(&mut f, 0);
    dword(&mut f, chunks.len() as u32);
    f.extend_from_slice(&body);
    f
}

fn layer_chunk(flags: u16, layer_type: u16, child_level: u16, blend_mode: u16, opacity: u8, name: &str, tileset_id: Option<u32>) -> Vec<u8> {
    let mut p = Vec::new();
    word(&mut p, flags);
    word(&mut p, layer_type);
    word(&mut p, child_level);
    word(&mut p, 0);
    word(&mut p, 0);
    word(&mut p, blend_mode);
    p.push(opacity);
    p.extend_from_slice(&[0u8; 3]);
    string(&mut p, name);
    if let Some(id) = tileset_id {
        dword(&mut p, id);
    }
    chunk(0x2004, &p)
}

fn raw_cel_chunk(layer: u16, x: i16, y: i16, opacity: u8, w: u16, h: u16, pixels: &[u8]) -> Vec<u8> {
    let mut p = Vec::new();
    word(&mut p, layer);
    short(&mut p, x);
    short(&mut p, y);
    p.push(opacity);
    word(&mut p, 0); // raw cel
    p.extend_from_slice(&[0u8; 7]);
    word(&mut p, w);
    word(&mut p, h);
    p.extend_from_slice(pixels);
    chunk(0x2005, &p)
}

fn compressed_cel_chunk(layer: u16, x: i16, y: i16, opacity: u8, w: u16, h: u16, pixels: &[u8]) -> Vec<u8> {
    let mut p = Vec::new();
    word(&mut p, layer);
    short(&mut p, x);
    short(&mut p, y);
    p.push(opacity);
    word(&mut p, 2); // compressed image cel
    p.extend_from_slice(&[0u8; 7]);
    word(&mut p, w);
    word(&mut p, h);
    p.extend_from_slice(&zlib(pixels));
    chunk(0x2005, &p)
}

fn linked_cel_chunk(layer: u16, target_frame: u16) -> Vec<u8> {
    let mut p = Vec::new();
    word(&mut p, layer);
    short(&mut p, 0);
    short(&mut p, 0);
    p.push(255);
    word(&mut p, 1); // linked cel
    p.extend_from_slice(&[0u8; 7]);
    word(&mut p, target_frame);
    chunk(0x2005, &p)
}

fn palette_chunk(first: u32, colors: &[[u8; 4]]) -> Vec<u8> {
    let mut p = Vec::new();
    dword(&mut p, colors.len() as u32);
    dword(&mut p, first);
    dword(&mut p, first + colors.len() as u32 - 1);
    p.extend_from_slice(&[0u8; 8]);
    for c in colors {
        word(&mut p, 0); // no name
        p.extend_from_slice(c);
    }
    chunk(0x2019, &p)
}

fn simple_doc(width: u16, height: u16, cel_pixels: &[u8]) -> Vec<u8> {
    let mut bytes = header(1, width, height, 32, 0);
    let chunks = vec![
        layer_chunk(3, 0, 0, 0, 255, "Layer 1", None),
        raw_cel_chunk(0, 0, 0, 255, width, height, cel_pixels),
    ];
    bytes.extend_from_slice(&frame(&chunks));
    bytes
}

#[test]
fn render_full_canvas_truecolor() {
    // A single fully opaque raw cel covering the whole canvas renders to
    // exactly its own pixel bytes.
    let w = 16u16;
    let h = 16u16;
    let mut pixels = Vec::new();
    for i in 0..(w as usize * h as usize) {
        pixels.push((i % 251) as u8);
        pixels.push((i % 83) as u8);
        pixels.push((i % 29) as u8);
        pixels.push(255);
    }
    let doc = AsepriteFile::read(&simple_doc(w, h, &pixels)).unwrap();
    assert_eq!(doc.num_frames(), 1);
    assert_eq!(doc.size(), (16, 16));
    assert_eq!(doc.num_layers(), 1);
    assert_eq!(doc.pixel_format(), asefile::PixelFormat::Rgba);
    let img = doc.frame(0).image();
    assert_eq!(img.width(), w);
    assert_eq!(img.height(), h);
    assert_eq!(img.to_raw_rgba8(), pixels);
}

#[test]
fn render_multiply_two_layers() {
    // A 256x256 document: an opaque solid backdrop layer under a Multiply
    // layer whose cel has opacity 128. Every output pixel must equal the
    // fixed-point multiply reference value.
    let w = 256u16;
    let h = 256u16;
    let n = w as usize * h as usize;
    let mut bottom = Vec::new();
    let mut top = Vec::new();
    for _ in 0..n {
        bottom.extend_from_slice(&[90, 140, 190, 255]);
        top.extend_from_slice(&[40, 80, 120, 200]);
    }
    let mut bytes = header(1, w, h, 32, 0);
    let chunks = vec![
        layer_chunk(3, 0, 0, 0, 255, "Background", None),
        layer_chunk(3, 0, 0, 1, 255, "Top", None), // blend mode 1: Multiply
        raw_cel_chunk(0, 0, 0, 255, w, h, &bottom),
        compressed_cel_chunk(1, 0, 0, 128, w, h, &top),
    ];
    bytes.extend_from_slice(&frame(&chunks));
    let doc = AsepriteFile::read(&bytes).unwrap();
    let img = doc.frame(0).image();
    let raw = img.to_raw_rgba8();
    assert_eq!(raw.len(), n * 4);
    for i in 0..n {
        assert_eq!(&raw[4 * i..4 * i + 4], &[61, 103, 151, 255]);
    }
}

#[test]
fn render_indexed_transparency() {
    // Index 0 is the transparent index: on a plain layer it renders with
    // alpha 0, on a background layer it keeps the palette's stored alpha.
    let w = 2u16;
    let h = 1u16;
    let palette = palette_chunk(0, &[[10, 20, 30, 77], [100, 110, 120, 255]]);
    let make = |layer_flags: u16| -> Vec<u8> {
        let mut bytes = header(1, w, h, 8, 0);
        let chunks = vec![
            palette.clone(),
            layer_chunk(layer_flags, 0, 0, 0, 255, "Layer 1", None),
            raw_cel_chunk(0, 0, 0, 255, w, h, &[0u8, 1u8]),
        ];
        bytes.extend_from_slice(&frame(&chunks));
        bytes
    };
    let plain = AsepriteFile::read(&make(3)).unwrap();
    let img = plain.frame(0).image();
    assert_eq!(img.get_pixel(0, 0).a, 0);
    assert_eq!(img.get_pixel(1, 0), Rgba8 { r: 100, g: 110, b: 120, a: 255 });
    // Background layers carry flag bit 3.
    let background = AsepriteFile::read(&make(3 | 8)).unwrap();
    let img2 = background.frame(0).image();
    assert_eq!(img2.get_pixel(0, 0), Rgba8 { r: 10, g: 20, b: 30, a: 77 });
}

#[test]
fn invalid_magic_fails_parse() {
    let w = 2u16;
    let mut bytes = simple_doc(w, 2, &[0u8; 16]);
    bytes[4] = 0x12; // corrupt the header magic number
    bytes[5] = 0x34;
    let err = AsepriteFile::read(&bytes).unwrap_err();
    assert!(err.is_invalid_input());
}

#[test]
fn linked_cels() {
    // Frame 1 links to frame 0: both frames must render pixel-identically.
    let w = 4u16;
    let h = 4u16;
    let mut pixels = Vec::new();
    for i in 0..4usize {
        pixels.extend_from_slice(&[(40 * i) as u8, 7, (11 * i) as u8, 255]);
    }
    let mut bytes = header(2, w, h, 32, 0);
    let f0 = frame(&[
        layer_chunk(3, 0, 0, 0, 255, "Layer 1", None),
        raw_cel_chunk(0, 1, 1, 255, 2, 2, &pixels),
    ]);
    let f1 = frame(&[linked_cel_chunk(0, 0)]);
    bytes.extend_from_slice(&f0);
    bytes.extend_from_slice(&f1);
    let doc = AsepriteFile::read(&bytes).unwrap();
    assert_eq!(doc.num_frames(), 2);
    let img0 = doc.frame(0).image();
    let img1 = doc.frame(1).image();
    assert_eq!(img0.to_raw_rgba8(), img1.to_raw_rgba8());
    assert_eq!(img0.get_pixel(1, 1), Rgba8 { r: 0, g: 7, b: 0, a: 255 });
    assert_eq!(img0.get_pixel(0, 0).a, 0);
}

#[test]
fn linked_cel_to_missing_target_fails() {
    let mut bytes = header(2, 2, 2, 32, 0);
    let f0 = frame(&[layer_chunk(3, 0, 0, 0, 255, "Layer 1", None)]);
    let f1 = frame(&[linked_cel_chunk(0, 0)]);
    bytes.extend_from_slice(&f0);
    bytes.extend_from_slice(&f1);
    let err = AsepriteFile::read(&bytes).unwrap_err();
    assert!(err.is_invalid_input());
}

#[test]
fn duplicate_cel_fails_parse() {
    let w = 2u16;
    let px = [1u8, 2, 3, 255, 4, 5, 6, 255, 7, 8, 9, 255, 10, 11, 12, 255];
    let mut bytes = header(1, w, 2, 32, 0);
    let f0 = frame(&[
        layer_chunk(3, 0, 0, 0, 255, "Layer 1", None),
        raw_cel_chunk(0, 0, 0, 255, 2, 2, &px),
        raw_cel_chunk(0, 0, 0, 255, 2, 2, &px),
    ]);
    bytes.extend_from_slice(&f0);
    let err = AsepriteFile::read(&bytes).unwrap_err();
    assert!(err.is_invalid_input());
}

#[test]
fn cel_overflow_is_clipped() {
    // A cel partly outside the canvas renders with the overflow clipped.
    let w = 4u16;
    let mut pixels = Vec::new();
    for _ in 0..4usize {
        pixels.extend_from_slice(&[200, 100, 50, 255]);
    }
    let mut bytes = header(1, w, 4, 32, 0);
    let f0 = frame(&[
        layer_chunk(3, 0, 0, 0, 255, "Layer 1", None),
        raw_cel_chunk(0, 3, -1, 255, 2, 2, &pixels),
    ]);
    bytes.extend_from_slice(&f0);
    let doc = AsepriteFile::read(&bytes).unwrap();
    let img = doc.frame(0).image();
    assert_eq!(img.width(), 4);
    assert_eq!(img.height(), 4);
    // only (3, 0) lands inside the canvas
    assert_eq!(img.get_pixel(3, 0), Rgba8 { r: 200, g: 100, b: 50, a: 255 });
    assert_eq!(img.get_pixel(2, 0).a, 0);
    assert_eq!(img.get_pixel(3, 1).a, 0);
}

#[test]
fn render_grayscale() {
    let w = 2u16;
    let mut bytes = header(1, w, 1, 16, 0);
    let f0 = frame(&[
        layer_chunk(3, 0, 0, 0, 255, "Layer 1", None),
        raw_cel_chunk(0, 0, 0, 255, 2, 1, &[77, 255, 200, 128]),
    ]);
    bytes.extend_from_slice(&f0);
    let doc = AsepriteFile::read(&bytes).unwrap();
    assert_eq!(doc.pixel_format(), asefile::PixelFormat::Grayscale);
    let img = doc.frame(0).image();
    assert_eq!(img.get_pixel(0, 0), Rgba8 { r: 77, g: 77, b: 77, a: 255 });
    // alpha 128 at full cel opacity scales by mul8(128, 255) == 128
    assert_eq!(img.get_pixel(1, 0), Rgba8 { r: 200, g: 200, b: 200, a: 128 });
}

#[test]
fn hidden_layer_is_skipped() {
    let w = 2u16;
    let px = [9u8, 8, 7, 255, 6, 5, 4, 255];
    let mut bytes = header(1, w, 1, 32, 0);
    // flags 2 (editable) without the visible bit
    let f0 = frame(&[
        layer_chunk(2, 0, 0, 0, 255, "Hidden", None),
        raw_cel_chunk(0, 0, 0, 255, 2, 1, &px),
    ]);
    bytes.extend_from_slice(&f0);
    let doc = AsepriteFile::read(&bytes).unwrap();
    let img = doc.frame(0).image();
    assert_eq!(img.get_pixel(0, 0).a, 0);
    assert_eq!(img.get_pixel(1, 0).a, 0);
}

#[test]
fn group_visibility_is_inherited() {
    // A visible child inside an invisible group is effectively hidden.
    let w = 1u16;
    let px = [1u8, 2, 3, 255];
    let mut bytes = header(1, w, 1, 32, 0);
    let f0 = frame(&[
        layer_chunk(2, 1, 0, 0, 255, "Group", None), // invisible group
        layer_chunk(3, 0, 1, 0, 255, "Child", None), // visible child, depth 1
        raw_cel_chunk(1, 0, 0, 255, 1, 1, &px),
    ]);
    bytes.extend_from_slice(&f0);
    let doc = AsepriteFile::read(&bytes).unwrap();
    assert!(!doc.layer(1).is_visible());
    assert!(doc.layer(1).flags().contains(asefile::layer::LAYER_VISIBLE));
    let img = doc.frame(0).image();
    assert_eq!(img.get_pixel(0, 0).a, 0);
    let parent = doc.layer(1).parent().unwrap();
    assert_eq!(parent.id(), 0);
}

#[test]
fn unsupported_chunk_type_fails() {
    let mut bytes = header(1, 2, 2, 32, 0);
    let f0 = frame(&[chunk(0x9999, &[0u8; 4])]);
    bytes.extend_from_slice(&f0);
    let err = AsepriteFile::read(&bytes).unwrap_err();
    assert!(err.is_unsupported_feature());
}

#[test]
fn non_square_pixels_fail() {
    let mut bytes = header(1, 2, 2, 32, 0);
    bytes[34] = 2; // pixel width 2: a 2:1 aspect ratio
    bytes.extend_from_slice(&frame(&[layer_chunk(3, 0, 0, 0, 255, "L", None)]));
    let err = AsepriteFile::read(&bytes).unwrap_err();
    assert!(err.is_unsupported_feature());
}

#[test]
fn icc_profile_fails() {
    let mut p = Vec::new();
    word(&mut p, 2); // ICC
    word(&mut p, 0);
    dword(&mut p, 0);
    p.extend_from_slice(&[0u8; 8]);
    let mut bytes = header(1, 2, 2, 32, 0);
    bytes.extend_from_slice(&frame(&[chunk(0x2007, &p), layer_chunk(3, 0, 0, 0, 255, "L", None)]));
    let err = AsepriteFile::read(&bytes).unwrap_err();
    assert!(err.is_unsupported_feature());
}

#[test]
fn invalid_blend_mode_fails() {
    let mut bytes = header(1, 2, 2, 32, 0);
    bytes.extend_from_slice(&frame(&[layer_chunk(3, 0, 0, 19, 255, "L", None)]));
    let err = AsepriteFile::read(&bytes).unwrap_err();
    assert!(err.is_invalid_input());
}

#[test]
fn indexed_without_palette_fails() {
    let mut bytes = header(1, 2, 1, 8, 0);
    bytes.extend_from_slice(&frame(&[
        layer_chunk(3, 0, 0, 0, 255, "L", None),
        raw_cel_chunk(0, 0, 0, 255, 2, 1, &[0u8, 0u8]),
    ]));
    let err = AsepriteFile::read(&bytes).unwrap_err();
    assert!(err.is_invalid_input());
}

#[test]
fn palette_index_out_of_range_fails() {
    let mut bytes = header(1, 2, 1, 8, 0);
    bytes.extend_from_slice(&frame(&[
        palette_chunk(0, &[[1, 2, 3, 255]]),
        layer_chunk(3, 0, 0, 0, 255, "L", None),
        raw_cel_chunk(0, 0, 0, 255, 2, 1, &[0u8, 5u8]),
    ]));
    let err = AsepriteFile::read(&bytes).unwrap_err();
    assert!(err.is_invalid_input());
}

#[test]
fn truncated_file_fails_with_io_error() {
    let full = simple_doc(4, 4, &vec![7u8; 64]);
    let cut = &full[..full.len() - 10];
    let err = AsepriteFile::read(cut).unwrap_err();
    assert!(err.is_io_error());
}

#[test]
fn render_three_layers_mixed_modes() {
    // Normal under Screen under Color, with distinct cel opacities;
    // every pixel must match the reference blend arithmetic.
    let bottom = [10, 200, 30, 255, 200, 10, 30, 128, 0, 0, 0, 0, 255, 255, 255, 255];
    let middle = [90, 80, 70, 255, 60, 50, 40, 200, 30, 20, 10, 255, 0, 255, 0, 60];
    let top = [5, 6, 7, 255, 250, 240, 230, 255, 128, 128, 128, 128, 9, 9, 9, 0];
    let mut bytes = header(1, 4, 1, 32, 0);
    let chunks = vec![
        layer_chunk(3, 0, 0, 0, 255, "A", None),
        layer_chunk(3, 0, 0, 2, 255, "B", None), // Screen
        layer_chunk(3, 0, 0, 14, 255, "C", None), // Color
        raw_cel_chunk(0, 0, 0, 255, 4, 1, &bottom),
        raw_cel_chunk(1, 0, 0, 200, 4, 1, &middle),
        raw_cel_chunk(2, 0, 0, 128, 4, 1, &top),
    ];
    bytes.extend_from_slice(&frame(&chunks));
    let doc = AsepriteFile::read(&bytes).unwrap();
    let img = doc.frame(0).image();
    let expected: [u8; 16] = [116, 185, 118, 255, 136, 73, 71, 231, 34, 26, 19, 214, 255, 255, 255, 255];
    assert_eq!(img.to_raw_rgba8(), expected);
}

#[test]
fn linked_cel_may_target_a_tilemap_cel() {
    // A link's target must exist and must itself not be a link; a tilemap
    // cel is a valid target and renders identically through the link.
    let tile0 = [0u8; 16];
    let mut tile1 = Vec::new();
    for _ in 0..4 {
        tile1.extend_from_slice(&[10, 220, 30, 255]);
    }
    let mut ts_pixels = Vec::new();
    ts_pixels.extend_from_slice(&tile0);
    ts_pixels.extend_from_slice(&tile1);
    let mut ts = Vec::new();
    dword(&mut ts, 1);
    dword(&mut ts, 2 | 4);
    dword(&mut ts, 2);
    word(&mut ts, 2);
    word(&mut ts, 2);
    short(&mut ts, 1);
    ts.extend_from_slice(&[0u8; 14]);
    string(&mut ts, "tiles");
    let compressed = zlib(&ts_pixels);
    dword(&mut ts, compressed.len() as u32);
    ts.extend_from_slice(&compressed);

    let mut cel = Vec::new();
    word(&mut cel, 0);
    short(&mut cel, 0);
    short(&mut cel, 0);
    cel.push(255);
    word(&mut cel, 3);
    cel.extend_from_slice(&[0u8; 7]);
    word(&mut cel, 1);
    word(&mut cel, 1);
    word(&mut cel, 32);
    dword(&mut cel, 0x1fffffff);
    dword(&mut cel, 0x20000000);
    dword(&mut cel, 0x40000000);
    dword(&mut cel, 0x80000000);
    cel.extend_from_slice(&[0u8; 10]);
    let tiles: Vec<u8> = 1u32.to_le_bytes().to_vec();
    cel.extend_from_slice(&zlib(&tiles));

    let mut layer = Vec::new();
    word(&mut layer, 3);
    word(&mut layer, 2); // tilemap layer
    word(&mut layer, 0);
    word(&mut layer, 0);
    word(&mut layer, 0);
    word(&mut layer, 0);
    layer.push(255);
    layer.extend_from_slice(&[0u8; 3]);
    string(&mut layer, "Tilemap 1");
    dword(&mut layer, 1);

    let mut bytes = header(2, 2, 2, 32, 0);
    let f0 = frame(&[chunk(0x2023, &ts), chunk(0x2004, &layer), chunk(0x2005, &cel)]);
    let f1 = frame(&[linked_cel_chunk(0, 0)]);
    bytes.extend_from_slice(&f0);
    bytes.extend_from_slice(&f1);
    let doc = AsepriteFile::read(&bytes).unwrap();
    let img0 = doc.frame(0).image();
    let img1 = doc.frame(1).image();
    assert_eq!(img0.to_raw_rgba8(), img1.to_raw_rgba8());
    assert_eq!(img1.get_pixel(0, 0), Rgba8 { r: 10, g: 220, b: 30, a: 255 });
}
