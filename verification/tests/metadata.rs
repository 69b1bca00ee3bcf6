//! Palette, tag, slice, user-data and tilemap behavior, exercised through
//! in-memory documents.

use asefile::blend::Rgba8;
use asefile::AsepriteFile;
use std::io::Write;

fn word(out: &mut Vec<u8>, v: u16) {
    out.extend_from_slice(&v.to_le_bytes());
}

fn dword(out: &mut Vec<u8>, v: u32) {
    out.extend_from_slice(&v.to_le_bytes());
}

fn short(out: &mut Vec<u8>, v: i16) {
    out.extend_from_slice(&v.to_le_bytes());
}

fn long(out: &mut Vec<u8>, v: i32) {
    out.extend_from_slice(&v.to_le_bytes());
}

fn string(out: &mut Vec<u8>, s: &str) {
    word(out, s.len() as u16);
    out.extend_from_slice(s.as_bytes());
}

fn zlib(data: &[u8]) -> Vec<u8> {
    let mut enc = flate2::write::ZlibEncoder::new(Vec::new(), flate2::Compression::default());
    enc.write_all(data).unwrap();
    enc.finish().unwrap()
}

fn header(num_frames: u16, width: u16, height: u16, depth: u16, transparent: u8) -> Vec<u8> {
    let mut h = Vec::new();
    dword(&mut h, 0);
    word(&mut h, 0xA5E0);
    word(&mut h, num_frames);
    word(&mut h, width);
    word(&mut h, height);
    word(&mut h, depth);
    dword(&mut h, 0);
    word(&mut h, 100);
    dword(&mut h, 0);
    dword(&mut h, 0);
    h.push(transparent);
    h.push(0);
    word(&mut h, 0);
    word(&mut h, 0);
    h.push(1);
    h.push(1);
    short(&mut h, 0);
    short(&mut h, 0);
    word(&mut h, 0);
    word(&mut h, 0);
    h.extend_from_slice(&[0u8; 84]);
    h
}

fn chunk(type_code: u16, payload: &[u8]) -> Vec<u8> {
    let mut c = Vec::new();
    dword(&mut c, (payload.len() + 6) as u32);
    word(&mut c, type_code);
    c.extend_from_slice(payload);
    c
}

fn frame(chunks: &[Vec<u8>]) -> Vec<u8> {
    let mut body = Vec::new();
    for c in chunks {
        body.extend_from_slice(c);
    }
    let mut f = Vec::new();
    dword(&mut f, (body.len() + 16) as u32);
    word(&mut f, 0xF1FA);
    word(&mut f, chunks.len() as u16);
    word(&mut f, 100);
    word(&mut f, 0);
    dword(&mut f, chunks.len() as u32);
    f.extend_from_slice(&body);
    f
}

fn layer_chunk(flags: u16, layer_type: u16, blend_mode: u16, name: &str, tileset_id: Option<u32>) -> Vec<u8> {
    let mut p = Vec::new();
    word(&mut p, flags);
    word(&mut p, layer_type);
    word(&mut p, 0);
    word(&mut p, 0);
    word(&mut p, 0);
    word(&mut p, blend_mode);
    p.push(255);
    p.extend_from_slice(&[0u8; 3]);
    string(&mut p, name);
    if let Some(id) = tileset_id {
        dword(&mut p, id);
    }
    chunk(0x2004, &p)
}

fn raw_cel_chunk(layer: u16, w: u16, h: u16, pixels: &[u8]) -> Vec<u8> {
    let mut p = Vec::new();
    word(&mut p, layer);
    short(&mut p, 0);
    short(&mut p, 0);
    p.push(255);
    word(&mut p, 0);
    p.extend_from_slice(&[0u8; 7]);
    word(&mut p, w);
    word(&mut p, h);
    p.extend_from_slice(pixels);
    chunk(0x2005, &p)
}

fn user_data_chunk(text: Option<&str>, color: Option<[u8; 4]>) -> Vec<u8> {
    let mut p = Vec::new();
    let mut flags = 0u32;
    if text.is_some() {
        flags |= 1;
    }
    if color.is_some() {
        flags |= 2;
    }
    dword(&mut p, flags);
    if let Some(t) = text {
        string(&mut p, t);
    }
    if let Some(c) = color {
        p.extend_from_slice(&c);
    }
    chunk(0x2020, &p)
}

fn tags_chunk(tags: &[(u16, u16, u8, u16, &str)]) -> Vec<u8> {
    let mut p = Vec::new();
    word(&mut p, tags.len() as u16);
    p.extend_from_slice(&[0u8; 8]);
    for (from, to, dir, repeat, name) in tags {
        word(&mut p, *from);
        word(&mut p, *to);
        p.push(*dir);
        word(&mut p, *repeat);
        p.extend_from_slice(&[0u8; 6]);
        dword(&mut p, 0);
        string(&mut p, name);
    }
    chunk(0x2018, &p)
}

#[test]
fn palette_exposes_exactly_its_range() {
    // first=10, last=15: exactly the indices 10..=15 exist, and no others
    let mut p = Vec::new();
    dword(&mut p, 6);
    dword(&mut p, 10);
    dword(&mut p, 15);
    p.extend_from_slice(&[0u8; 8]);
    for i in 0..6u8 {
        word(&mut p, 0);
        p.extend_from_slice(&[i, 2 * i, 3 * i, 255]);
    }
    let pal = asefile::palette::parse_chunk(&p).unwrap();
    assert_eq!(pal.num_colors(), 6);
    assert!(pal.color(9).is_none());
    assert!(pal.color(16).is_none());
    for i in 10u32..=15 {
        let e = pal.color(i).unwrap();
        assert_eq!(e.id(), i);
        let k = (i - 10) as u8;
        assert_eq!(e.raw_rgba8(), [k, 2 * k, 3 * k, 255]);
    }
    assert!(pal.color(15).unwrap().name().is_none());
}

#[test]
fn palette_rejects_reversed_range() {
    let mut p = Vec::new();
    dword(&mut p, 0);
    dword(&mut p, 5);
    dword(&mut p, 4);
    p.extend_from_slice(&[0u8; 8]);
    let err = asefile::palette::parse_chunk(&p).unwrap_err();
    assert!(err.is_invalid_input());
}

#[test]
fn old_palette_chunk_decodes_packets() {
    // one packet: skip 2, three 8-bit colors
    let mut p = Vec::new();
    word(&mut p, 1);
    p.push(2);
    p.push(3);
    p.extend_from_slice(&[10, 11, 12, 20, 21, 22, 30, 31, 32]);
    let pal = asefile::palette::parse_old_chunk_04(&p).unwrap();
    assert_eq!(pal.num_colors(), 3);
    assert_eq!(pal.color(2).unwrap().raw_rgba8(), [10, 11, 12, 255]);
    assert_eq!(pal.color(4).unwrap().raw_rgba8(), [30, 31, 32, 255]);
    assert!(pal.color(0).is_none());
    assert!(pal.color(5).is_none());
}

#[test]
fn six_bit_palette_scales_to_eight() {
    assert_eq!(asefile::palette::scale_6bit_to_8bit(0).unwrap(), 0);
    assert_eq!(asefile::palette::scale_6bit_to_8bit(63).unwrap(), 255);
    assert_eq!(asefile::palette::scale_6bit_to_8bit(2).unwrap(), 8);
    assert_eq!(asefile::palette::scale_6bit_to_8bit(31).unwrap(), 125);
    assert_eq!(asefile::palette::scale_6bit_to_8bit(32).unwrap(), 130);
    assert!(asefile::palette::scale_6bit_to_8bit(64).unwrap_err().is_invalid_input());
}

#[test]
fn tags_and_their_user_data() {
    let px = [1u8, 2, 3, 255];
    let mut bytes = header(1, 1, 1, 32, 0);
    let f0 = frame(&[
        layer_chunk(3, 0, 0, "Layer 1", None),
        tags_chunk(&[(0, 0, 0, 0, "walk"), (0, 0, 1, 3, "run"), (0, 0, 2, 0, "idle")]),
        user_data_chunk(Some("first tag"), Some([0, 255, 0, 255])),
        user_data_chunk(None, Some([0, 0, 0, 255])),
        user_data_chunk(Some("third tag"), Some([255, 0, 0, 255])),
        raw_cel_chunk(0, 1, 1, &px),
    ]);
    bytes.extend_from_slice(&f0);
    let doc = AsepriteFile::read(&bytes).unwrap();
    assert_eq!(doc.num_tags(), 3);
    assert_eq!(doc.tag(0).name(), "walk");
    assert_eq!(doc.tag(1).repeat(), 3);
    assert_eq!(doc.tag(0).animation_direction(), asefile::AnimationDirection::Forward);
    assert_eq!(doc.tag(1).animation_direction(), asefile::AnimationDirection::Reverse);
    assert_eq!(doc.tag(2).animation_direction(), asefile::AnimationDirection::PingPong);
    let first = doc.tag(0).user_data().unwrap();
    assert_eq!(first.text.as_deref(), Some("first tag"));
    assert_eq!(first.color, Some(Rgba8 { r: 0, g: 255, b: 0, a: 255 }));
    let second = doc.tag(1).user_data().unwrap();
    assert!(second.text.is_none());
    assert_eq!(second.color, Some(Rgba8 { r: 0, g: 0, b: 0, a: 255 }));
    let third = doc.tag(2).user_data().unwrap();
    assert_eq!(third.text.as_deref(), Some("third tag"));
    assert_eq!(doc.tag_by_name("run").unwrap().repeat(), 3);
    assert!(doc.tag_by_name("swim").is_none());
}

#[test]
fn user_data_attaches_to_layer_and_cel_and_sprite() {
    let px = [1u8, 2, 3, 255];
    let mut bytes = header(1, 1, 1, 32, 0);
    // an old-palette chunk moves the context to the sprite level
    let mut old_pal = Vec::new();
    word(&mut old_pal, 1);
    old_pal.push(0);
    old_pal.push(1);
    old_pal.extend_from_slice(&[5, 6, 7]);
    let f0 = frame(&[
        chunk(0x0004, &old_pal),
        user_data_chunk(Some("sprite data"), None),
        layer_chunk(3, 0, 0, "Layer 1", None),
        user_data_chunk(Some("layer data"), Some([255, 0, 0, 255])),
        raw_cel_chunk(0, 1, 1, &px),
        user_data_chunk(Some("cel data"), None),
    ]);
    bytes.extend_from_slice(&f0);
    let doc = AsepriteFile::read(&bytes).unwrap();
    assert_eq!(doc.sprite_user_data().unwrap().text.as_deref(), Some("sprite data"));
    let layer = doc.layer(0);
    assert_eq!(layer.user_data().unwrap().text.as_deref(), Some("layer data"));
    assert_eq!(
        layer.user_data().unwrap().color,
        Some(Rgba8 { r: 255, g: 0, b: 0, a: 255 })
    );
    let cel = doc.cel(0, 0);
    assert_eq!(cel.user_data().unwrap().text.as_deref(), Some("cel data"));
}

#[test]
fn dangling_user_data_fails() {
    let mut bytes = header(1, 1, 1, 32, 0);
    let f0 = frame(&[
        user_data_chunk(Some("nothing to attach to"), None),
        layer_chunk(3, 0, 0, "Layer 1", None),
    ]);
    bytes.extend_from_slice(&f0);
    let err = AsepriteFile::read(&bytes).unwrap_err();
    assert!(err.is_invalid_input());
}

#[test]
fn slices_decode_with_nine_patch_and_pivot() {
    let px = [1u8, 2, 3, 255];
    let mut p = Vec::new();
    dword(&mut p, 2); // two keys
    dword(&mut p, 3); // slice9 + pivot
    dword(&mut p, 0);
    string(&mut p, "Slice 1");
    for k in 0..2u32 {
        dword(&mut p, k); // from frame
        long(&mut p, 4 + k as i32);
        long(&mut p, 5);
        dword(&mut p, 8);
        dword(&mut p, 9);
        // 9-slice center
        long(&mut p, 3);
        long(&mut p, 3);
        dword(&mut p, 2);
        dword(&mut p, 2);
        // pivot
        long(&mut p, 4);
        long(&mut p, 1);
    }
    let mut bytes = header(1, 1, 1, 32, 0);
    let f0 = frame(&[
        layer_chunk(3, 0, 0, "Layer 1", None),
        chunk(0x2022, &p),
        user_data_chunk(Some("slice data"), None),
        raw_cel_chunk(0, 1, 1, &px),
    ]);
    bytes.extend_from_slice(&f0);
    let doc = AsepriteFile::read(&bytes).unwrap();
    assert_eq!(doc.slices().len(), 1);
    let slice = &doc.slices()[0];
    assert_eq!(slice.name, "Slice 1");
    assert_eq!(slice.keys.len(), 2);
    assert_eq!(slice.keys[0].from_frame, 0);
    assert_eq!(slice.keys[1].origin, (5, 5));
    assert_eq!(slice.keys[0].size, (8, 9));
    let s9 = slice.keys[0].slice9.unwrap();
    assert_eq!(s9.center_x, 3);
    assert_eq!(s9.center_y, 3);
    assert_eq!(s9.center_width, 2);
    assert_eq!(s9.center_height, 2);
    assert_eq!(slice.keys[0].pivot, Some((4, 1)));
    assert_eq!(slice.user_data.as_ref().unwrap().text.as_deref(), Some("slice data"));
}

#[test]
fn tilemap_renders_and_exposes_tiles() {
    // tileset: two 2x2 tiles; tile 0 transparent, tile 1 solid orange
    let tile0 = [0u8; 16];
    let mut tile1 = Vec::new();
    for _ in 0..4 {
        tile1.extend_from_slice(&[250, 120, 10, 255]);
    }
    let mut ts_pixels = Vec::new();
    ts_pixels.extend_from_slice(&tile0);
    ts_pixels.extend_from_slice(&tile1);
    let mut ts = Vec::new();
    dword(&mut ts, 7); // tileset id
    dword(&mut ts, 2 | 4); // embeds pixels, empty tile is id zero
    dword(&mut ts, 2); // tile count
    word(&mut ts, 2); // tile width
    word(&mut ts, 2); // tile height
    short(&mut ts, 1);
    ts.extend_from_slice(&[0u8; 14]);
    string(&mut ts, "tiles");
    let compressed = zlib(&ts_pixels);
    dword(&mut ts, compressed.len() as u32);
    ts.extend_from_slice(&compressed);

    // tilemap cel: 2x1 grid showing [tile 1, tile 0]
    let mut cel = Vec::new();
    word(&mut cel, 0); // layer 0
    short(&mut cel, 0);
    short(&mut cel, 0);
    cel.push(255);
    word(&mut cel, 3); // tilemap cel
    cel.extend_from_slice(&[0u8; 7]);
    word(&mut cel, 2); // grid width
    word(&mut cel, 1); // grid height
    word(&mut cel, 32); // bits per tile
    dword(&mut cel, 0x1fffffff); // tile id mask
    dword(&mut cel, 0x20000000);
    dword(&mut cel, 0x40000000);
    dword(&mut cel, 0x80000000);
    cel.extend_from_slice(&[0u8; 10]);
    let tiles: Vec<u8> = [1u32, 0u32].iter().flat_map(|t| t.to_le_bytes()).collect();
    cel.extend_from_slice(&zlib(&tiles));

    let mut bytes = header(1, 4, 2, 32, 0);
    let f0 = frame(&[
        ts_chunk(&ts),
        layer_chunk(3, 2, 0, "Tilemap 1", Some(7)),
        chunk(0x2005, &cel),
    ]);
    bytes.extend_from_slice(&f0);
    let doc = AsepriteFile::read(&bytes).unwrap();
    assert_eq!(doc.tilesets().len(), 1);
    let tileset = doc.tilesets().get(7).unwrap();
    assert_eq!(tileset.name(), "tiles");
    assert_eq!(tileset.tile_count(), 2);
    assert_eq!(tileset.tile_size().width(), 2);
    let img = doc.frame(0).image();
    // left tile solid, right tile transparent
    assert_eq!(img.get_pixel(0, 0), Rgba8 { r: 250, g: 120, b: 10, a: 255 });
    assert_eq!(img.get_pixel(1, 1), Rgba8 { r: 250, g: 120, b: 10, a: 255 });
    assert_eq!(img.get_pixel(2, 0).a, 0);
    assert_eq!(img.get_pixel(3, 1).a, 0);
    // the tilemap view resolves tile ids
    let tilemap = doc.tilemap(0, 0).unwrap();
    assert_eq!(tilemap.width(), 2);
    assert_eq!(tilemap.height(), 1);
    assert_eq!(tilemap.tile(0, 0).id(), 1);
    assert_eq!(tilemap.tile(1, 0).id(), 0);
    // a single tile as an image
    let tile_img = tilemap.tileset().unwrap().tile_image(1).unwrap();
    assert_eq!(tile_img.width(), 2);
    assert_eq!(tile_img.height(), 2);
    assert_eq!(tile_img.get_pixel(0, 0), Rgba8 { r: 250, g: 120, b: 10, a: 255 });
    // the whole tileset as one vertical strip
    let strip = tilemap.tileset().unwrap().image().unwrap();
    assert_eq!(strip.width(), 2);
    assert_eq!(strip.height(), 4);
    assert_eq!(strip.get_pixel(0, 0).a, 0);
    assert_eq!(strip.get_pixel(0, 2), Rgba8 { r: 250, g: 120, b: 10, a: 255 });
}

fn ts_chunk(payload: &[u8]) -> Vec<u8> {
    chunk(0x2023, payload)
}

#[test]
fn tilemap_cel_outside_tilemap_layer_fails() {
    let mut cel = Vec::new();
    word(&mut cel, 0);
    short(&mut cel, 0);
    short(&mut cel, 0);
    cel.push(255);
    word(&mut cel, 3);
    cel.extend_from_slice(&[0u8; 7]);
    word(&mut cel, 1);
    word(&mut cel, 1);
    word(&mut cel, 32);
    dword(&mut cel, 0x1fffffff);
    dword(&mut cel, 0x20000000);
    dword(&mut cel, 0x40000000);
    dword(&mut cel, 0x80000000);
    cel.extend_from_slice(&[0u8; 10]);
    cel.extend_from_slice(&zlib(&[0u8; 4]));
    let mut bytes = header(1, 2, 2, 32, 0);
    let f0 = frame(&[layer_chunk(3, 0, 0, "Plain", None), chunk(0x2005, &cel)]);
    bytes.extend_from_slice(&f0);
    let err = AsepriteFile::read(&bytes).unwrap_err();
    assert!(err.is_invalid_input());
}

#[test]
fn missing_tileset_reference_fails() {
    let mut bytes = header(1, 2, 2, 32, 0);
    let f0 = frame(&[layer_chunk(3, 2, 0, "Tilemap 1", Some(9))]);
    bytes.extend_from_slice(&f0);
    let err = AsepriteFile::read(&bytes).unwrap_err();
    assert!(err.is_invalid_input());
}

#[test]
fn external_files_register_and_resolve() {
    let mut p = Vec::new();
    dword(&mut p, 2);
    p.extend_from_slice(&[0u8; 8]);
    for (id, name) in [(5u32, "palette.ase"), (9u32, "tiles.ase")] {
        dword(&mut p, id);
        p.extend_from_slice(&[0u8; 8]);
        string(&mut p, name);
    }
    let mut bytes = header(1, 1, 1, 32, 0);
    let f0 = frame(&[
        chunk(0x2008, &p),
        layer_chunk(3, 0, 0, "Layer 1", None),
    ]);
    bytes.extend_from_slice(&f0);
    let doc = AsepriteFile::read(&bytes).unwrap();
    assert_eq!(doc.external_files().map().len(), 2);
    let id = asefile::ExternalFileId::new(9);
    assert_eq!(doc.external_file_by_id(&id).unwrap().name(), "tiles.ase");
    let missing = asefile::ExternalFileId::new(4);
    assert!(doc.external_file_by_id(&missing).is_none());
}

#[test]
fn layer_queries() {
    let mut bytes = header(2, 1, 1, 32, 0);
    let f0 = frame(&[
        layer_chunk(3, 0, 0, "Bottom", None),
        layer_chunk(3, 0, 5, "Top", None), // blend mode 5: Lighten
    ]);
    let f1 = frame(&[]);
    bytes.extend_from_slice(&f0);
    bytes.extend_from_slice(&f1);
    let doc = AsepriteFile::read(&bytes).unwrap();
    assert_eq!(doc.num_layers(), 2);
    assert_eq!(doc.layer(1).name(), "Top");
    assert_eq!(doc.layer(1).blend_mode(), asefile::BlendMode::Lighten);
    assert_eq!(doc.layer_by_name("Bottom").unwrap().id(), 0);
    assert!(doc.layer_by_name("Missing").is_none());
    let mut iter = doc.layers();
    assert_eq!(iter.next().unwrap().id(), 0);
    assert_eq!(iter.next().unwrap().id(), 1);
    assert!(iter.next().is_none());
    assert!(!doc.cel(1, 0).is_empty());
    assert_eq!(doc.frame(0).duration(), 100);
    assert!(doc.layer(0).user_data().is_none());
    assert!(doc.sprite_user_data().is_none());
}

#[test]
fn tags_outside_frame_zero_are_ignored() {
    let mut bytes = header(2, 1, 1, 32, 0);
    let f0 = frame(&[layer_chunk(3, 0, 0, "Layer 1", None)]);
    let f1 = frame(&[tags_chunk(&[(0, 1, 0, 0, "late")])]);
    bytes.extend_from_slice(&f0);
    bytes.extend_from_slice(&f1);
    let doc = AsepriteFile::read(&bytes).unwrap();
    assert_eq!(doc.num_tags(), 0);
}

#[test]
fn invalid_animation_direction_fails() {
    let mut bytes = header(1, 1, 1, 32, 0);
    let f0 = frame(&[
        layer_chunk(3, 0, 0, "Layer 1", None),
        tags_chunk(&[(0, 0, 9, 0, "bad")]),
    ]);
    bytes.extend_from_slice(&f0);
    let err = AsepriteFile::read(&bytes).unwrap_err();
    assert!(err.is_invalid_input());
}

#[test]
fn chunk_size_must_fit_the_frame() {
    let mut bytes = header(1, 1, 1, 32, 0);
    // one declared chunk whose size exceeds the frame's remaining bytes
    let mut f = Vec::new();
    dword(&mut f, 16 + 6);
    word(&mut f, 0xF1FA);
    word(&mut f, 1);
    word(&mut f, 100);
    word(&mut f, 0);
    dword(&mut f, 1);
    dword(&mut f, 500); // declared chunk size: far larger than available
    word(&mut f, 0x2004);
    bytes.extend_from_slice(&f);
    let err = AsepriteFile::read(&bytes).unwrap_err();
    assert!(err.is_invalid_input());
}

#[test]
fn palette_mapper_round_trips_opaque_colors() {
    let mut p = Vec::new();
    dword(&mut p, 3);
    dword(&mut p, 0);
    dword(&mut p, 2);
    p.extend_from_slice(&[0u8; 8]);
    for c in [[9u8, 8, 7, 255], [1, 2, 3, 255], [200, 100, 50, 255]] {
        word(&mut p, 0);
        p.extend_from_slice(&c);
    }
    let pal = asefile::palette::parse_chunk(&p).unwrap();
    let mapper = asefile::util::PaletteMapper::new(
        &pal,
        asefile::util::MappingOptions { failure: 0, transparent: Some(2) },
    );
    assert_eq!(mapper.lookup(1, 2, 3, 255), 1);
    assert_eq!(mapper.lookup(200, 100, 50, 255), 2);
    assert_eq!(mapper.lookup(9, 8, 7, 255), 0);
    assert_eq!(mapper.lookup(9, 8, 7, 128), 2); // transparent
    assert_eq!(mapper.lookup(50, 50, 50, 255), 0); // unknown color
}

#[test]
fn extrude_border_duplicates_edges() {
    let px = [
        1u8, 0, 0, 255, 2, 0, 0, 255, //
        3, 0, 0, 255, 4, 0, 0, 255,
    ];
    let mut bytes = header(1, 2, 2, 32, 0);
    let f0 = frame(&[
        layer_chunk(3, 0, 0, "Layer 1", None),
        raw_cel_chunk(0, 2, 2, &px),
    ]);
    bytes.extend_from_slice(&f0);
    let doc = AsepriteFile::read(&bytes).unwrap();
    let img = doc.frame(0).image();
    let out = asefile::util::extrude_border(img);
    assert_eq!(out.width(), 4);
    assert_eq!(out.height(), 4);
    assert_eq!(out.get_pixel(0, 0).r, 1); // corner duplicated
    assert_eq!(out.get_pixel(1, 1).r, 1);
    assert_eq!(out.get_pixel(3, 3).r, 4);
    assert_eq!(out.get_pixel(2, 0).r, 2); // top edge duplicates row 0
    assert_eq!(out.get_pixel(0, 2).r, 3); // left edge duplicates column 0
}

#[test]
fn to_indexed_image_maps_every_pixel() {
    let mut p = Vec::new();
    dword(&mut p, 2);
    dword(&mut p, 0);
    dword(&mut p, 1);
    p.extend_from_slice(&[0u8; 8]);
    for c in [[9u8, 8, 7, 255], [1, 2, 3, 255]] {
        word(&mut p, 0);
        p.extend_from_slice(&c);
    }
    let pal = asefile::palette::parse_chunk(&p).unwrap();
    let mapper = asefile::util::PaletteMapper::new(
        &pal,
        asefile::util::MappingOptions { failure: 7, transparent: Some(3) },
    );
    let px = [9u8, 8, 7, 255, 1, 2, 3, 255, 0, 0, 0, 0, 5, 5, 5, 255];
    let mut bytes = header(1, 2, 2, 32, 0);
    let f0 = frame(&[
        layer_chunk(3, 0, 0, "Layer 1", None),
        raw_cel_chunk(0, 2, 2, &px),
    ]);
    bytes.extend_from_slice(&f0);
    let doc = AsepriteFile::read(&bytes).unwrap();
    let img = doc.frame(0).image();
    let ((w, h), data) = asefile::util::to_indexed_image(img, &mapper);
    assert_eq!((w, h), (2, 2));
    assert_eq!(data, vec![0, 1, 3, 7]);
}
