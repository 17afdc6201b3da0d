use tinyase::parser::chunk::layer::{
    BlendMode, Layer, LayerFlag, LayerParseError, LayerType, LAYER_HEADER_SIZE,
};

fn layer_payload(flags: u16, layer_type: u16, child: u16, blend: u16, opacity: u8, name: &[u8]) -> Vec<u8> {
    let mut v: Vec<u8> = Vec::new();
    v.extend_from_slice(&flags.to_le_bytes());
    v.extend_from_slice(&layer_type.to_le_bytes());
    v.extend_from_slice(&child.to_le_bytes());
    v.extend_from_slice(&0x1111u16.to_le_bytes()); // ignored width
    v.extend_from_slice(&0x2222u16.to_le_bytes()); // ignored height
    v.extend_from_slice(&blend.to_le_bytes());
    v.push(opacity);
    v.extend_from_slice(&[0xEE; 3]);
    v.extend_from_slice(&(name.len() as u16).to_le_bytes());
    v.extend_from_slice(name);
    v
}

const MODES: [BlendMode; 19] = [
    BlendMode::Normal,
    BlendMode::Multiply,
    BlendMode::Screen,
    BlendMode::Overlay,
    BlendMode::Darken,
    BlendMode::Lighten,
    BlendMode::ColorDodge,
    BlendMode::ColorBurn,
    BlendMode::HardLight,
    BlendMode::SoftLight,
    BlendMode::Difference,
    BlendMode::Exclusion,
    BlendMode::Hue,
    BlendMode::Saturation,
    BlendMode::Color,
    BlendMode::Luminosity,
    BlendMode::Addition,
    BlendMode::Subtract,
    BlendMode::Divide,
];

#[test]
fn layer_header_size_is_16() {
    assert_eq!(LAYER_HEADER_SIZE, 16);
}

#[test]
fn layer_fields_are_decoded() {
    let payload = layer_payload(0x0003, 1, 0x0102, 17, 0x80, b"Group 1");
    let layer = Layer::new(&payload).unwrap();
    assert_eq!(layer.header.flags.bits(), 3);
    assert_eq!(layer.header.layer_type, LayerType::Group);
    assert_eq!(layer.header.child_level, 0x0102);
    assert_eq!(layer.header.blend_mode, BlendMode::Subtract);
    assert_eq!(layer.header.opacity, 0x80);
    assert_eq!(layer.name, "Group 1");
    assert!(layer.rest.is_empty());
}

#[test]
fn layer_keeps_what_follows_the_name() {
    let mut payload = layer_payload(1, 2, 0, 0, 255, b"tiles");
    payload.extend_from_slice(&[1, 2, 3, 4]);
    let layer = Layer::new(&payload).unwrap();
    assert_eq!(layer.header.layer_type, LayerType::Tilemap);
    assert_eq!(layer.name, "tiles");
    assert_eq!(layer.rest, &[1u8, 2, 3, 4][..]);
}

#[test]
fn layer_name_may_be_empty_or_beyond_ascii() {
    let payload = layer_payload(1, 0, 0, 0, 255, b"");
    assert_eq!(Layer::new(&payload).unwrap().name, "");
    let name = "Ébène ☃ 層";
    let payload = layer_payload(1, 0, 0, 0, 255, name.as_bytes());
    assert_eq!(Layer::new(&payload).unwrap().name, name);
}

#[test]
fn layer_name_must_be_utf8() {
    for bad in [&[0xFFu8][..], &[0xC3][..], &[b'a', 0x80, b'b'][..], &[0xED, 0xA0, 0x80][..], &[0xC0, 0x80][..]] {
        let payload = layer_payload(1, 0, 0, 0, 255, bad);
        assert_eq!(Layer::new(&payload).err(), Some(LayerParseError::InvalidUtf8Name));
    }
}

#[test]
fn unknown_layer_type_is_reported_with_its_code() {
    for code in [3u16, 4, 0x0100, 0xFFFF] {
        let payload = layer_payload(1, code, 0, 0, 255, b"x");
        assert_eq!(Layer::new(&payload).err(), Some(LayerParseError::UnsupportedLayerType(code)));
    }
}

#[test]
fn unknown_blend_mode_is_reported_with_its_code() {
    for code in [19u16, 20, 0x0100, 0xFFFF] {
        let payload = layer_payload(1, 0, 0, code, 255, b"x");
        assert_eq!(Layer::new(&payload).err(), Some(LayerParseError::UnsupportedBlendMode(code)));
    }
}

#[test]
fn layer_type_is_checked_before_blend_mode() {
    let payload = layer_payload(1, 9, 0, 99, 255, b"x");
    assert_eq!(Layer::new(&payload).err(), Some(LayerParseError::UnsupportedLayerType(9)));
}

#[test]
fn codes_are_checked_before_the_name() {
    let payload = layer_payload(1, 9, 0, 0, 255, &[0xFF]);
    assert_eq!(Layer::new(&payload[..16]).err(), Some(LayerParseError::UnsupportedLayerType(9)));
    let payload = layer_payload(1, 0, 0, 99, 255, &[0xFF]);
    assert_eq!(Layer::new(&payload).err(), Some(LayerParseError::UnsupportedBlendMode(99)));
}

#[test]
fn short_layer_payload_is_a_cast_error() {
    let payload = layer_payload(1, 0, 0, 0, 255, b"name");
    for len in 0..payload.len() {
        assert_eq!(Layer::new(&payload[..len]).err(), Some(LayerParseError::CastError));
    }
    assert!(Layer::new(&payload).is_ok());
}

#[test]
fn short_payload_comes_before_the_codes() {
    let payload = layer_payload(1, 9, 0, 99, 255, b"name");
    assert_eq!(Layer::new(&payload[..15]).err(), Some(LayerParseError::CastError));
}

#[test]
fn unnamed_flag_bits_are_kept() {
    let payload = layer_payload(0xFF81, 0, 0, 0, 255, b"x");
    let layer = Layer::new(&payload).unwrap();
    assert_eq!(layer.header.flags.bits(), 0xFF81);
    assert_eq!(layer.header.flags, LayerFlag::from_bits_retain(0xFF81));
    assert!(layer.header.flags.contains(LayerFlag::VISIBLE));
    assert!(!layer.header.flags.contains(LayerFlag::EDITABLE));
}

#[test]
fn flag_masks() {
    assert_eq!(LayerFlag::VISIBLE, 0x1);
    assert_eq!(LayerFlag::EDITABLE, 0x2);
    assert_eq!(LayerFlag::LOCK_MOVEMENT, 0x4);
    assert_eq!(LayerFlag::BACKGROUND, 0x8);
    assert_eq!(LayerFlag::PREFER_LINKED_CELS, 0x10);
    assert_eq!(LayerFlag::DISPLAY_COLLAPSED, 0x20);
    assert_eq!(LayerFlag::REFERENCE, 0x40);
}

#[test]
fn contains_asks_for_every_bit_of_the_mask() {
    let f = LayerFlag::from_bits_retain(LayerFlag::VISIBLE | LayerFlag::BACKGROUND);
    assert!(f.contains(LayerFlag::VISIBLE));
    assert!(f.contains(LayerFlag::BACKGROUND));
    assert!(f.contains(LayerFlag::VISIBLE | LayerFlag::BACKGROUND));
    assert!(!f.contains(LayerFlag::VISIBLE | LayerFlag::EDITABLE));
    assert!(!f.contains(LayerFlag::REFERENCE));
    assert!(f.contains(0));
    assert_eq!(f.bits(), 9);
}

#[test]
fn layer_type_codes() {
    assert_eq!(LayerType::from_code(0), Some(LayerType::Normal));
    assert_eq!(LayerType::from_code(1), Some(LayerType::Group));
    assert_eq!(LayerType::from_code(2), Some(LayerType::Tilemap));
    assert_eq!(LayerType::from_code(3), None);
    assert_eq!(LayerType::from_code(0xFFFF), None);
    for t in [LayerType::Normal, LayerType::Group, LayerType::Tilemap] {
        assert_eq!(LayerType::from_code(t.code()), Some(t));
    }
}

#[test]
fn blend_mode_codes() {
    for (i, m) in MODES.iter().enumerate() {
        assert_eq!(BlendMode::from_code(i as u16), Some(*m));
        assert_eq!(m.code(), i as u16);
    }
    assert_eq!(BlendMode::from_code(19), None);
    assert_eq!(BlendMode::from_code(0xFFFF), None);
    for code in 0..=0xFFFFu16 {
        assert_eq!(BlendMode::from_code(code).is_some(), code <= 18);
    }
}
