use cubeplan::codec::{decode, encode};
use cubeplan::ir::{
    Binding, CubeDim, Elem, FloatKind, IntKind, Item, KernelDefinition, Location, Scope,
    Visibility,
};

fn binding(location: Location, visibility: Visibility, elem: Elem, size: Option<usize>) -> Binding {
    Binding { location, visibility, item: Item::vectorized(elem, 2), size }
}

fn sample_def() -> KernelDefinition {
    KernelDefinition {
        inputs: vec![
            binding(Location::Storage, Visibility::Read, Elem::Float(FloatKind::F32), None),
            binding(Location::Cube, Visibility::Read, Elem::Int(IntKind::I64), Some(128)),
        ],
        outputs: vec![
            binding(Location::Storage, Visibility::ReadWrite, Elem::UInt, Some(0)),
            binding(Location::Cube, Visibility::ReadWrite, Elem::Bool, None),
        ],
        named: vec![
            (String::from("info"), binding(Location::Storage, Visibility::Read, Elem::UInt, None)),
            (
                String::from("scalars_f32"),
                binding(Location::Cube, Visibility::ReadWrite, Elem::Float(FloatKind::BF16), Some(7)),
            ),
        ],
        cube_dim: CubeDim { x: 16, y: 8, z: 1 },
        body: Scope { depth: 3 },
    }
}

#[test]
fn encode_decode_round_trip() {
    let def = sample_def();
    let bytes = encode(&def);
    let back = decode(&bytes).expect("an encoded definition must decode");
    assert_eq!(back, def);
}

#[test]
fn round_trip_with_unicode_name_and_empty_lists() {
    let def = KernelDefinition {
        inputs: vec![],
        outputs: vec![],
        named: vec![
            (
                String::from("k\u{00e9}rnel \u{2764}"),
                binding(Location::Storage, Visibility::Read, Elem::Bool, None),
            ),
        ],
        cube_dim: CubeDim::default(),
        body: Scope { depth: 0 },
    };
    let bytes = encode(&def);
    assert_eq!(decode(&bytes).expect("must decode"), def);
}

#[test]
fn decode_rejects_ragged_length() {
    // not a whole number of words
    assert!(decode(&vec![0u8; 13]).is_none());
}

#[test]
fn decode_rejects_truncated_input() {
    let def = sample_def();
    let mut bytes = encode(&def);
    bytes.truncate(bytes.len() - 8);
    assert!(decode(&bytes).is_none());
}

#[test]
fn decode_rejects_bad_tag() {
    let def = sample_def();
    let mut bytes = encode(&def);
    // first input binding's location word sits right after the count word
    bytes[8] = 0xee;
    assert!(decode(&bytes).is_none());
}

#[test]
fn decode_rejects_trailing_garbage() {
    let def = sample_def();
    let mut bytes = encode(&def);
    bytes.extend_from_slice(&[0u8; 8]);
    assert!(decode(&bytes).is_none());
}
