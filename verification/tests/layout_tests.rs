use render_core::layout::{ComponentType, FieldLayout, Record, RecordLayout};

fn field(count: u32, ct: ComponentType, offset: u32) -> FieldLayout {
    FieldLayout { component_count: count, component_type: ct, normalized: false, byte_offset: offset }
}

#[test]
fn layout_accepts_ordered_fields() {
    let l = RecordLayout::new(
        vec![field(3, ComponentType::Float32, 0), field(3, ComponentType::Float32, 12)],
        24,
    );
    assert!(l.is_some());
    let l = l.unwrap();
    assert_eq!(l.record_size, 24);
    assert_eq!(l.fields.len(), 2);
}

#[test]
fn layout_accepts_padding_between_fields() {
    // A one-byte field, three bytes of padding, then a four-byte field.
    let l = RecordLayout::new(
        vec![field(1, ComponentType::Uint8, 0), field(1, ComponentType::Float32, 4)],
        8,
    );
    assert!(l.is_some());
}

#[test]
fn layout_rejects_overlapping_fields() {
    let l = RecordLayout::new(
        vec![field(3, ComponentType::Float32, 0), field(3, ComponentType::Float32, 8)],
        24,
    );
    assert!(l.is_none());
}

#[test]
fn layout_rejects_field_past_record_end() {
    let l = RecordLayout::new(vec![field(3, ComponentType::Float32, 0)], 8);
    assert!(l.is_none());
}

#[test]
fn layout_rejects_unordered_fields() {
    let l = RecordLayout::new(
        vec![field(3, ComponentType::Float32, 12), field(3, ComponentType::Float32, 0)],
        24,
    );
    assert!(l.is_none());
}

#[test]
fn layout_rejects_bad_component_count() {
    assert!(RecordLayout::new(vec![field(0, ComponentType::Float32, 0)], 4).is_none());
    assert!(RecordLayout::new(vec![field(5, ComponentType::Float32, 0)], 32).is_none());
}

#[test]
fn record_matches_its_layout() {
    let l = RecordLayout::new(
        vec![field(3, ComponentType::Float32, 0), field(3, ComponentType::Float32, 12)],
        24,
    )
    .unwrap();
    let r = Record { values: vec![vec![1, 2, 3], vec![4, 5, 6]] };
    assert!(r.matches_layout(&l));
}

#[test]
fn record_with_wrong_field_count_is_rejected() {
    let l = RecordLayout::new(vec![field(3, ComponentType::Float32, 0)], 12).unwrap();
    let r = Record { values: vec![vec![1, 2, 3], vec![4, 5, 6]] };
    assert!(!r.matches_layout(&l));
}

#[test]
fn record_with_wrong_component_count_is_rejected() {
    let l = RecordLayout::new(vec![field(3, ComponentType::Float32, 0)], 12).unwrap();
    let r = Record { values: vec![vec![1, 2]] };
    assert!(!r.matches_layout(&l));
}

#[test]
fn record_with_oversized_component_is_rejected() {
    let l = RecordLayout::new(vec![field(1, ComponentType::Uint8, 0)], 1).unwrap();
    assert!(!Record { values: vec![vec![256]] }.matches_layout(&l));
    assert!(Record { values: vec![vec![255]] }.matches_layout(&l));
}
