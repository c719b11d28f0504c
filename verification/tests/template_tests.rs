use zkfp::template::{
    CompactTemplate, FingerPosition, FingerprintTemplate, NativeTemplateContainer,
    TemplateError, TemplateMemoryBlock,
};

#[test]
fn finger_positions_round_trip() {
    for v in 0..=10 {
        let p = FingerPosition::from_i32(v).unwrap();
        assert_eq!(p.to_i32(), v);
    }
    assert_eq!(FingerPosition::from_i32(2), Some(FingerPosition::RightIndex));
    assert_eq!(FingerPosition::from_i32(11), None);
    assert_eq!(FingerPosition::from_i32(-1), None);
}

#[test]
fn template_bytes_round_trip() {
    let t = FingerprintTemplate::from_bytes(&[1, 2, 3]).unwrap();
    assert_eq!(t.quality, 50);
    assert_eq!(t.to_bytes(), vec![1, 2, 3]);
    assert_eq!(t.to_compact(10).to_bytes(), vec![1, 2, 3]);
    let c = CompactTemplate::from_bytes(&[4, 5]).unwrap();
    assert_eq!(c.to_bytes(), vec![4, 5]);
}

#[test]
fn merge_keeps_first_best() {
    let a = FingerprintTemplate { iso_bytes: vec![1], quality: 40 };
    let b = FingerprintTemplate { iso_bytes: vec![2], quality: 70 };
    let c = FingerprintTemplate { iso_bytes: vec![3], quality: 70 };
    let m = FingerprintTemplate::merge(&[&a, &b, &c]).unwrap();
    assert_eq!(m.iso_bytes, vec![2]);
    assert_eq!(m.quality, 70);
    match FingerprintTemplate::merge(&[]) {
        Err(TemplateError::InvalidData(msg)) => assert_eq!(msg, "No templates to merge"),
        other => panic!("unexpected {:?}", other),
    }
}

#[test]
fn native_format_unsupported() {
    match NativeTemplateContainer::parse(&[1]) {
        Err(TemplateError::InvalidData(m)) => assert_eq!(m, "Native parsing unsupported"),
        other => panic!("unexpected {:?}", other),
    }
    let n = NativeTemplateContainer {};
    match n.to_bytes() {
        Err(TemplateError::InvalidData(m)) => assert_eq!(m, "Native format unsupported"),
        other => panic!("unexpected {:?}", other),
    }
    match TemplateMemoryBlock::parse(&[9, 9]).unwrap() {
        TemplateMemoryBlock::Logical(t) => assert_eq!(t.iso_bytes, vec![9, 9]),
        TemplateMemoryBlock::Native(_) => panic!("expected a logical template"),
    }
}
