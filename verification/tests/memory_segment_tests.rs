use vm_translator::memory_segment::MemorySegment;

#[test]
fn segments_store_and_return_values() {
    let mut segments = MemorySegment::new();
    segments.push("local", 3, 9);
    segments.push("argument", 3, 4);
    assert_eq!(segments.get("local", 3), Some(9));
    assert_eq!(segments.get("argument", 3), Some(4));
    assert_eq!(segments.get("this", 3), None);
    segments.push("local", 3, 10);
    assert_eq!(segments.get("local", 3), Some(10));
}

#[test]
fn unknown_segment_names_fall_back_to_temp() {
    let mut segments = MemorySegment::new();
    segments.push("weird", 1, 5);
    assert_eq!(segments.get("temp", 1), Some(5));
    assert_eq!(segments.get("weird", 1), Some(5));
    assert_eq!(segments.get("local", 1), None);
}
