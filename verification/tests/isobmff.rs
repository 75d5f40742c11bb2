use media_metadata_plus::container::isobmff::{
    find_all_child_boxes, find_child_box, find_top_level_box, top_level_step, TopLevelStep,
};

fn make_box(name: &[u8; 4], content: &[u8]) -> Vec<u8> {
    let size = (8 + content.len()) as u32;
    let mut out = size.to_be_bytes().to_vec();
    out.extend_from_slice(name);
    out.extend_from_slice(content);
    out
}

#[test]
fn find_child_box_locates_named_box() {
    let mut data = make_box(b"free", &[0, 0]);
    data.extend(make_box(b"mvhd", &[1, 2, 3, 4]));
    data.extend(make_box(b"trak", &[9]));

    assert_eq!(find_child_box(&data, b"mvhd"), Some(&[1, 2, 3, 4][..]));
    assert_eq!(find_child_box(&data, b"trak"), Some(&[9][..]));
    assert_eq!(find_child_box(&data, b"nope"), None);
}

#[test]
fn find_all_child_boxes_collects_every_match() {
    let mut data = make_box(b"trak", &[1]);
    data.extend(make_box(b"free", &[0]));
    data.extend(make_box(b"trak", &[2]));

    let traks = find_all_child_boxes(&data, b"trak");
    assert_eq!(traks, vec![&[1u8][..], &[2u8][..]]);
}

#[test]
fn find_child_box_rejects_truncated_or_oversized_size() {
    // Declared size larger than the remaining buffer must not panic or match.
    let mut data = 100u32.to_be_bytes().to_vec();
    data.extend_from_slice(b"mvhd");
    data.extend_from_slice(&[0, 0]);
    assert_eq!(find_child_box(&data, b"mvhd"), None);
}

#[test]
fn first_child_is_first_of_all_children() {
    let mut data = make_box(b"trak", &[7, 7]);
    data.extend(make_box(b"trak", &[8]));
    let all = find_all_child_boxes(&data, b"trak");
    assert_eq!(find_child_box(&data, b"trak"), Some(all[0]));
    assert_eq!(find_all_child_boxes(&data, b"nope"), Vec::<&[u8]>::new());
    assert_eq!(find_child_box(&data, b"nope"), None);
}

#[test]
fn scan_stops_at_box_smaller_than_its_header() {
    let mut data = 4u32.to_be_bytes().to_vec();
    data.extend_from_slice(b"free");
    data.extend(make_box(b"mvhd", &[1]));
    assert_eq!(find_child_box(&data, b"mvhd"), None);
    assert!(find_all_child_boxes(&data, b"mvhd").is_empty());
}

#[test]
fn child_box_with_empty_body_is_found() {
    let data = make_box(b"udta", &[]);
    assert_eq!(find_child_box(&data, b"udta"), Some(&[][..]));
}

#[test]
fn top_level_step_covers_every_header_kind() {
    let big = u64::MAX;
    assert_eq!(top_level_step(24, b"moov", b"moov", None, big), TopLevelStep::ReadBody(16));
    assert_eq!(top_level_step(24, b"free", b"moov", None, big), TopLevelStep::Skip(16));
    assert_eq!(top_level_step(1, b"mdat", b"moov", None, big), TopLevelStep::ReadExtendedSize);
    assert_eq!(top_level_step(1, b"mdat", b"moov", Some(100), big), TopLevelStep::Skip(84));
    assert_eq!(top_level_step(1, b"moov", b"moov", Some(40), big), TopLevelStep::ReadBody(24));
    assert_eq!(top_level_step(1, b"moov", b"moov", Some(3), big), TopLevelStep::ReadBody(0));
    assert_eq!(top_level_step(0, b"moov", b"moov", None, big), TopLevelStep::ReadToEnd);
    assert_eq!(top_level_step(0, b"mdat", b"moov", None, big), TopLevelStep::NotFound);
    assert_eq!(top_level_step(5, b"free", b"moov", None, big), TopLevelStep::NotFound);
    assert_eq!(top_level_step(8, b"free", b"moov", None, big), TopLevelStep::Skip(0));
}

#[test]
fn top_level_step_stops_at_body_past_end_of_file() {
    assert_eq!(top_level_step(24, b"moov", b"moov", None, 16), TopLevelStep::ReadBody(16));
    assert_eq!(top_level_step(24, b"moov", b"moov", None, 15), TopLevelStep::NotFound);
    assert_eq!(top_level_step(24, b"free", b"moov", None, 15), TopLevelStep::NotFound);
    assert_eq!(
        top_level_step(1, b"moov", b"moov", Some(u64::MAX), 1_000),
        TopLevelStep::NotFound
    );
    assert_eq!(
        top_level_step(1, b"mdat", b"moov", Some(1 << 63), 1_000),
        TopLevelStep::NotFound
    );
}

#[test]
fn find_top_level_box_scans_a_file_in_memory() {
    let mut file = make_box(b"ftyp", b"isom");
    file.extend(make_box(b"moov", &[1, 2, 3]));
    assert_eq!(find_top_level_box(&file, b"moov"), Some(&[1u8, 2, 3][..]));
    assert_eq!(find_top_level_box(&file, b"mdat"), None);
    // 64-bit size: 16 header bytes, then the body.
    let mut ext = vec![0, 0, 0, 1];
    ext.extend_from_slice(b"moov");
    ext.extend_from_slice(&18u64.to_be_bytes());
    ext.extend_from_slice(&[7, 8]);
    assert_eq!(find_top_level_box(&ext, b"moov"), Some(&[7u8, 8][..]));
    // Size 0: the box runs to the end of the file.
    let mut open = vec![0, 0, 0, 0];
    open.extend_from_slice(b"moov");
    open.extend_from_slice(&[5, 6, 7]);
    assert_eq!(find_top_level_box(&open, b"moov"), Some(&[5u8, 6, 7][..]));
    // A body that overruns the file: not found.
    let mut cut = make_box(b"moov", &[1, 2, 3]);
    cut.truncate(9);
    assert_eq!(find_top_level_box(&cut, b"moov"), None);
}

#[test]
fn child_search_over_joined_data_finds_both_parts() {
    let mut d1 = make_box(b"trak", &[1]);
    d1.extend(make_box(b"free", &[]));
    let mut d2 = make_box(b"trak", &[2]);
    d2.extend(make_box(b"trak", &[3]));
    let mut joined = d1.clone();
    joined.extend_from_slice(&d2);
    let all = find_all_child_boxes(&joined, b"trak");
    let mut parts = find_all_child_boxes(&d1, b"trak");
    parts.extend(find_all_child_boxes(&d2, b"trak"));
    assert_eq!(all, parts);
    assert_eq!(all, vec![&[1u8][..], &[2u8][..], &[3u8][..]]);
}
