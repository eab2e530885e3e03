use world_relayer::rlp::{read_item, read_items, Item};

fn item(is_list: bool, at: usize, start: usize, end: usize) -> Option<Item> {
    Some(Item { is_list, at, start, end })
}

#[test]
fn a_single_low_byte_is_its_own_item() {
    assert_eq!(read_item(&[0x00], 0, 1), item(false, 0, 0, 1));
    assert_eq!(read_item(&[0x7f, 0x01], 0, 2), item(false, 0, 0, 1));
    assert_eq!(read_item(&[0x7f, 0x01], 1, 2), item(false, 1, 1, 2));
}

#[test]
fn short_strings_and_lists_follow_one_byte() {
    assert_eq!(read_item(&[0x80], 0, 1), item(false, 0, 1, 1));
    assert_eq!(read_item(&[0x83, 1, 2, 3], 0, 4), item(false, 0, 1, 4));
    assert_eq!(read_item(&[0xc0], 0, 1), item(true, 0, 1, 1));
    assert_eq!(read_item(&[0xc2, 0x01, 0x80], 0, 3), item(true, 0, 1, 3));
    assert_eq!(read_item(&[0x81, 0x80], 0, 2), item(false, 0, 1, 2));
}

#[test]
fn long_strings_and_lists_follow_their_length() {
    let mut text = vec![0xb8, 56];
    text.extend_from_slice(&[0xaa; 56]);
    assert_eq!(read_item(&text, 0, text.len()), item(false, 0, 2, 58));
    let mut list = vec![0xf9, 0x01, 0x00];
    list.extend_from_slice(&[0x01; 256]);
    assert_eq!(read_item(&list, 0, list.len()), item(true, 0, 3, 259));
}

#[test]
fn what_is_not_canonical_is_no_item() {
    // a low byte wrapped in a string
    assert_eq!(read_item(&[0x81, 0x7f], 0, 2), None);
    // a long form for a short payload
    let mut short = vec![0xb8, 55];
    short.extend_from_slice(&[0xaa; 55]);
    assert_eq!(read_item(&short, 0, short.len()), None);
    // a length with a leading zero
    let mut padded = vec![0xb9, 0x00, 56];
    padded.extend_from_slice(&[0xaa; 56]);
    assert_eq!(read_item(&padded, 0, padded.len()), None);
}

#[test]
fn what_does_not_fit_is_no_item() {
    assert_eq!(read_item(&[], 0, 0), None);
    assert_eq!(read_item(&[0x83, 1, 2], 0, 3), None);
    assert_eq!(read_item(&[0x83, 1, 2, 3], 0, 3), None);
    assert_eq!(read_item(&[0x83, 1, 2, 3], 4, 4), None);
    assert_eq!(read_item(&[0x83, 1, 2, 3], 0, 5), None);
    assert_eq!(read_item(&[0xb8], 0, 1), None);
    assert_eq!(read_item(&[0xbf, 0xff, 0xff, 0xff, 0xff, 0xff, 0xff, 0xff, 0xff], 0, 9), None);
    assert_eq!(read_item(&[0xff, 0x01, 1, 1, 1, 1, 1, 1, 1], 0, 9), None);
}

#[test]
fn a_range_falls_into_its_items() {
    let buf = [0xc5, 0x01, 0x82, 0xab, 0xcd, 0x80];
    assert_eq!(
        read_items(&buf, 1, 6),
        Some(vec![
            Item { is_list: false, at: 1, start: 1, end: 2 },
            Item { is_list: false, at: 2, start: 3, end: 5 },
            Item { is_list: false, at: 5, start: 6, end: 6 },
        ])
    );
    assert_eq!(read_items(&buf, 3, 3), Some(vec![]));
    assert_eq!(read_items(&buf, 0, 6).map(|items| items.len()), Some(1));
}

#[test]
fn a_range_that_ends_inside_an_item_has_no_items() {
    let buf = [0xc5, 0x01, 0x82, 0xab, 0xcd, 0x80];
    assert_eq!(read_items(&buf, 1, 4), None);
    assert_eq!(read_items(&buf, 0, 5), None);
}
