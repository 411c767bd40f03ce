use frame_pallets::page::{Page, HEADER_LEN};
use parity_scale_codec::Encode;

/// The heap size of the pages of the test runtime.
const HEAP_SIZE: u32 = 24;

type PageOf = Page<HEAP_SIZE>;

/// The largest encoded origin of the test runtime: a variant byte and a `u32`.
fn max_origin_len() -> u32 {
    1 + 4
}

/// A page filled with as many encoded `u32` messages as fit, and their number.
fn full_page() -> (PageOf, usize) {
    let mut msgs = 0;
    let mut page = PageOf::default();
    for i in 0..u32::MAX {
        let r = page.try_append_message(&i.encode());
        if r.is_err() {
            break;
        } else {
            msgs += 1;
        }
    }
    assert!(msgs > 0, "page must hold at least one message");
    (page, msgs)
}

#[test]
fn peek_index_works() {
    let (mut page, msgs) = full_page();
    assert!(msgs > 1, "precondition unmet");

    for i in 0..msgs {
        page.skip_first(i % 2 == 0);
        let (pos, processed, payload) = page.peek_index(i).unwrap();
        assert_eq!(pos, 9 * i);
        assert_eq!(processed, i % 2 == 0);
        assert_eq!(payload, (i as u32).encode());
    }
}

#[test]
fn page_from_message_basic_works() {
    assert!(max_origin_len() >= 3, "pre-condition unmet");
    assert!(PageOf::max_message_len() >= 3, "pre-condition unmet");

    let _page = PageOf::from_message(b"MSG");
}

#[test]
fn page_from_message_max_len_works() {
    let max_msg_len: usize = PageOf::max_message_len() as usize;

    let page = PageOf::from_message(&vec![1; max_msg_len][..]);

    assert_eq!(page.remaining(), 1);
}

#[test]
fn max_message_len_is_heap_less_header() {
    assert_eq!(PageOf::max_message_len(), 19);
    assert_eq!(Page::<3>::max_message_len(), 0);
    assert_eq!(HEADER_LEN, 5);
}

#[test]
fn from_message_holds_one_unprocessed_item() {
    let page = PageOf::from_message(b"MSG");
    assert_eq!(page.remaining(), 1);
    assert_eq!(page.remaining_size(), 3);
    assert_eq!(page.first_index(), 0);
    assert_eq!(page.heap_len(), 8);
    assert!(!page.is_complete());
    assert_eq!(page.peek_index(0), Some((0, false, &b"MSG"[..])));
    assert_eq!(page.peek_index(1), None);
    assert_eq!(page.peek_first(), Some(&b"MSG"[..]));
}

#[test]
fn max_message_fills_the_heap() {
    let page = PageOf::from_message(&[7u8; 19]);
    assert_eq!(page.heap_len(), 24);
    let mut page = page;
    assert_eq!(page.try_append_message(&[]), Err(()));
    assert_eq!(page.remaining(), 1);
}

#[test]
fn default_page_is_empty() {
    let page = PageOf::default();
    assert_eq!(page.remaining(), 0);
    assert_eq!(page.remaining_size(), 0);
    assert_eq!(page.heap_len(), 0);
    assert!(page.is_complete());
    assert_eq!(page.peek_first(), None);
    assert_eq!(page.peek_index(0), None);
}

#[test]
fn append_places_items_one_after_another() {
    let mut page = PageOf::from_message(b"ab");
    assert_eq!(page.try_append_message(b"cde"), Ok(()));
    assert_eq!(page.remaining(), 2);
    assert_eq!(page.remaining_size(), 5);
    assert_eq!(page.heap_len(), 15);
    assert_eq!(page.peek_index(0), Some((0, false, &b"ab"[..])));
    assert_eq!(page.peek_index(1), Some((7, false, &b"cde"[..])));
    assert_eq!(page.peek_index(2), None);
    // 15 + 5 + 5 > 24: no room for a message of five bytes.
    assert_eq!(page.try_append_message(b"fghij"), Err(()));
    assert_eq!(page.heap_len(), 15);
    assert_eq!(page.try_append_message(b"fghi"), Ok(()));
    assert_eq!(page.heap_len(), 24);
}

#[test]
fn skip_first_marks_and_advances() {
    let mut page = PageOf::from_message(b"ab");
    page.try_append_message(b"cde").unwrap();

    // Skipping unprocessed (an overweight message) keeps it remaining.
    page.skip_first(false);
    assert_eq!(page.first_index(), 1);
    assert_eq!(page.remaining(), 2);
    assert_eq!(page.peek_first(), Some(&b"cde"[..]));
    assert_eq!(page.peek_index(0), Some((0, false, &b"ab"[..])));

    // Skipping processed marks the item and takes it off what remains.
    page.skip_first(true);
    assert_eq!(page.first_index(), 2);
    assert_eq!(page.remaining(), 1);
    assert_eq!(page.remaining_size(), 2);
    assert_eq!(page.peek_index(1), Some((7, true, &b"cde"[..])));
    assert_eq!(page.peek_first(), None);
    assert!(!page.is_complete());

    // Nothing is left to skip.
    page.skip_first(true);
    assert_eq!(page.first_index(), 2);
    assert_eq!(page.remaining(), 1);
}

#[test]
fn page_completes_when_every_item_is_processed() {
    let mut page = PageOf::from_message(b"x");
    page.try_append_message(b"y").unwrap();
    page.skip_first(true);
    assert!(!page.is_complete());
    page.skip_first(true);
    assert!(page.is_complete());
    assert_eq!(page.remaining_size(), 0);
}

#[test]
fn appending_after_all_skipped_makes_it_first() {
    let mut page = PageOf::from_message(b"a");
    page.skip_first(true);
    assert_eq!(page.peek_first(), None);
    page.try_append_message(b"b").unwrap();
    assert_eq!(page.peek_first(), Some(&b"b"[..]));
    assert_eq!(page.peek_index(1), Some((6, false, &b"b"[..])));
}

#[test]
fn payload_length_is_read_back_from_a_multi_byte_header() {
    let msg = vec![3u8; 300];
    let page = Page::<400>::from_message(&msg);
    let (pos, processed, payload) = page.peek_index(0).unwrap();
    assert_eq!(pos, 0);
    assert!(!processed);
    assert_eq!(payload.len(), 300);
    assert_eq!(page.remaining_size(), 300);
}
