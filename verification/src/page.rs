//! A page of the message queue: a bounded heap of items, each an item header
//! (the payload length and whether the item was processed) followed by the payload.

use crate::scale::{bool_byte, le_u32, le_u32_of, lemma_le_u32_roundtrip, u32_le_bytes};
use vstd::prelude::*;

verus! {

/// The encoded length of an item header: a `u32` payload length and a `bool`.
pub const HEADER_LEN: usize = 5;

/// The bytes of an item header.
pub open spec fn header_bytes(payload_len: u32, processed: bool) -> Seq<u8> {
    u32_le_bytes(payload_len).push(bool_byte(processed))
}

/// The bytes of one item: its header, then its payload.
pub open spec fn item_bytes(item: (bool, Seq<u8>)) -> Seq<u8> {
    header_bytes(item.1.len() as u32, item.0) + item.1
}

/// The heap that holds `items` one after the other.
pub open spec fn heap_of(items: Seq<(bool, Seq<u8>)>) -> Seq<u8>
    decreases items.len(),
{
    if items.len() == 0 {
        Seq::empty()
    } else {
        heap_of(items.drop_last()) + item_bytes(items.last())
    }
}

/// The heap offset at which item `i` starts.
pub open spec fn item_pos(items: Seq<(bool, Seq<u8>)>, i: int) -> int {
    heap_of(items.take(i)).len() as int
}

/// The number of items not yet processed.
pub open spec fn unprocessed_count(items: Seq<(bool, Seq<u8>)>) -> nat
    decreases items.len(),
{
    if items.len() == 0 {
        0
    } else {
        unprocessed_count(items.drop_last()) + if items.last().0 { 0nat } else { 1nat }
    }
}

/// The total payload length of the items not yet processed.
pub open spec fn unprocessed_size(items: Seq<(bool, Seq<u8>)>) -> nat
    decreases items.len(),
{
    if items.len() == 0 {
        0
    } else {
        unprocessed_size(items.drop_last()) + if items.last().0 {
            0nat
        } else {
            items.last().1.len()
        }
    }
}

/// Every payload length fits the `u32` of its header.
pub open spec fn payloads_fit(items: Seq<(bool, Seq<u8>)>) -> bool {
    forall|i: int| 0 <= i < items.len() ==> #[trigger] items[i].1.len() <= u32::MAX
}

proof fn lemma_heap_push(items: Seq<(bool, Seq<u8>)>, item: (bool, Seq<u8>))
    ensures
        heap_of(items.push(item)) == heap_of(items) + item_bytes(item),
        unprocessed_count(items.push(item)) == unprocessed_count(items) + if item.0 { 0nat } else { 1nat },
        unprocessed_size(items.push(item)) == unprocessed_size(items) + if item.0 { 0nat } else { item.1.len() },
{
    assert(items.push(item).drop_last() =~= items);
}

/// The heap of the first `i` items is the start of the heap of all of them.
proof fn lemma_heap_prefix(items: Seq<(bool, Seq<u8>)>, i: int)
    requires
        0 <= i <= items.len(),
    ensures
        heap_of(items.take(i)).len() <= heap_of(items).len(),
        heap_of(items).subrange(0, heap_of(items.take(i)).len() as int) == heap_of(items.take(i)),
    decreases items.len(),
{
    if i == items.len() {
        assert(items.take(i) =~= items);
    } else {
        let d = items.drop_last();
        assert(d.take(i) =~= items.take(i));
        lemma_heap_prefix(d, i);
        assert(heap_of(items) == heap_of(d) + item_bytes(items.last()));
        assert(heap_of(items).subrange(0, heap_of(items.take(i)).len() as int) =~= heap_of(
            d,
        ).subrange(0, heap_of(items.take(i)).len() as int));
    }
}

/// Item `i` sits in the heap at `item_pos(items, i)`, and the next one follows it.
proof fn lemma_item_at(items: Seq<(bool, Seq<u8>)>, i: int)
    requires
        0 <= i < items.len(),
    ensures
        item_pos(items, i + 1) == item_pos(items, i) + HEADER_LEN + items[i].1.len(),
        item_pos(items, i + 1) <= heap_of(items).len(),
        heap_of(items).subrange(item_pos(items, i), item_pos(items, i + 1)) == item_bytes(
            items[i],
        ),
{
    assert(items.take(i + 1) =~= items.take(i).push(items[i]));
    lemma_heap_push(items.take(i), items[i]);
    lemma_heap_prefix(items, i + 1);
    let h = heap_of(items);
    let p = item_pos(items, i);
    let q = item_pos(items, i + 1);
    assert(h.subrange(p, q) =~= h.subrange(0, q).subrange(p, q));
    assert(heap_of(items.take(i + 1)).subrange(p, q) =~= item_bytes(items[i]));
}

proof fn lemma_item_pos_ends(items: Seq<(bool, Seq<u8>)>)
    ensures
        item_pos(items, 0) == 0,
        item_pos(items, items.len() as int) == heap_of(items).len(),
{
    assert(items.take(0) =~= Seq::<(bool, Seq<u8>)>::empty());
    assert(items.take(items.len() as int) =~= items);
}

/// Changing the processed flag of item `k` changes one byte of the heap: the
/// flag byte of its header.
proof fn lemma_heap_update(items: Seq<(bool, Seq<u8>)>, k: int, b: bool)
    requires
        0 <= k < items.len(),
    ensures
        item_pos(items, k) + HEADER_LEN <= heap_of(items).len(),
        heap_of(items.update(k, (b, items[k].1))) == heap_of(items).update(
            item_pos(items, k) + 4,
            bool_byte(b),
        ),
        unprocessed_count(items.update(k, (b, items[k].1))) + (if items[k].0 { 0nat } else { 1nat })
            == unprocessed_count(items) + (if b { 0nat } else { 1nat }),
        unprocessed_size(items.update(k, (b, items[k].1))) + (if items[k].0 {
            0nat
        } else {
            items[k].1.len()
        }) == unprocessed_size(items) + (if b { 0nat } else { items[k].1.len() }),
    decreases items.len(),
{
    let items2 = items.update(k, (b, items[k].1));
    let d = items.drop_last();
    lemma_item_at(items, k);
    if k == items.len() - 1 {
        assert(items2.drop_last() =~= d);
        assert(items.take(k) =~= d);
        let old_item = item_bytes(items[k]);
        let new_item = item_bytes((b, items[k].1));
        assert(new_item =~= old_item.update(4, bool_byte(b)));
        assert(heap_of(items2) =~= heap_of(items).update(item_pos(items, k) + 4, bool_byte(b)));
    } else {
        assert(items2.drop_last() =~= d.update(k, (b, items[k].1)));
        assert(d[k] == items[k]);
        lemma_heap_update(d, k, b);
        assert(d.take(k) =~= items.take(k));
        assert(heap_of(items2) =~= heap_of(items).update(item_pos(items, k) + 4, bool_byte(b)));
    }
}

/// Changing a processed flag moves no item.
proof fn lemma_pos_update(items: Seq<(bool, Seq<u8>)>, k: int, b: bool, i: int)
    requires
        0 <= k < items.len(),
        0 <= i <= items.len(),
    ensures
        item_pos(items.update(k, (b, items[k].1)), i) == item_pos(items, i),
{
    let items2 = items.update(k, (b, items[k].1));
    if i <= k {
        assert(items2.take(i) =~= items.take(i));
    } else {
        let t = items.take(i);
        assert(items2.take(i) =~= t.update(k, (b, t[k].1)));
        lemma_heap_update(t, k, b);
    }
}

/// The header of item `i` can be read back from the heap at `item_pos(items, i)`,
/// and its payload follows it.
proof fn lemma_header_at(items: Seq<(bool, Seq<u8>)>, i: int)
    requires
        0 <= i < items.len(),
        payloads_fit(items),
    ensures
        item_pos(items, i) + HEADER_LEN + items[i].1.len() == item_pos(items, i + 1),
        item_pos(items, i + 1) <= heap_of(items).len(),
        le_u32(heap_of(items).subrange(item_pos(items, i), heap_of(items).len() as int))
            == items[i].1.len(),
        heap_of(items)[item_pos(items, i) + 4] == bool_byte(items[i].0),
        heap_of(items).subrange(item_pos(items, i) + HEADER_LEN, item_pos(items, i + 1))
            == items[i].1,
{
    lemma_item_at(items, i);
    let h = heap_of(items);
    let p = item_pos(items, i);
    let q = item_pos(items, i + 1);
    let len = items[i].1.len() as u32;
    assert(items[i].1.len() <= u32::MAX);
    let ib = item_bytes(items[i]);
    assert(forall|k: int| 0 <= k < q - p ==> h[p + k] == #[trigger] ib[k]) by {
        assert forall|k: int| 0 <= k < q - p implies h[p + k] == #[trigger] ib[k] by {
            assert(h.subrange(p, q)[k] == h[p + k]);
        }
    }
    assert(ib[0] == h[p + 0]);
    assert(ib[1] == h[p + 1]);
    assert(ib[2] == h[p + 2]);
    assert(ib[3] == h[p + 3]);
    assert(ib[4] == h[p + 4]);
    let tail = h.subrange(p, h.len() as int);
    assert(tail[0] == h[p]);
    assert(tail[1] == h[p + 1]);
    assert(tail[2] == h[p + 2]);
    assert(tail[3] == h[p + 3]);
    lemma_le_u32_roundtrip(len);
    assert(le_u32(tail) == le_u32(u32_le_bytes(len)));
    assert(h.subrange(p + HEADER_LEN, q) =~= items[i].1) by {
        assert forall|k: int| 0 <= k < q - p - HEADER_LEN implies h.subrange(p + HEADER_LEN, q)[k]
            == items[i].1[k] by {
            assert(ib[HEADER_LEN + k] == items[i].1[k]);
            assert(h[p + (HEADER_LEN + k)] == ib[HEADER_LEN + k]);
        }
    }
}

/// Reading back the bytes of a number gives the number, stated from the bytes' side.
proof fn lemma_le_u32_back(b0: u8, b1: u8, b2: u8, b3: u8)
    ensures
        u32_le_bytes(le_u32_of(b0, b1, b2, b3)) == seq![b0, b1, b2, b3],
{
    let x = le_u32_of(b0, b1, b2, b3);
    assert((x & 0xff) as u8 == b0 && ((x >> 8u32) & 0xff) as u8 == b1 && ((x >> 16u32) & 0xff) as u8
        == b2 && ((x >> 24u32) & 0xff) as u8 == b3) by (bit_vector)
        requires
            x == le_u32_of(b0, b1, b2, b3),
    ;
    assert(u32_le_bytes(x) =~= seq![b0, b1, b2, b3]);
}

/// Every item takes at least a header's worth of heap.
proof fn lemma_heap_len_bound(items: Seq<(bool, Seq<u8>)>)
    ensures
        heap_of(items).len() >= HEADER_LEN * items.len(),
    decreases items.len(),
{
    if items.len() > 0 {
        lemma_heap_len_bound(items.drop_last());
    }
}

/// The counters of a page never exceed what its heap holds.
proof fn lemma_counts_bound(items: Seq<(bool, Seq<u8>)>)
    ensures
        unprocessed_count(items) <= items.len(),
        unprocessed_size(items) <= heap_of(items).len(),
    decreases items.len(),
{
    if items.len() > 0 {
        lemma_counts_bound(items.drop_last());
    }
}

/// The bytes of one item whose payload is `message`.
fn encode_item(message: &[u8], processed: bool) -> (bytes: Vec<u8>)
    requires
        message@.len() <= u32::MAX,
    ensures
        bytes@ == item_bytes((processed, message@)),
{
    let payload_len = message.len() as u32;
    let mut bytes = crate::scale::encode_u32(payload_len);
    let mut flag = crate::scale::encode_bool(processed);
    bytes.append(&mut flag);
    let mut i: usize = 0;
    while i < message.len()
        invariant
            i <= message@.len(),
            payload_len == message@.len(),
            bytes@ == header_bytes(payload_len, processed) + message@.subrange(0, i as int),
        decreases message@.len() - i,
    {
        bytes.push(message[i]);
        i = i + 1;
        assert(message@.subrange(0, i as int) =~= message@.subrange(0, i - 1).push(message@[i - 1]));
    }
    assert(message@.subrange(0, message@.len() as int) =~= message@);
    bytes
}

/// Items start in heap order.
proof fn lemma_pos_monotonic(items: Seq<(bool, Seq<u8>)>, i: int, j: int)
    requires
        0 <= i <= j <= items.len(),
    ensures
        item_pos(items, i) <= item_pos(items, j),
        i < j ==> item_pos(items, i) + HEADER_LEN <= item_pos(items, j),
    decreases j - i,
{
    if i < j {
        lemma_item_at(items, j - 1);
        lemma_pos_monotonic(items, i, j - 1);
    }
}

/// Reads the item header at `pos`: a `u32` payload length, then the processed flag.
fn decode_header(heap: &Vec<u8>, pos: usize) -> (r: Option<(u32, bool)>)
    requires
        pos <= heap@.len(),
    ensures
        r is Some <==> (heap@.len() >= pos + HEADER_LEN && heap@[pos + 4] <= 1),
        r matches Some(h) ==> h.0 == le_u32(heap@.subrange(pos as int, heap@.len() as int)) && h.1
            == (heap@[pos + 4] == 1),
{
    let all = heap.as_slice();
    let rest = &all[pos..all.len()];
    match crate::scale::decode_u32(rest) {
        None => None,
        Some(payload_len) => {
            let flag_bytes = &all[pos + 4..all.len()];
            match crate::scale::decode_bool(flag_bytes) {
                None => None,
                Some(is_processed) => Some((payload_len, is_processed)),
            }
        },
    }
}

/// The first item starts at the beginning of the heap, and every item starts right
/// after the payload of the one before it.
pub proof fn lemma_item_positions(items: Seq<(bool, Seq<u8>)>, i: int)
    requires
        0 <= i < items.len(),
    ensures
        item_pos(items, 0) == 0,
        item_pos(items, i + 1) == item_pos(items, i) + HEADER_LEN + items[i].1.len(),
        item_pos(items, items.len() as int) == heap_of(items).len(),
{
    lemma_item_pos_ends(items);
    lemma_item_at(items, i);
}

/// No message remains to be processed exactly when every item is processed.
pub proof fn lemma_complete_iff_all_processed(items: Seq<(bool, Seq<u8>)>)
    ensures
        unprocessed_count(items) == 0 <==> forall|i: int| 0 <= i < items.len() ==> #[trigger] items[i].0,
    decreases items.len(),
{
    if items.len() > 0 {
        let d = items.drop_last();
        lemma_complete_iff_all_processed(d);
        if unprocessed_count(items) == 0 {
            assert forall|i: int| 0 <= i < items.len() implies #[trigger] items[i].0 by {
                if i < d.len() {
                    assert(d[i] == items[i]);
                }
            }
        }
        if forall|i: int| 0 <= i < items.len() ==> #[trigger] items[i].0 {
            assert(items[items.len() - 1].0);
            assert forall|i: int| 0 <= i < d.len() implies #[trigger] d[i].0 by {
                assert(items[i].0);
            }
        }
    }
}

/// An appended message lands at the old end of the heap, unprocessed, and adds
/// one message and its length to what remains.
pub proof fn lemma_append_lands_at_end(items: Seq<(bool, Seq<u8>)>, message: Seq<u8>)
    ensures
        item_pos(items.push((false, message)), items.len() as int) == heap_of(items).len(),
        heap_of(items.push((false, message))).len() == heap_of(items).len() + HEADER_LEN
            + message.len(),
        unprocessed_count(items.push((false, message))) == unprocessed_count(items) + 1,
        unprocessed_size(items.push((false, message))) == unprocessed_size(items) + message.len(),
{
    lemma_heap_push(items, (false, message));
    assert(items.push((false, message)).take(items.len() as int) =~= items);
}

/// Marking an unprocessed item processed takes one message and its length off
/// what remains; marking a processed one changes nothing.
pub proof fn lemma_mark_processed(items: Seq<(bool, Seq<u8>)>, k: int)
    requires
        0 <= k < items.len(),
    ensures
        !items[k].0 ==> unprocessed_count(items.update(k, (true, items[k].1))) + 1
            == unprocessed_count(items),
        !items[k].0 ==> unprocessed_size(items.update(k, (true, items[k].1))) + items[k].1.len()
            == unprocessed_size(items),
        items[k].0 ==> items.update(k, (true, items[k].1)) == items,
{
    lemma_heap_update(items, k, true);
    if items[k].0 {
        assert(items.update(k, (true, items[k].1)) =~= items);
    }
}

/// A message of the largest length fills a page's heap exactly.
pub proof fn lemma_max_message_fills_heap(heap_size: u32, message: Seq<u8>)
    requires
        heap_size >= HEADER_LEN,
        message.len() == max_message_len_of(heap_size),
    ensures
        heap_of(seq![(false, message)]).len() == heap_size,
{
    lemma_heap_push(Seq::empty(), (false, message));
    assert(Seq::<(bool, Seq<u8>)>::empty().push((false, message)) =~= seq![(false, message)]);
}

/// What a page holds: its items in heap order, and how many of them lie before
/// the first item that is ready for processing.
pub struct PageView {
    pub items: Seq<(bool, Seq<u8>)>,
    pub first_index: nat,
}

/// The longest message that fits a page of `heap_size` bytes: the heap less one
/// item header.
pub open spec fn max_message_len_of(heap_size: u32) -> nat {
    if heap_size >= HEADER_LEN { (heap_size - HEADER_LEN) as nat } else { 0 }
}

/// A page of messages, with a heap of at most `HEAP_SIZE` bytes.
pub struct Page<const HEAP_SIZE: u32> {
    /// Messages remaining to be processed, the skipped overweight ones included.
    remaining: u32,
    /// The total size of the messages remaining to be processed.
    remaining_size: u32,
    /// The number of items before the `first` item.
    first_index: u32,
    /// The heap offset of the header of the first item ready for processing.
    first: u32,
    /// The heap offset of the header of the last item.
    last: u32,
    /// The items, each a header followed by its payload.
    heap: Vec<u8>,
    items: Ghost<Seq<(bool, Seq<u8>)>>,
}

impl<const HEAP_SIZE: u32> View for Page<HEAP_SIZE> {
    type V = PageView;

    closed spec fn view(&self) -> PageView {
        PageView { items: self.items@, first_index: self.first_index as nat }
    }
}

impl<const HEAP_SIZE: u32> Page<HEAP_SIZE> {
    /// The page's fields agree with its items: the heap encodes them, the counters
    /// count the unprocessed ones, and `first` and `last` point at item headers.
    pub closed spec fn wf(&self) -> bool {
        let items = self.items@;
        &&& self.heap@ == heap_of(items)
        &&& payloads_fit(items)
        &&& self.heap@.len() <= HEAP_SIZE
        &&& self.first_index <= items.len()
        &&& self.first == item_pos(items, self.first_index as int)
        &&& self.last == if items.len() == 0 { 0 } else { item_pos(items, items.len() - 1) }
        &&& self.remaining == unprocessed_count(items)
        &&& self.remaining_size == unprocessed_size(items)
    }

    /// The longest message that fits this kind of page.
    pub fn max_message_len() -> (n: u32)
        ensures
            n == max_message_len_of(HEAP_SIZE),
    {
        HEAP_SIZE.saturating_sub(HEADER_LEN as u32)
    }

    /// A page holding the single, unprocessed message `message`.
    pub fn from_message(message: &[u8]) -> (page: Self)
        requires
            message@.len() + HEADER_LEN <= HEAP_SIZE,
        ensures
            page.wf(),
            page@.items == seq![(false, message@)],
            page@.first_index == 0,
            unprocessed_count(page@.items) == 1,
            unprocessed_size(page@.items) == message@.len(),
            heap_of(page@.items).len() == HEADER_LEN + message@.len(),
    {
        let payload_len = message.len() as u32;
        let heap = encode_item(message, false);
        let ghost items = seq![(false, message@)];
        proof {
            lemma_heap_push(Seq::empty(), (false, message@));
            assert(Seq::<(bool, Seq<u8>)>::empty().push((false, message@)) =~= items);
            assert(heap_of(Seq::<(bool, Seq<u8>)>::empty()) =~= Seq::<u8>::empty());
            assert(heap@ =~= heap_of(items));
            lemma_item_pos_ends(items);
            assert(unprocessed_count(Seq::<(bool, Seq<u8>)>::empty()) == 0);
            assert(unprocessed_size(Seq::<(bool, Seq<u8>)>::empty()) == 0);
        }
        Page {
            remaining: 1,
            remaining_size: payload_len,
            first_index: 0,
            first: 0,
            last: 0,
            heap,
            items: Ghost(items),
        }
    }

    /// The item at `index` as `(heap offset, processed, payload)`, or `None` when
    /// the page holds no such item.
    pub fn peek_index(&self, index: usize) -> (r: Option<(usize, bool, &[u8])>)
        requires
            self.wf(),
        ensures
            index < self@.items.len() ==> (r matches Some(t) && t.0 == item_pos(
                self@.items,
                index as int,
            ) && t.1 == self@.items[index as int].0 && t.2@ == self@.items[index as int].1),
            index >= self@.items.len() ==> r is None,
    {
        let ghost items = self.items@;
        let mut pos: usize = 0;
        let mut j: usize = 0;
        proof {
            lemma_item_pos_ends(items);
        }
        while j < index
            invariant
                self.wf(),
                items == self.items@,
                j <= index,
                j <= items.len(),
                pos == item_pos(items, j as int),
                pos <= self.heap@.len(),
            decreases index - j,
        {
            proof {
                if j < items.len() {
                    lemma_header_at(items, j as int);
                } else {
                    lemma_item_pos_ends(items);
                }
            }
            match decode_header(&self.heap, pos) {
                None => {
                    return None;
                },
                Some(header) => {
                    let item_len = header.0 as usize;
                    if self.heap.len() - pos - HEADER_LEN < item_len {
                        return None;
                    }
                    pos = pos + HEADER_LEN + item_len;
                    j = j + 1;
                },
            }
        }
        proof {
            if j < items.len() {
                lemma_header_at(items, j as int);
            } else {
                lemma_item_pos_ends(items);
            }
        }
        match decode_header(&self.heap, pos) {
            None => None,
            Some(header) => {
                let item_len = header.0 as usize;
                if self.heap.len() - pos - HEADER_LEN < item_len {
                    return None;
                }
                let all = self.heap.as_slice();
                let payload = &all[pos + HEADER_LEN..pos + HEADER_LEN + item_len];
                Some((pos, header.1, payload))
            },
        }
    }

    /// The payload of the first item ready for processing, if any.
    pub fn peek_first(&self) -> (r: Option<&[u8]>)
        requires
            self.wf(),
        ensures
            self@.first_index < self@.items.len() ==> (r matches Some(m) && m@
                == self@.items[self@.first_index as int].1),
            self@.first_index >= self@.items.len() ==> r is None,
    {
        let ghost items = self.items@;
        proof {
            lemma_item_pos_ends(items);
            if self.first_index < items.len() {
                lemma_header_at(items, self.first_index as int);
                if items.len() > 0 && (self.first_index as int) < items.len() - 1 {
                    lemma_pos_monotonic(items, self.first_index as int, items.len() - 1);
                }
            } else if items.len() > 0 {
                lemma_header_at(items, items.len() - 1);
            }
        }
        if self.first > self.last {
            return None;
        }
        let f = if (self.first as usize) < self.heap.len() {
            self.first as usize
        } else {
            self.heap.len()
        };
        match decode_header(&self.heap, f) {
            None => None,
            Some(header) => {
                let payload_len = header.0 as usize;
                if payload_len <= self.heap.len() - f - HEADER_LEN {
                    let all = self.heap.as_slice();
                    Some(&all[f + HEADER_LEN..f + HEADER_LEN + payload_len])
                } else {
                    None
                }
            },
        }
    }

    /// Moves `first` past the first ready item, marking that item processed when
    /// `is_processed` holds; an item skipped unprocessed (an overweight one) stays
    /// counted in `remaining`. Does nothing when no item is ready.
    pub fn skip_first(&mut self, is_processed: bool)
        requires
            old(self).wf(),
        ensures
            final(self).wf(),
            old(self)@.first_index < old(self)@.items.len() ==> {
                let fi = old(self)@.first_index as int;
                let item = old(self)@.items[fi];
                &&& final(self)@.first_index == fi + 1
                &&& final(self)@.items == old(self)@.items.update(fi, (item.0 || is_processed, item.1))
                &&& heap_of(final(self)@.items).len() == heap_of(old(self)@.items).len()
                &&& unprocessed_count(final(self)@.items) == unprocessed_count(old(self)@.items)
                    - if is_processed && !item.0 { 1int } else { 0int }
                &&& unprocessed_size(final(self)@.items) == unprocessed_size(old(self)@.items)
                    - if is_processed && !item.0 { item.1.len() as int } else { 0int }
            },
            old(self)@.first_index >= old(self)@.items.len() ==> final(self)@ == old(self)@,
    {
        let ghost items = self.items@;
        proof {
            lemma_item_pos_ends(items);
            lemma_heap_len_bound(items);
            if self.first_index < items.len() {
                lemma_header_at(items, self.first_index as int);
            }
        }
        let f = if (self.first as usize) < self.heap.len() {
            self.first as usize
        } else {
            self.heap.len()
        };
        match decode_header(&self.heap, f) {
            None => {},
            Some(header) => {
                let payload_len = header.0;
                let was_processed = header.1;
                let ghost fi = self.first_index as int;
                assert(fi < items.len());
                assert(payload_len == items[fi].1.len());
                assert(was_processed == items[fi].0);
                if is_processed && !was_processed {
                    let mut bytes = crate::scale::encode_u32(payload_len);
                    let mut flag = crate::scale::encode_bool(true);
                    bytes.append(&mut flag);
                    let ghost old_heap = self.heap@;
                    let ghost before = *self;
                    let mut k: usize = 0;
                    while k < HEADER_LEN
                        invariant
                            k <= HEADER_LEN,
                            f + HEADER_LEN <= old_heap.len(),
                            self.heap.len() == old_heap.len(),
                            self.remaining == before.remaining,
                            self.remaining_size == before.remaining_size,
                            self.first_index == before.first_index,
                            self.first == before.first,
                            self.last == before.last,
                            self.items == before.items,
                            bytes@ == header_bytes(payload_len, true),
                            payload_len == le_u32(old_heap.subrange(f as int, old_heap.len() as int)),
                            self.heap@.len() == old_heap.len(),
                            forall|m: int|
                                0 <= m < old_heap.len() ==> #[trigger] self.heap@[m] == if f <= m < f + k {
                                    bytes@[m - f]
                                } else {
                                    old_heap[m]
                                },
                        decreases HEADER_LEN - k,
                    {
                        self.heap.set(f + k, bytes[k]);
                        k = k + 1;
                    }
                    proof {
                        let tail = old_heap.subrange(f as int, old_heap.len() as int);
                        lemma_le_u32_back(tail[0], tail[1], tail[2], tail[3]);
                        assert(self.heap@ =~= old_heap.update(f + 4, bool_byte(true)));
                        lemma_heap_update(items, fi, true);
                        lemma_pos_update(items, fi, true, fi + 1);
                        lemma_pos_update(items, fi, true, items.len() - 1);
                        assert forall|i: int| 0 <= i < items.len() implies #[trigger] items.update(
                            fi,
                            (true, items[fi].1),
                        )[i].1.len() <= u32::MAX by {
                            assert(items[i].1.len() <= u32::MAX);
                        }
                    }
                    self.remaining = self.remaining - 1;
                    self.remaining_size = self.remaining_size - payload_len;
                    self.items = Ghost(items.update(fi, (true, items[fi].1)));
                } else {
                    proof {
                        assert(items.update(fi, (items[fi].0 || is_processed, items[fi].1)) =~= items);
                    }
                }
                self.first = self.first + HEADER_LEN as u32;
                self.first = self.first + payload_len;
                self.first_index = self.first_index + 1;
            },
        }
    }

    /// Appends `message` as a new unprocessed item, or fails, changing nothing,
    /// when the heap has no room left for it.
    pub fn try_append_message(&mut self, message: &[u8]) -> (r: Result<(), ()>)
        requires
            old(self).wf(),
            message@.len() <= max_message_len_of(HEAP_SIZE),
        ensures
            final(self).wf(),
            heap_of(old(self)@.items).len() + HEADER_LEN + message@.len() <= HEAP_SIZE ==> {
                &&& r is Ok
                &&& final(self)@.items == old(self)@.items.push((false, message@))
                &&& final(self)@.first_index == old(self)@.first_index
                &&& heap_of(final(self)@.items).len() == heap_of(old(self)@.items).len()
                    + HEADER_LEN + message@.len()
                &&& unprocessed_count(final(self)@.items) == unprocessed_count(old(self)@.items) + 1
                &&& unprocessed_size(final(self)@.items) == unprocessed_size(old(self)@.items)
                    + message@.len()
            },
            heap_of(old(self)@.items).len() + HEADER_LEN + message@.len() > HEAP_SIZE ==> {
                &&& r is Err
                &&& final(self)@ == old(self)@
            },
    {
        let ghost items = self.items@;
        let pos = self.heap.len();
        let payload_len = message.len();
        let data_len = HEADER_LEN + payload_len;
        if (HEAP_SIZE as usize) - self.heap.len() < data_len {
            return Err(());
        }
        let mut item = encode_item(message, false);
        self.heap.append(&mut item);
        let ghost new_items = items.push((false, message@));
        proof {
            lemma_heap_push(items, (false, message@));
            lemma_item_pos_ends(items);
            lemma_counts_bound(items);
            lemma_heap_len_bound(items);
            assert(new_items.take(items.len() as int) =~= items);
            assert(new_items.take(self.first_index as int) =~= items.take(self.first_index as int));
            if items.len() > 0 {
                assert(new_items.take(items.len() - 1) =~= items.take(items.len() - 1));
            }
            assert forall|i: int| 0 <= i < new_items.len() implies #[trigger] new_items[i].1.len()
                <= u32::MAX by {
                if i < items.len() {
                    assert(items[i].1.len() <= u32::MAX);
                }
            }
        }
        self.items = Ghost(new_items);
        self.last = pos as u32;
        self.remaining = self.remaining + 1;
        self.remaining_size = self.remaining_size + payload_len as u32;
        Ok(())
    }

    /// Whether no message remains to be processed.
    pub fn is_complete(&self) -> (b: bool)
        requires
            self.wf(),
        ensures
            b == (unprocessed_count(self@.items) == 0),
    {
        self.remaining == 0
    }

    /// The number of messages remaining to be processed.
    pub fn remaining(&self) -> (n: u32)
        requires
            self.wf(),
        ensures
            n == unprocessed_count(self@.items),
    {
        self.remaining
    }

    /// The total payload size of the messages remaining to be processed.
    pub fn remaining_size(&self) -> (n: u32)
        requires
            self.wf(),
        ensures
            n == unprocessed_size(self@.items),
    {
        self.remaining_size
    }

    /// The number of items before the first one ready for processing.
    pub fn first_index(&self) -> (n: u32)
        requires
            self.wf(),
        ensures
            n == self@.first_index,
    {
        self.first_index
    }

    /// The number of heap bytes in use.
    pub fn heap_len(&self) -> (n: usize)
        requires
            self.wf(),
        ensures
            n == heap_of(self@.items).len(),
    {
        self.heap.len()
    }
}

impl<const HEAP_SIZE: u32> Default for Page<HEAP_SIZE> {
    /// The empty page: no items, an empty heap and every counter at zero.
    fn default() -> (page: Self)
        ensures
            page.wf(),
            page@.items == Seq::<(bool, Seq<u8>)>::empty(),
            page@.first_index == 0,
    {
        let ghost items = Seq::<(bool, Seq<u8>)>::empty();
        proof {
            lemma_item_pos_ends(items);
        }
        Page {
            remaining: 0,
            remaining_size: 0,
            first_index: 0,
            first: 0,
            last: 0,
            heap: Vec::new(),
            items: Ghost(items),
        }
    }
}

} // verus!
