//! Lists that a guest reads one item at a time.
//!
//! A guest asks for the item at a cursor. It gets the item, with a zero byte behind it,
//! and the cursor of the item that follows, or -1 where none does. The items come in
//! ascending order. A cursor at which there is no item gets an empty answer and -1.
use crate::memory::{
    apart, fits, law_words_after_write, stored, stored_pair, word_at, write_i32, write_u32,
};
use crate::order::{ascending, lemma_ascending, sort, texts};
use vstd::prelude::*;

verus! {

/// The cursor of the item that follows the one at `cursor`, in a list of `len` items.
pub open spec fn next_cursor(len: nat, cursor: i32) -> i32 {
    if cursor < len - 1 {
        (cursor + 1) as i32
    } else {
        (-1) as i32
    }
}

/// `memory` with the item at `cursor` stored at `addr`, its length at `nwritten_out` and
/// the cursor that follows at `ending_cursor_out`.
///
/// `None` where one of the three does not fit in the memory, or the cursor that follows
/// does not fit in an `i32`.
pub open spec fn page(
    items: Seq<Seq<u8>>,
    memory: Seq<u8>,
    addr: i32,
    cursor: i32,
    ending_cursor_out: i32,
    nwritten_out: i32,
) -> Option<Seq<u8>> {
    if cursor < 0 || cursor >= items.len() {
        stored_pair(memory, nwritten_out, 0, ending_cursor_out, (-1) as i32 as u32)
    } else if cursor == i32::MAX && cursor < items.len() - 1 {
        None
    } else {
        let item = ascending(items)[cursor as int].push(0);
        match stored(memory, addr, item) {
            Some(after) => stored_pair(
                after,
                nwritten_out,
                item.len() as u32,
                ending_cursor_out,
                next_cursor(items.len(), cursor) as u32,
            ),
            None => None,
        }
    }
}

/// Tells whether [`write_page`] can answer.
pub fn page_fits(
    items: Vec<Vec<u8>>,
    memory: &[u8],
    addr: i32,
    cursor: i32,
    ending_cursor_out: i32,
    nwritten_out: i32,
) -> (r: bool)
    ensures
        r == page(
            texts(items@),
            memory@,
            addr,
            cursor,
            ending_cursor_out,
            nwritten_out,
        ) is Some,
{
    let ghost all = texts(items@);
    proof {
        lemma_ascending(all);
    }
    let out_fits: bool = fits(memory, nwritten_out, 4) && fits(memory, ending_cursor_out, 4);
    if cursor < 0 || cursor as usize >= items.len() {
        return out_fits;
    }
    let at: usize = cursor as usize;
    if cursor == i32::MAX && at < items.len() - 1 {
        return false;
    }
    let sorted: Vec<Vec<u8>> = sort(items);
    assert(texts(sorted@)[cursor as int] == sorted@[cursor as int]@);
    let item_len: usize = sorted[at].len();
    item_len < memory.len() && fits(memory, addr, item_len + 1) && out_fits
}

/// Answers a guest that asks for the item at `cursor`.
pub fn write_page(
    items: Vec<Vec<u8>>,
    memory: &mut [u8],
    addr: i32,
    cursor: i32,
    ending_cursor_out: i32,
    nwritten_out: i32,
)
    requires
        page(
            texts(items@),
            old(memory)@,
            addr,
            cursor,
            ending_cursor_out,
            nwritten_out,
        ) is Some,
    ensures
        page(texts(items@), old(memory)@, addr, cursor, ending_cursor_out, nwritten_out) == Some(
            final(memory)@,
        ),
{
    let len: usize = items.len();
    let ghost all = texts(items@);
    proof {
        lemma_ascending(all);
    }
    if cursor < 0 || cursor as usize >= len {
        write_i32(memory, nwritten_out, 0);
        write_i32(memory, ending_cursor_out, -1);
        return;
    }
    let at: usize = cursor as usize;
    let mut sorted: Vec<Vec<u8>> = sort(items);
    assert(texts(sorted@)[cursor as int] == sorted@[cursor as int]@);
    let mut item: Vec<u8> = sorted.swap_remove(at);
    item.push(0);
    assert(item@ == ascending(all)[cursor as int].push(0));
    let _ = crate::memory::write(memory, addr, item.as_slice());
    let next: i32 = if at < len - 1 {
        cursor + 1
    } else {
        -1
    };
    write_u32(memory, nwritten_out, item.len() as u32);
    write_i32(memory, ending_cursor_out, next);
}

/// The size of the largest linear memory, in bytes.
pub const MEMORY_LIMIT: u64 = 4294967296;

/// The items that a guest gets that starts at `cursor` and follows the cursors it is told.
pub open spec fn walked(items: Seq<Seq<u8>>, cursor: i32) -> Seq<Seq<u8>>
    decreases
        (if cursor < 0 {
            0
        } else {
            items.len() - cursor
        }),
{
    if cursor < 0 || cursor >= items.len() || (cursor == i32::MAX && cursor < items.len() - 1) {
        Seq::empty()
    } else {
        seq![ascending(items)[cursor as int]] + walked(items, next_cursor(items.len(), cursor))
    }
}

proof fn lemma_walked(items: Seq<Seq<u8>>, cursor: i32)
    requires
        0 <= cursor <= items.len() <= i32::MAX + 1,
    ensures
        walked(items, cursor) == ascending(items).skip(cursor as int),
    decreases items.len() - cursor,
{
    lemma_ascending(items);
    if cursor < items.len() {
        if cursor < items.len() - 1 {
            lemma_walked(items, (cursor + 1) as i32);
        }
        assert(walked(items, next_cursor(items.len(), cursor)) =~= ascending(items).skip(
            cursor + 1,
        ));
        assert(walked(items, cursor) =~= ascending(items).skip(cursor as int));
    } else {
        assert(walked(items, cursor) =~= ascending(items).skip(cursor as int));
    }
}

/// A guest that starts at cursor 0 and follows the cursors it is told gets every item, as
/// often as it occurs, in ascending order, and is then told to stop.
pub proof fn law_walk_is_complete(items: Seq<Seq<u8>>)
    requires
        items.len() <= i32::MAX + 1,
    ensures
        walked(items, 0) == ascending(items),
        walked(items, 0).to_multiset() == items.to_multiset(),
{
    lemma_ascending(items);
    lemma_walked(items, 0);
    assert(ascending(items).skip(0) =~= ascending(items));
}

/// Where the three results of an answer lie apart, the guest reads all three: the item with
/// a zero byte behind it, its length with that byte, and the cursor that follows.
pub proof fn law_page_is_read(
    items: Seq<Seq<u8>>,
    memory: Seq<u8>,
    addr: i32,
    cursor: i32,
    ending_cursor_out: i32,
    nwritten_out: i32,
)
    requires
        0 <= cursor < items.len(),
        page(items, memory, addr, cursor, ending_cursor_out, nwritten_out) is Some,
        memory.len() <= MEMORY_LIMIT,
        apart(nwritten_out, 4, ending_cursor_out, 4),
        apart(addr, ascending(items)[cursor as int].len() + 1, nwritten_out, 4),
        apart(addr, ascending(items)[cursor as int].len() + 1, ending_cursor_out, 4),
    ensures
        ({
            let after = page(items, memory, addr, cursor, ending_cursor_out, nwritten_out)->0;
            let item = ascending(items)[cursor as int];
            &&& after.len() == memory.len()
            &&& word_at(after, nwritten_out) == Some(item.len() as int + 1)
            &&& after.subrange(addr as int, addr + item.len() + 1) == item.push(0)
            &&& word_at(after, ending_cursor_out) == Some(
                next_cursor(items.len(), cursor) as u32 as int,
            )
        }),
{
    let item = ascending(items)[cursor as int].push(0);
    let length = item.len() as u32;
    let next = next_cursor(items.len(), cursor) as u32;
    let with_item = stored(memory, addr, item)->0;
    let after = stored_pair(with_item, nwritten_out, length, ending_cursor_out, next)->0;
    assert(with_item.subrange(addr as int, addr + item.len()) =~= item);
    assert(after.subrange(addr as int, addr + item.len()) =~= item);
    law_words_after_write(with_item, nwritten_out, length, ending_cursor_out, next);
}

/// A cursor at which there is no item gets no bytes and is told to stop.
pub proof fn law_page_past_the_end(
    items: Seq<Seq<u8>>,
    memory: Seq<u8>,
    addr: i32,
    cursor: i32,
    ending_cursor_out: i32,
    nwritten_out: i32,
)
    requires
        !(0 <= cursor < items.len()),
        page(items, memory, addr, cursor, ending_cursor_out, nwritten_out) is Some,
        apart(nwritten_out, 4, ending_cursor_out, 4),
    ensures
        ({
            let after = page(items, memory, addr, cursor, ending_cursor_out, nwritten_out)->0;
            &&& word_at(after, nwritten_out) == Some(0int)
            &&& word_at(after, ending_cursor_out) == Some(0xffff_ffffint)
        }),
{
    assert((-1) as i32 as u32 == 0xffff_ffffu32) by (bit_vector);
    law_words_after_write(memory, nwritten_out, 0, ending_cursor_out, (-1) as i32 as u32);
}

/// A guest's question for the item at a cursor: its memory, and where the answer goes.
pub struct Ask {
    pub memory: Seq<u8>,
    pub addr: i32,
    pub cursor: i32,
    pub ending_cursor_out: i32,
    pub nwritten_out: i32,
}

impl Ask {
    /// The memory that the guest finds once it has its answer.
    pub open spec fn answered(self, items: Seq<Seq<u8>>) -> Option<Seq<u8>> {
        page(
            items,
            self.memory,
            self.addr,
            self.cursor,
            self.ending_cursor_out,
            self.nwritten_out,
        )
    }

    /// The number of bytes that the guest is told in the memory `after`.
    pub open spec fn told_len(self, after: Seq<u8>) -> int {
        word_at(after, self.nwritten_out)->0
    }

    /// The bytes that the guest is told in the memory `after`.
    pub open spec fn told(self, after: Seq<u8>) -> Seq<u8> {
        after.subrange(self.addr as int, self.addr + self.told_len(after))
    }

    /// The cursor that the guest is told in the memory `after`.
    pub open spec fn told_cursor(self, after: Seq<u8>) -> i32 {
        word_at(after, self.ending_cursor_out)->0 as u32 as i32
    }

    /// Whether the three results of the answer lie apart.
    pub open spec fn apart(self, items: Seq<Seq<u8>>) -> bool {
        &&& apart(self.nwritten_out, 4, self.ending_cursor_out, 4)
        &&& 0 <= self.cursor < items.len() ==> {
            let len = ascending(items)[self.cursor as int].len() + 1;
            &&& apart(self.addr, len, self.nwritten_out, 4)
            &&& apart(self.addr, len, self.ending_cursor_out, 4)
        }
    }
}

/// Whether a guest that puts the questions `asks`, and finds the memories `afters`, starts at
/// cursor 0, goes on at each cursor that it is told, and stops when it is told -1.
pub open spec fn walk(asks: Seq<Ask>, afters: Seq<Seq<u8>>) -> bool {
    &&& asks.len() > 0
    &&& asks.len() == afters.len()
    &&& asks[0].cursor == 0
    &&& forall|i: int|
        0 <= i < asks.len() - 1 ==> asks[i + 1].cursor == asks[i].told_cursor(#[trigger] afters[i])
            && asks[i + 1].cursor != -1
    &&& asks.last().told_cursor(afters.last()) == -1
}

/// The items that a guest hears on a walk, each without the zero byte behind it. A question
/// that is answered with no bytes at all adds none.
pub open spec fn heard(asks: Seq<Ask>, afters: Seq<Seq<u8>>) -> Seq<Seq<u8>>
    decreases asks.len(),
{
    if asks.len() == 0 {
        Seq::empty()
    } else {
        let before = heard(asks.drop_last(), afters.drop_last());
        if asks.last().told_len(afters.last()) == 0 {
            before
        } else {
            before.push(asks.last().told(afters.last()).drop_last())
        }
    }
}

proof fn lemma_cursor_is_told(cursor: i32)
    ensures
        cursor as u32 as int as u32 as i32 == cursor,
{
    assert(cursor as u32 as i32 == cursor) by (bit_vector);
}

/// What one question on a walk is told, where the answer has its results apart.
proof fn lemma_told(items: Seq<Seq<u8>>, ask: Ask, after: Seq<u8>)
    requires
        ask.answered(items) == Some(after),
        ask.apart(items),
        ask.memory.len() <= MEMORY_LIMIT,
    ensures
        0 <= ask.cursor < items.len() ==> {
            &&& ask.told(after) == ascending(items)[ask.cursor as int].push(0)
            &&& ask.told_len(after) == ascending(items)[ask.cursor as int].len() + 1
            &&& ask.told_cursor(after) == next_cursor(items.len(), ask.cursor)
            &&& !(ask.cursor == i32::MAX && ask.cursor < items.len() - 1)
        },
        !(0 <= ask.cursor < items.len()) ==> {
            &&& ask.told_len(after) == 0
            &&& ask.told_cursor(after) == -1
        },
{
    if 0 <= ask.cursor < items.len() {
        law_page_is_read(
            items,
            ask.memory,
            ask.addr,
            ask.cursor,
            ask.ending_cursor_out,
            ask.nwritten_out,
        );
        lemma_cursor_is_told(next_cursor(items.len(), ask.cursor));
    } else {
        law_page_past_the_end(
            items,
            ask.memory,
            ask.addr,
            ask.cursor,
            ask.ending_cursor_out,
            ask.nwritten_out,
        );
        assert(0xffff_ffffu32 as i32 == -1) by (bit_vector);
    }
}

/// Where the first `n` questions of a walk are put at the cursors from 0 on, so is the next
/// one, and it hears the next item.
#[verifier::spinoff_prover]
proof fn lemma_walk_step(items: Seq<Seq<u8>>, asks: Seq<Ask>, afters: Seq<Seq<u8>>, n: int)
    requires
        walk(asks, afters),
        forall|i: int|
            0 <= i < asks.len() ==> {
                &&& (#[trigger] asks[i]).answered(items) == Some(afters[i])
                &&& asks[i].apart(items)
                &&& asks[i].memory.len() <= MEMORY_LIMIT
            },
        0 <= n < asks.len(),
        n <= items.len(),
        0 < items.len(),
        0 < n ==> asks[n - 1].cursor == n - 1,
    ensures
        n < items.len(),
        asks[n].cursor == n,
        asks[n].told(afters[n]) == ascending(items)[n].push(0),
        asks[n].told_len(afters[n]) == ascending(items)[n].len() + 1,
{
    if n > 0 {
        lemma_told(items, asks[n - 1], afters[n - 1]);
        assert(asks[n - 1 + 1].cursor == asks[n - 1].told_cursor(afters[n - 1]));
    }
    lemma_told(items, asks[n], afters[n]);
}

/// The first `n` questions of a walk are put at the cursors from 0 on and hear the first `n`
/// items.
#[verifier::spinoff_prover]
proof fn lemma_walk_prefix(items: Seq<Seq<u8>>, asks: Seq<Ask>, afters: Seq<Seq<u8>>, n: int)
    requires
        walk(asks, afters),
        forall|i: int|
            0 <= i < asks.len() ==> {
                &&& (#[trigger] asks[i]).answered(items) == Some(afters[i])
                &&& asks[i].apart(items)
                &&& asks[i].memory.len() <= MEMORY_LIMIT
            },
        0 <= n <= asks.len(),
        0 < items.len(),
    ensures
        n <= items.len(),
        0 < n ==> asks[n - 1].cursor == n - 1,
        heard(asks.take(n), afters.take(n)) == ascending(items).take(n),
    decreases n,
{
    lemma_ascending(items);
    if n > 0 {
        lemma_walk_prefix(items, asks, afters, n - 1);
        lemma_walk_step(items, asks, afters, n - 1);
        assert(asks.take(n).drop_last() =~= asks.take(n - 1));
        assert(afters.take(n).drop_last() =~= afters.take(n - 1));
        let item = ascending(items)[n - 1];
        assert(item.push(0).drop_last() =~= item);
        assert(ascending(items).take(n) =~= ascending(items).take(n - 1).push(item));
    } else {
        assert(heard(asks.take(n), afters.take(n)) =~= ascending(items).take(n));
    }
}

/// A guest that follows the cursors it is told until it is told -1, and gets each answer with
/// its results apart, hears every item in ascending order, as often as it occurs. Each item
/// takes it one question, and so does a list without items, which tells it no bytes.
#[verifier::spinoff_prover]
pub proof fn law_walk_hears_every_item(
    items: Seq<Seq<u8>>,
    asks: Seq<Ask>,
    afters: Seq<Seq<u8>>,
)
    requires
        walk(asks, afters),
        forall|i: int|
            0 <= i < asks.len() ==> {
                &&& (#[trigger] asks[i]).answered(items) == Some(afters[i])
                &&& asks[i].apart(items)
                &&& asks[i].memory.len() <= MEMORY_LIMIT
            },
    ensures
        heard(asks, afters) == ascending(items),
        heard(asks, afters).to_multiset() == items.to_multiset(),
        items.len() > 0 ==> asks.len() == items.len(),
        items.len() == 0 ==> asks.len() == 1 && asks[0].told_len(afters[0]) == 0,
        forall|i: int|
            #![trigger asks[i]]
            0 <= i < items.len() ==> {
                &&& asks[i].told(afters[i]) == ascending(items)[i].push(0)
                &&& asks[i].told_len(afters[i]) == ascending(items)[i].len() + 1
            },
{
    lemma_ascending(items);
    let n = asks.len() as int;
    lemma_told(items, asks[0], afters[0]);
    if items.len() == 0 {
        assert(n > 1 ==> asks[1].cursor != -1);
        assert(heard(asks.drop_last(), afters.drop_last()) =~= Seq::empty());
        assert(heard(asks, afters) =~= ascending(items));
    } else {
        lemma_walk_prefix(items, asks, afters, n);
        lemma_told(items, asks[n - 1], afters[n - 1]);
        assert(n == items.len());
        assert(asks.take(n) =~= asks);
        assert(afters.take(n) =~= afters);
        assert(ascending(items).take(n) =~= ascending(items));
        assert forall|i: int| #![trigger asks[i]] 0 <= i < items.len() implies {
            &&& asks[i].told(afters[i]) == ascending(items)[i].push(0)
            &&& asks[i].told_len(afters[i]) == ascending(items)[i].len() + 1
        } by {
            lemma_walk_prefix(items, asks, afters, i);
            lemma_walk_step(items, asks, afters, i);
        }
    }
}

} // verus!
