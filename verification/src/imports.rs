//! What a guest gets from each function that it imports.
//!
//! Each law here starts from the names under which a guest imports a function and from the
//! arguments that it passes, and ends at the bytes that it finds in its memory, the answer
//! that it gets and the state that it leaves. Together they cover every import and every
//! argument. A call that is `None` has no answer at all.
use crate::http::{
    folded, folded_byte, uri_text, valid_field_name, valid_field_value, valid_method, values_of,
};
use crate::linker::{imports, law_imports_are_distinct, Entry};
use crate::memory::{bytes_at, le_bytes, stored, stored_pair};
use crate::message::{PayloadView, RequestView, ResponseView, TargetView};
use crate::model::{State, Step};
use crate::order::{
    ascending, at_most, law_order_is_lexicographic, lemma_ascending, lemma_ascending_is_unique,
    lemma_ascending_of_set, precedes,
};
use crate::paging::{next_cursor, page};
use vstd::prelude::*;
use vstd::utf8::{encode_utf8, valid_utf8};

verus! {

/// Whether a guest can import a function under these names.
#[verifier::opaque]
pub open spec fn offered(module: Seq<char>, name: Seq<char>) -> bool {
    exists|i: int|
        0 <= i < imports().len() && (#[trigger] imports()[i]).0 == module && imports()[i].1 == name
}

/// The place in the table of the function that a guest imports under these names.
pub open spec fn place_of(module: Seq<char>, name: Seq<char>) -> int {
    choose|i: int|
        0 <= i < imports().len() && (#[trigger] imports()[i]).0 == module && imports()[i].1 == name
}

/// What stands behind the function that a guest imports under these names.
#[verifier::opaque]
pub open spec fn entry_of(module: Seq<char>, name: Seq<char>) -> Entry {
    imports()[place_of(module, name)].2
}

/// Whether a guest can import a function under these names that takes `params` arguments of
/// type `i32`.
pub open spec fn takes(module: Seq<char>, name: Seq<char>, params: nat) -> bool {
    offered(module, name) && entry_of(module, name).arity() == params
}

/// What a guest leaves behind that calls the function it imports under these names.
pub open spec fn called(
    state: State,
    memory: Option<Seq<u8>>,
    module: Seq<char>,
    name: Seq<char>,
    args: Seq<i32>,
) -> Option<Step> {
    match entry_of(module, name).meant(args) {
        Some(call) => state.host_call(memory, call),
        None => None,
    }
}

/// Whether `len` bytes from `at` on lie in a memory of `size` bytes.
pub open spec fn inside(size: nat, at: i32, len: int) -> bool {
    0 <= at && 0 <= len && at + len <= size
}

/// Byte `k` of the 32-bit integer `n`, counted from the least significant one.
pub open spec fn byte(n: int, k: int) -> u8 {
    ((if k == 0 {
        n
    } else if k == 1 {
        n / 256
    } else if k == 2 {
        n / 65536
    } else {
        n / 16777216
    }) % 256) as u8
}

/// Whether `after` is `before` with the integer `n` at `out`, byte for byte.
pub open spec fn word_told(before: Seq<u8>, after: Seq<u8>, out: i32, n: int) -> bool {
    &&& after.len() == before.len()
    &&& forall|k: int|
        0 <= k < before.len() ==> #[trigger] after[k] == if out <= k < out + 4 {
            byte(n, k - out)
        } else {
            before[k]
        }
}

/// Whether `after` is `before` with the integer `n` at `first` and then `m` at `second`.
pub open spec fn words_told(
    before: Seq<u8>,
    after: Seq<u8>,
    first: i32,
    n: int,
    second: i32,
    m: int,
) -> bool {
    &&& after.len() == before.len()
    &&& forall|k: int|
        0 <= k < before.len() ==> #[trigger] after[k] == if second <= k < second + 4 {
            byte(m, k - second)
        } else if first <= k < first + 4 {
            byte(n, k - first)
        } else {
            before[k]
        }
}

/// Whether `after` is `before` with `text` at `addr` and then its length at `out`.
pub open spec fn text_told(
    before: Seq<u8>,
    after: Seq<u8>,
    addr: i32,
    text: Seq<u8>,
    out: i32,
) -> bool {
    &&& after.len() == before.len()
    &&& forall|k: int|
        0 <= k < before.len() ==> #[trigger] after[k] == if out <= k < out + 4 {
            byte(text.len() as int, k - out)
        } else if addr <= k < addr + text.len() {
            text[k - addr]
        } else {
            before[k]
        }
}

/// Whether `after` is `before` with `text` and a zero byte at `addr`, then their length at
/// `nwritten_out`, and then the cursor `next` at `ending_cursor_out`.
pub open spec fn item_told(
    before: Seq<u8>,
    after: Seq<u8>,
    addr: i32,
    text: Seq<u8>,
    nwritten_out: i32,
    ending_cursor_out: i32,
    next: int,
) -> bool {
    &&& after.len() == before.len()
    &&& forall|k: int|
        0 <= k < before.len() ==> #[trigger] after[k] == if ending_cursor_out <= k
            < ending_cursor_out + 4 {
            byte(next, k - ending_cursor_out)
        } else if nwritten_out <= k < nwritten_out + 4 {
            byte(text.len() as int + 1, k - nwritten_out)
        } else if addr <= k < addr + text.len() {
            text[k - addr]
        } else if k == addr + text.len() {
            0u8
        } else {
            before[k]
        }
}

/// Whether a guest that asks for the item at `cursor` of `listed` gets it, with the cursor of
/// the item that follows or -1 behind the last one; gets nothing and -1 where there is no such
/// item; and gets no answer where the results do not fit.
pub open spec fn lists(
    step: Option<Step>,
    state: State,
    before: Seq<u8>,
    listed: Seq<Seq<u8>>,
    addr: i32,
    cursor: i32,
    ending_cursor_out: i32,
    nwritten_out: i32,
) -> bool {
    let outs = inside(before.len(), nwritten_out, 4) && inside(before.len(), ending_cursor_out, 4);
    if 0 <= cursor < listed.len() {
        let text = listed[cursor as int];
        let is_last = cursor == listed.len() - 1;
        if outs && inside(before.len(), addr, text.len() as int + 1) && (is_last || cursor < i32::MAX) {
            &&& step is Some
            &&& step->0.state == state
            &&& step->0.answer == Ok::<i32, Seq<char>>(0)
            &&& step->0.memory is Some
            &&& text.len() < u32::MAX ==> item_told(
                before,
                step->0.memory->0,
                addr,
                text,
                nwritten_out,
                ending_cursor_out,
                if is_last {
                    -1
                } else {
                    cursor + 1
                },
            )
        } else {
            step is None
        }
    } else if outs {
        &&& step is Some
        &&& step->0.state == state
        &&& step->0.answer == Ok::<i32, Seq<char>>(0)
        &&& step->0.memory is Some
        &&& words_told(before, step->0.memory->0, nwritten_out, 0, ending_cursor_out, -1)
    } else {
        step is None
    }
}

/// Whether `listed` is in lexicographic order.
pub open spec fn in_order(listed: Seq<Seq<u8>>) -> bool {
    forall|i: int, j: int|
        0 <= i < j < listed.len() ==> precedes(#[trigger] listed[i], #[trigger] listed[j])
}

/// `name` with its capital letters made small.
pub open spec fn lower(name: Seq<u8>) -> Seq<u8> {
    Seq::new(
        name.len(),
        |i: int|
            if 65 <= name[i] <= 90 {
                (name[i] + 32) as u8
            } else {
                name[i]
            },
    )
}

/// The values of the field `name` in `fields`, in the order in which they were added.
pub open spec fn held_values(fields: Map<Seq<u8>, Seq<Seq<u8>>>, name: Seq<u8>) -> Seq<Seq<u8>> {
    if fields.contains_key(lower(name)) {
        fields[lower(name)]
    } else {
        Seq::empty()
    }
}

/// The `size` bytes at `addr` of a memory that holds them.
pub open spec fn taken_from(memory: Seq<u8>, addr: i32, size: i32) -> Seq<u8> {
    Seq::new(size as nat, |i: int| memory[addr + i])
}

/// Whether a guest can import a function under these names, and `entry` stands behind it.
pub open spec fn leads_to(module: Seq<char>, name: Seq<char>, entry: Entry) -> bool {
    offered(module, name) && entry_of(module, name) == entry
}

/// Each pair of names leads to what stands behind it in the table.
proof fn lemma_import(i: int, module: Seq<char>, name: Seq<char>, entry: Entry)
    requires
        0 <= i < imports().len(),
        imports()[i] == (module, name, entry),
    ensures
        leads_to(module, name, entry),
{
    reveal(offered);
    reveal(entry_of);
    assert(imports()[i].0 == module && imports()[i].1 == name);
    let j = place_of(module, name);
    if i < j {
        law_imports_are_distinct(i, j);
    } else if j < i {
        law_imports_are_distinct(j, i);
    }
}

proof fn lemma_word(before: Seq<u8>, out: i32, n: u32)
    ensures
        stored(before, out, le_bytes(n)) is Some == inside(before.len(), out, 4),
        inside(before.len(), out, 4) ==> word_told(
            before,
            stored(before, out, le_bytes(n))->0,
            out,
            n as int,
        ),
{
}

proof fn lemma_words(before: Seq<u8>, first: i32, n: u32, second: i32, m: u32)
    ensures
        stored_pair(before, first, n, second, m) is Some == (inside(before.len(), first, 4)
            && inside(before.len(), second, 4)),
        stored_pair(before, first, n, second, m) is Some ==> words_told(
            before,
            stored_pair(before, first, n, second, m)->0,
            first,
            n as int,
            second,
            m as int,
        ),
{
    lemma_word(before, first, n);
    if inside(before.len(), first, 4) {
        lemma_word(stored(before, first, le_bytes(n))->0, second, m);
    }
}

proof fn lemma_text(before: Seq<u8>, addr: i32, text: Seq<u8>, out: i32)
    requires
        inside(before.len(), addr, text.len() as int),
    ensures
        ({
            let with_text = stored(before, addr, text);
            let after = stored(with_text->0, out, le_bytes(text.len() as u32));
            &&& with_text is Some
            &&& after is Some == inside(before.len(), out, 4)
            &&& after is Some && text.len() <= u32::MAX ==> text_told(
                before,
                after->0,
                addr,
                text,
                out,
            )
        }),
{
    lemma_word(stored(before, addr, text)->0, out, text.len() as u32);
}

/// Bytes that lie in a memory are read as they stand there.
proof fn lemma_taken(memory: Seq<u8>, addr: i32, size: i32)
    ensures
        bytes_at(memory, addr, size) is Some == inside(memory.len(), addr, size as int),
        inside(memory.len(), addr, size as int) ==> bytes_at(memory, addr, size) == Some(
            taken_from(memory, addr, size),
        ),
{
    if inside(memory.len(), addr, size as int) {
        assert(bytes_at(memory, addr, size)->0 =~= taken_from(memory, addr, size));
    }
}

/// Whether the names under which `fields` holds values are all names of header fields.
pub open spec fn names_are_valid(fields: Map<Seq<u8>, Seq<Seq<u8>>>) -> bool {
    forall|name: Seq<u8>| #[trigger] fields.contains_key(name) ==> valid_field_name(name)
}

/// A field name is found under its small letters.
proof fn lemma_values(fields: Map<Seq<u8>, Seq<Seq<u8>>>, name: Seq<u8>)
    ensures
        valid_field_name(name) ==> folded(name) == lower(name),
        valid_field_name(name) || names_are_valid(fields) ==> values_of(fields, name)
            == held_values(fields, name),
{
    if valid_field_name(name) {
        assert forall|i: int| 0 <= i < name.len() implies folded(name)[i] == lower(name)[i] by {
            assert(folded_byte(name[i]) != 0);
        }
        assert(folded(name) =~= lower(name));
    } else if names_are_valid(fields) {
        lemma_not_a_name(name);
        assert(!fields.contains_key(folded(name)));
        assert(!fields.contains_key(lower(name)));
    }
}

/// A text that is no field name is none in small letters either.
proof fn lemma_not_a_name(name: Seq<u8>)
    requires
        !valid_field_name(name),
    ensures
        !valid_field_name(folded(name)),
        !valid_field_name(lower(name)),
{
    if 0 < name.len() <= 65535 {
        let i = choose|i: int| 0 <= i < name.len() && folded_byte(#[trigger] name[i]) == 0;
        assert(folded_byte(name[i]) == 0);
        assert(folded_byte(folded(name)[i]) == 0);
        assert(folded_byte(lower(name)[i]) == 0);
    }
}

/// A list in lexicographic order is the ascending list of what it holds.
proof fn lemma_in_order(items: Seq<Seq<u8>>, listed: Seq<Seq<u8>>)
    requires
        in_order(listed),
    ensures
        listed.to_multiset() == items.to_multiset() ==> listed == ascending(items),
{
    if listed.to_multiset() == items.to_multiset() {
        assert forall|i: int, j: int| 0 <= i < j < listed.len() implies at_most(
            #[trigger] listed[i],
            #[trigger] listed[j],
        ) by {
            law_order_is_lexicographic(listed[i], listed[j]);
        }
        lemma_ascending_is_unique(items, listed);
    }
}

/// A page of a list is the answer that [`lists`] speaks of.
proof fn lemma_listed(
    items: Seq<Seq<u8>>,
    listed: Seq<Seq<u8>>,
    before: Seq<u8>,
    addr: i32,
    cursor: i32,
    ending_cursor_out: i32,
    nwritten_out: i32,
)
    ensures
        listed == ascending(items) ==> forall|state: State|
            lists(
                #[trigger] state.written(
                    page(items, before, addr, cursor, ending_cursor_out, nwritten_out),
                ),
                state,
                before,
                listed,
                addr,
                cursor,
                ending_cursor_out,
                nwritten_out,
            ),
{
    lemma_ascending(items);
    assert((-1) as i32 as u32 == 0xffff_ffffu32) by (bit_vector);
    if 0 <= cursor < items.len() {
        if listed == ascending(items) {
            let text = listed[cursor as int];
            let item = text.push(0);
            let next = next_cursor(items.len(), cursor) as u32;
            if inside(before.len(), addr, item.len() as int) {
                let with_item = stored(before, addr, item)->0;
                lemma_words(
                    with_item,
                    nwritten_out,
                    item.len() as u32,
                    ending_cursor_out,
                    next,
                );
            }
        }
    } else {
        lemma_words(before, nwritten_out, 0, ending_cursor_out, (-1) as i32 as u32);
    }
    lemma_minus_one();
}

/// The four bytes of -1 are those of the largest unsigned integer.
proof fn lemma_minus_one()
    ensures
        forall|k: int| 0 <= k < 4 ==> #[trigger] byte(-1, k) == byte(0xffff_ffff, k),
{
}

/// What stands behind each function that a guest can import.
proof fn lemma_table()
    ensures
        leads_to("fastly_abi"@, "init"@, Entry::UnsupportedI64),
        leads_to("fastly_uap"@, "parse"@, Entry::Unsupported),
        leads_to("fastly_log"@, "endpoint_get"@, Entry::Unsupported),
        leads_to("fastly_log"@, "write"@, Entry::Unsupported),
        leads_to("fastly_http_req"@, "pending_req_poll"@, Entry::Unsupported),
        leads_to("fastly_http_req"@, "pending_req_select"@, Entry::Unsupported),
        leads_to("fastly_http_req"@, "req_downstream_tls_cipher_openssl_name"@, Entry::Unsupported),
        leads_to("fastly_http_req"@, "req_downstream_tls_protocol"@, Entry::Unsupported),
        leads_to("fastly_http_req"@, "downstream_tls_client_hello"@, Entry::Unsupported),
        leads_to("fastly_http_req"@, "header_insert"@, Entry::Unsupported),
        leads_to("fastly_http_req"@, "send_async"@, Entry::Unsupported),
        leads_to("fastly_http_req"@, "original_header_count"@, Entry::Unsupported),
        leads_to("fastly_http_req"@, "header_remove"@, Entry::Unsupported),
        leads_to("fastly_http_req"@, "body_downstream_get"@, Entry::BodyDownstreamGet),
        leads_to("fastly_http_req"@, "downstream_client_ip_addr"@, Entry::Unsupported),
        leads_to("fastly_http_req"@, "new"@, Entry::ReqNew),
        leads_to("fastly_http_req"@, "version_get"@, Entry::ReqVersionGet),
        leads_to("fastly_http_req"@, "version_set"@, (Entry::Accepted { params: 2 })),
        leads_to("fastly_http_req"@, "method_get"@, Entry::ReqMethodGet),
        leads_to("fastly_http_req"@, "method_set"@, Entry::ReqMethodSet),
        leads_to("fastly_http_req"@, "uri_get"@, Entry::ReqUriGet),
        leads_to("fastly_http_req"@, "uri_set"@, Entry::ReqUriSet),
        leads_to("fastly_http_req"@, "header_names_get"@, Entry::ReqHeaderNamesGet),
        leads_to("fastly_http_req"@, "header_values_get"@, Entry::ReqHeaderValuesGet),
        leads_to("fastly_http_req"@, "header_values_set"@, (Entry::Accepted { params: 5 })),
        leads_to("fastly_http_req"@, "send"@, Entry::ReqSend),
        leads_to("fastly_http_req"@, "cache_override_set"@, (Entry::Accepted { params: 3 })),
        leads_to("fastly_http_req"@, "cache_override_v2_set"@, (Entry::Accepted { params: 6 })),
        leads_to("fastly_http_req"@, "original_header_names_get"@, Entry::Unsupported),
        leads_to("fastly_http_resp"@, "header_append"@, Entry::Unsupported),
        leads_to("fastly_http_resp"@, "header_insert"@, Entry::Unsupported),
        leads_to("fastly_http_resp"@, "header_value_get"@, Entry::Unsupported),
        leads_to("fastly_http_resp"@, "header_remove"@, Entry::Unsupported),
        leads_to("fastly_http_resp"@, "new"@, Entry::RespNew),
        leads_to("fastly_http_resp"@, "send_downstream"@, Entry::RespSendDownstream),
        leads_to("fastly_http_resp"@, "status_get"@, Entry::RespStatusGet),
        leads_to("fastly_http_resp"@, "status_set"@, Entry::RespStatusSet),
        leads_to("fastly_http_resp"@, "version_get"@, Entry::RespVersionGet),
        leads_to("fastly_http_resp"@, "version_set"@, (Entry::Accepted { params: 2 })),
        leads_to("fastly_http_resp"@, "header_names_get"@, (Entry::Accepted { params: 6 })),
        leads_to("fastly_http_resp"@, "header_values_get"@, Entry::RespHeaderValuesGet),
        leads_to("fastly_http_resp"@, "header_values_set"@, Entry::RespHeaderValuesSet),
        leads_to("fastly_http_body"@, "close"@, Entry::UnsupportedI32),
        leads_to("fastly_http_body"@, "new"@, Entry::BodyNew),
        leads_to("fastly_http_body"@, "write"@, Entry::BodyWrite),
        leads_to("fastly_http_body"@, "read"@, (Entry::Accepted { params: 0 })),
        leads_to("fastly_http_body"@, "append"@, (Entry::Accepted { params: 0 })),
{
    lemma_import(0, "fastly_abi"@, "init"@, Entry::UnsupportedI64);
    lemma_import(1, "fastly_uap"@, "parse"@, Entry::Unsupported);
    lemma_import(2, "fastly_log"@, "endpoint_get"@, Entry::Unsupported);
    lemma_import(3, "fastly_log"@, "write"@, Entry::Unsupported);
    lemma_import(4, "fastly_http_req"@, "pending_req_poll"@, Entry::Unsupported);
    lemma_import(5, "fastly_http_req"@, "pending_req_select"@, Entry::Unsupported);
    lemma_import(6, "fastly_http_req"@, "req_downstream_tls_cipher_openssl_name"@, Entry::Unsupported);
    lemma_import(7, "fastly_http_req"@, "req_downstream_tls_protocol"@, Entry::Unsupported);
    lemma_import(8, "fastly_http_req"@, "downstream_tls_client_hello"@, Entry::Unsupported);
    lemma_import(9, "fastly_http_req"@, "header_insert"@, Entry::Unsupported);
    lemma_import(10, "fastly_http_req"@, "send_async"@, Entry::Unsupported);
    lemma_import(11, "fastly_http_req"@, "original_header_count"@, Entry::Unsupported);
    lemma_import(12, "fastly_http_req"@, "header_remove"@, Entry::Unsupported);
    lemma_import(13, "fastly_http_req"@, "body_downstream_get"@, Entry::BodyDownstreamGet);
    lemma_import(14, "fastly_http_req"@, "downstream_client_ip_addr"@, Entry::Unsupported);
    lemma_import(15, "fastly_http_req"@, "new"@, Entry::ReqNew);
    lemma_import(16, "fastly_http_req"@, "version_get"@, Entry::ReqVersionGet);
    lemma_import(17, "fastly_http_req"@, "version_set"@, Entry::Accepted { params: 2 });
    lemma_import(18, "fastly_http_req"@, "method_get"@, Entry::ReqMethodGet);
    lemma_import(19, "fastly_http_req"@, "method_set"@, Entry::ReqMethodSet);
    lemma_import(20, "fastly_http_req"@, "uri_get"@, Entry::ReqUriGet);
    lemma_import(21, "fastly_http_req"@, "uri_set"@, Entry::ReqUriSet);
    lemma_import(22, "fastly_http_req"@, "header_names_get"@, Entry::ReqHeaderNamesGet);
    lemma_import(23, "fastly_http_req"@, "header_values_get"@, Entry::ReqHeaderValuesGet);
    lemma_import(24, "fastly_http_req"@, "header_values_set"@, Entry::Accepted { params: 5 });
    lemma_import(25, "fastly_http_req"@, "send"@, Entry::ReqSend);
    lemma_import(26, "fastly_http_req"@, "cache_override_set"@, Entry::Accepted { params: 3 });
    lemma_import(27, "fastly_http_req"@, "cache_override_v2_set"@, Entry::Accepted { params: 6 });
    lemma_import(28, "fastly_http_req"@, "original_header_names_get"@, Entry::Unsupported);
    lemma_import(29, "fastly_http_resp"@, "header_append"@, Entry::Unsupported);
    lemma_import(30, "fastly_http_resp"@, "header_insert"@, Entry::Unsupported);
    lemma_import(31, "fastly_http_resp"@, "header_value_get"@, Entry::Unsupported);
    lemma_import(32, "fastly_http_resp"@, "header_remove"@, Entry::Unsupported);
    lemma_import(33, "fastly_http_resp"@, "new"@, Entry::RespNew);
    lemma_import(34, "fastly_http_resp"@, "send_downstream"@, Entry::RespSendDownstream);
    lemma_import(35, "fastly_http_resp"@, "status_get"@, Entry::RespStatusGet);
    lemma_import(36, "fastly_http_resp"@, "status_set"@, Entry::RespStatusSet);
    lemma_import(37, "fastly_http_resp"@, "version_get"@, Entry::RespVersionGet);
    lemma_import(38, "fastly_http_resp"@, "version_set"@, Entry::Accepted { params: 2 });
    lemma_import(39, "fastly_http_resp"@, "header_names_get"@, Entry::Accepted { params: 6 });
    lemma_import(40, "fastly_http_resp"@, "header_values_get"@, Entry::RespHeaderValuesGet);
    lemma_import(41, "fastly_http_resp"@, "header_values_set"@, Entry::RespHeaderValuesSet);
    lemma_import(42, "fastly_http_body"@, "close"@, Entry::UnsupportedI32);
    lemma_import(43, "fastly_http_body"@, "new"@, Entry::BodyNew);
    lemma_import(44, "fastly_http_body"@, "write"@, Entry::BodyWrite);
    lemma_import(45, "fastly_http_body"@, "read"@, Entry::Accepted { params: 0 });
    lemma_import(46, "fastly_http_body"@, "append"@, Entry::Accepted { params: 0 });
}

/// `fastly_http_req::body_downstream_get` hands the client's request over where there is one and
/// the handles fit: its head as the last request, its body as the last body. The guest is told
/// the number of requests there were, first at the first argument, then at the second.
pub proof fn law_import_body_downstream_get(
    state: State,
    memory: Option<Seq<u8>>,
    args: Seq<i32>,
)
    requires
        args.len() == 2,
    ensures
        ({
            let step = called(state, memory, "fastly_http_req"@, "body_downstream_get"@, args);
            let request_handle_out = args[0];
            let body_handle_out = args[1];
            &&& takes("fastly_http_req"@, "body_downstream_get"@, 2)
            &&& step == state.body_downstream_get(memory, args[0], args[1])
            &&& match (state.request, memory) {
                (None, _) => step is None,
                (Some(request), None) => step == Some(
                    Step {
                        state: State {
                            request: None,
                            requests: state.requests.push(
                                RequestView { body: PayloadView::Bytes(Seq::empty()), ..request },
                            ),
                            bodies: state.bodies.push(request.body),
                            ..state
                        },
                        memory: None,
                        answer: Err("failed to resolve exported host memory"@),
                    },
                ),
                (Some(request), Some(before)) => if inside(before.len(), request_handle_out, 4)
                    && inside(before.len(), body_handle_out, 4) {
                    &&& step is Some
                    &&& step->0.answer == Ok::<i32, Seq<char>>(0)
                    &&& step->0.state == (State {
                        request: None,
                        requests: state.requests.push(
                            RequestView { body: PayloadView::Bytes(Seq::empty()), ..request },
                        ),
                        bodies: state.bodies.push(request.body),
                        ..state
                    })
                    &&& step->0.memory is Some
                    &&& state.requests.len() <= u32::MAX ==> words_told(
                        before,
                        step->0.memory->0,
                        request_handle_out,
                        state.requests.len() as int,
                        body_handle_out,
                        state.requests.len() as int,
                    )
                } else {
                    step is None
                },
            }
        }),
{
    lemma_table();
    if let Some(before) = memory {
        let n = state.requests.len() as u32;
        lemma_words(before, args[0], n, args[1], n);
    }
}

/// `fastly_http_req::new` adds a request `GET /` without header fields and body, and tells the
/// guest the number of requests there were.
pub proof fn law_import_req_new(
    state: State,
    memory: Option<Seq<u8>>,
    args: Seq<i32>,
)
    requires
        args.len() == 1,
    ensures
        ({
            let step = called(state, memory, "fastly_http_req"@, "new"@, args);
            let out = args[0];
            &&& takes("fastly_http_req"@, "new"@, 1)
            &&& step == state.req_new(memory, args[0])
            &&& match memory {
                None => step == Some(
                    Step {
                        state: State { requests: state.requests.push(
                            RequestView {
                                method: seq![71u8, 69u8, 84u8],
                                uri: seq![47u8],
                                target: TargetView::Raw(seq![47u8]),
                                fields: Map::empty(),
                                carried: None,
                                body: PayloadView::Bytes(Seq::empty()),
                            },
                        ), ..state },
                        memory: None,
                        answer: Err("failed to resolve exported host memory"@),
                    },
                ),
                Some(before) => if inside(before.len(), out, 4) {
                    &&& step is Some
                    &&& step->0.answer == Ok::<i32, Seq<char>>(0)
                    &&& step->0.state == (State { requests: state.requests.push(
                            RequestView {
                                method: seq![71u8, 69u8, 84u8],
                                uri: seq![47u8],
                                target: TargetView::Raw(seq![47u8]),
                                fields: Map::empty(),
                                carried: None,
                                body: PayloadView::Bytes(Seq::empty()),
                            },
                        ), ..state })
                    &&& step->0.memory is Some
                    &&& state.requests.len() <= u32::MAX ==> word_told(
                        before,
                        step->0.memory->0,
                        out,
                        state.requests.len() as int,
                    )
                } else {
                    step is None
                },
            }
        }),
{
    lemma_table();
    if let Some(before) = memory {
        lemma_word(before, args[0], state.requests.len() as u32);
    }
}

/// `fastly_http_resp::new` adds a response with status 200 without header fields and body, and
/// tells the guest the number of responses there were.
pub proof fn law_import_resp_new(
    state: State,
    memory: Option<Seq<u8>>,
    args: Seq<i32>,
)
    requires
        args.len() == 1,
    ensures
        ({
            let step = called(state, memory, "fastly_http_resp"@, "new"@, args);
            let out = args[0];
            &&& takes("fastly_http_resp"@, "new"@, 1)
            &&& step == state.resp_new(memory, args[0])
            &&& match memory {
                None => step == Some(
                    Step {
                        state: State { responses: state.responses.push(
                            ResponseView {
                                status: 200,
                                fields: Map::empty(),
                                carried: None,
                                body: PayloadView::Bytes(Seq::empty()),
                            },
                        ), ..state },
                        memory: None,
                        answer: Err("failed to resolve exported host memory"@),
                    },
                ),
                Some(before) => if inside(before.len(), out, 4) {
                    &&& step is Some
                    &&& step->0.answer == Ok::<i32, Seq<char>>(0)
                    &&& step->0.state == (State { responses: state.responses.push(
                            ResponseView {
                                status: 200,
                                fields: Map::empty(),
                                carried: None,
                                body: PayloadView::Bytes(Seq::empty()),
                            },
                        ), ..state })
                    &&& step->0.memory is Some
                    &&& state.responses.len() <= u32::MAX ==> word_told(
                        before,
                        step->0.memory->0,
                        out,
                        state.responses.len() as int,
                    )
                } else {
                    step is None
                },
            }
        }),
{
    lemma_table();
    if let Some(before) = memory {
        lemma_word(before, args[0], state.responses.len() as u32);
    }
}

/// `fastly_http_body::new` adds a body without bytes, and tells the guest the number of bodies
/// there were.
pub proof fn law_import_body_new(
    state: State,
    memory: Option<Seq<u8>>,
    args: Seq<i32>,
)
    requires
        args.len() == 1,
    ensures
        ({
            let step = called(state, memory, "fastly_http_body"@, "new"@, args);
            let out = args[0];
            &&& takes("fastly_http_body"@, "new"@, 1)
            &&& step == state.body_new(memory, args[0])
            &&& match memory {
                None => step == Some(
                    Step {
                        state: State { bodies: state.bodies.push(PayloadView::Bytes(Seq::empty())), ..state },
                        memory: None,
                        answer: Err("failed to resolve exported host memory"@),
                    },
                ),
                Some(before) => if inside(before.len(), out, 4) {
                    &&& step is Some
                    &&& step->0.answer == Ok::<i32, Seq<char>>(0)
                    &&& step->0.state == (State { bodies: state.bodies.push(PayloadView::Bytes(Seq::empty())), ..state })
                    &&& step->0.memory is Some
                    &&& state.bodies.len() <= u32::MAX ==> word_told(
                        before,
                        step->0.memory->0,
                        out,
                        state.bodies.len() as int,
                    )
                } else {
                    step is None
                },
            }
        }),
{
    lemma_table();
    if let Some(before) = memory {
        lemma_word(before, args[0], state.bodies.len() as u32);
    }
}

/// `fastly_http_resp::send_downstream` makes the response at the first argument, with the body
/// at the second, the answer to the client, and takes both out of their tables. Where the third
/// argument is not 0 it changes nothing and answers 5. It needs no memory and writes none.
pub proof fn law_import_send_downstream(
    state: State,
    memory: Option<Seq<u8>>,
    args: Seq<i32>,
)
    requires
        args.len() == 3,
    ensures
        ({
            let step = called(state, memory, "fastly_http_resp"@, "send_downstream"@, args);
            let whandle = args[0];
            let bhandle = args[1];
            let stream = args[2];
            &&& takes("fastly_http_resp"@, "send_downstream"@, 3)
            &&& step == state.resp_send_downstream(memory, args[0], args[1], args[2])
            &&& if stream != 0 {
                step == Some(Step { state, memory, answer: Ok(5) })
            } else if 0 <= whandle < state.responses.len() && 0 <= bhandle < state.bodies.len() {
                step == Some(
                    Step {
                        state: State {
                            responses: state.responses.remove(whandle as int),
                            bodies: state.bodies.remove(bhandle as int),
                            response: ResponseView {
                                body: state.bodies[bhandle as int],
                                ..state.responses[whandle as int]
                            },
                            ..state
                        },
                        memory,
                        answer: Ok(0),
                    },
                )
            } else {
                step is None
            }
        }),
{
    lemma_table();
}

/// `fastly_http_req::method_get` tells the guest the method of the request at the first argument:
/// the text at the second, its length at the fourth.
pub proof fn law_import_method_get(
    state: State,
    memory: Option<Seq<u8>>,
    args: Seq<i32>,
)
    requires
        args.len() == 4,
    ensures
        ({
            let step = called(state, memory, "fastly_http_req"@, "method_get"@, args);
            let handle = args[0];
            let addr = args[1];
            let out = args[3];
            &&& takes("fastly_http_req"@, "method_get"@, 4)
            &&& step == state.req_method_get(memory, args[0], args[1], args[3])
            &&& match memory {
                None => step == Some(
                    Step {
                        state,
                        memory,
                        answer: Err("failed to resolve exported host memory"@),
                    },
                ),
                Some(before) => if !(0 <= handle < state.requests.len()) {
                    step == Some(
                        Step { state, memory, answer: Err("Invalid body handle"@) },
                    )
                } else {
                    let text = state.requests[handle as int].method;
                    if !inside(before.len(), addr, text.len() as int) {
                        step == Some(
                            Step {
                                state,
                                memory,
                                answer: Err("Failed to write request HTTP method bytes"@),
                            },
                        )
                    } else if !inside(before.len(), out, 4) {
                        step is None
                    } else {
                        &&& step is Some
                        &&& step->0.answer == Ok::<i32, Seq<char>>(0)
                        &&& step->0.state == state
                        &&& step->0.memory is Some
                        &&& text.len() <= u32::MAX ==> text_told(
                            before,
                            step->0.memory->0,
                            addr,
                            text,
                            out,
                        )
                    }
                },
            }
        }),
{
    lemma_table();
    if let Some(before) = memory {
        let text = state.requests[args[0] as int].method;
        if inside(before.len(), args[1], text.len() as int) {
            lemma_text(before, args[1], text, args[3]);
        }
    }
}

/// `fastly_http_req::uri_get` tells the guest the URI of the request at the first argument: the
/// text at the second, its length at the fourth.
pub proof fn law_import_uri_get(
    state: State,
    memory: Option<Seq<u8>>,
    args: Seq<i32>,
)
    requires
        args.len() == 4,
    ensures
        ({
            let step = called(state, memory, "fastly_http_req"@, "uri_get"@, args);
            let handle = args[0];
            let addr = args[1];
            let out = args[3];
            &&& takes("fastly_http_req"@, "uri_get"@, 4)
            &&& step == state.req_uri_get(memory, args[0], args[1], args[3])
            &&& match memory {
                None => step == Some(
                    Step {
                        state,
                        memory,
                        answer: Err("failed to resolve exported host memory"@),
                    },
                ),
                Some(before) => if !(0 <= handle < state.requests.len()) {
                    step == Some(
                        Step { state, memory, answer: Err("invalid request handle"@) },
                    )
                } else {
                    let text = state.requests[handle as int].uri;
                    if !inside(before.len(), addr, text.len() as int) {
                        step == Some(
                            Step {
                                state,
                                memory,
                                answer: Err("failed to write method bytes"@),
                            },
                        )
                    } else if !inside(before.len(), out, 4) {
                        step is None
                    } else {
                        &&& step is Some
                        &&& step->0.answer == Ok::<i32, Seq<char>>(0)
                        &&& step->0.state == state
                        &&& step->0.memory is Some
                        &&& text.len() <= u32::MAX ==> text_told(
                            before,
                            step->0.memory->0,
                            addr,
                            text,
                            out,
                        )
                    }
                },
            }
        }),
{
    lemma_table();
    if let Some(before) = memory {
        let text = state.requests[args[0] as int].uri;
        if inside(before.len(), args[1], text.len() as int) {
            lemma_text(before, args[1], text, args[3]);
        }
    }
}

/// `fastly_http_req::method_set` gives the request at the first argument the method that stands
/// at the second, as many bytes as the third says, and changes nothing else.
pub proof fn law_import_method_set(
    state: State,
    memory: Option<Seq<u8>>,
    args: Seq<i32>,
)
    requires
        args.len() == 3,
    ensures
        ({
            let step = called(state, memory, "fastly_http_req"@, "method_set"@, args);
            let handle = args[0];
            let addr = args[1];
            let size = args[2];
            &&& takes("fastly_http_req"@, "method_set"@, 3)
            &&& step == state.req_method_set(memory, args[0], args[1], args[2])
            &&& match memory {
                None => step == Some(
                    Step {
                        state,
                        memory,
                        answer: Err("failed to resolve exported host memory"@),
                    },
                ),
                Some(before) => {
                    let text = taken_from(before, addr, size);
                    if !inside(before.len(), addr, size as int) {
                        step == Some(
                            Step { state, memory, answer: Err("failed to read body memory"@) },
                        )
                    } else if !valid_method(text) {
                        step == Some(
                            Step { state, memory, answer: Err("invalid http method"@) },
                        )
                    } else if !(0 <= handle < state.requests.len()) {
                        step == Some(
                            Step { state, memory, answer: Err("invalid request handler"@) },
                        )
                    } else {
                        let request = RequestView {
                            method: text,
                            ..state.requests[handle as int]
                        };
                        step == Some(
                            Step {
                                state: State {
                                    requests: state.requests.update(handle as int, request),
                                    ..state
                                },
                                memory,
                                answer: Ok(0),
                            },
                        )
                    }
                },
            }
        }),
{
    lemma_table();
    if let Some(before) = memory {
        lemma_taken(before, args[1], args[2]);
    }
}

/// `fastly_http_req::uri_set` gives the request at the first argument the URI that stands at the
/// second, as many bytes as the third says, and changes nothing else. The guest then reads the
/// URI's text, and the bytes that it set are what goes out.
pub proof fn law_import_uri_set(
    state: State,
    memory: Option<Seq<u8>>,
    args: Seq<i32>,
)
    requires
        args.len() == 3,
    ensures
        ({
            let step = called(state, memory, "fastly_http_req"@, "uri_set"@, args);
            let handle = args[0];
            let addr = args[1];
            let size = args[2];
            &&& takes("fastly_http_req"@, "uri_set"@, 3)
            &&& step == state.req_uri_set(memory, args[0], args[1], args[2])
            &&& if !(0 <= handle < state.requests.len()) {
                step == Some(Step { state, memory, answer: Err("invalid request handle"@) })
            } else {
                match memory {
                    None => step == Some(
                        Step {
                            state,
                            memory,
                            answer: Err("failed to resolve exported host memory"@),
                        },
                    ),
                    Some(before) => {
                        let raw = taken_from(before, addr, size);
                        if !inside(before.len(), addr, size as int) {
                            step == Some(
                                Step { state, memory, answer: Err("failed to read request uri"@) },
                            )
                        } else if uri_text(raw) is None {
                            step == Some(
                                Step { state, memory, answer: Err("invalid uri"@) },
                            )
                        } else {
                            let request = RequestView {
                                uri: uri_text(raw)->0,
                                target: TargetView::Raw(raw),
                                ..state.requests[handle as int]
                            };
                            step == Some(
                                Step {
                                    state: State {
                                        requests: state.requests.update(handle as int, request),
                                        ..state
                                    },
                                    memory,
                                    answer: Ok(0),
                                },
                            )
                        }
                    },
                }
            }
        }),
{
    lemma_table();
    if let Some(before) = memory {
        lemma_taken(before, args[1], args[2]);
    }
}

/// `fastly_http_body::write` makes the body at the first argument hold the bytes that stand at
/// the second, as many as the third says, and no others. The guest is told their number at the
/// fifth. It is stopped only without a memory, on a handle that it does not hold, and on bytes
/// outside its memory.
pub proof fn law_import_body_write(
    state: State,
    memory: Option<Seq<u8>>,
    args: Seq<i32>,
)
    requires
        args.len() == 5,
    ensures
        ({
            let step = called(state, memory, "fastly_http_body"@, "write"@, args);
            let handle = args[0];
            let addr = args[1];
            let size = args[2];
            let out = args[4];
            &&& takes("fastly_http_body"@, "write"@, 5)
            &&& step == state.body_write(memory, args[0], args[1], args[2], args[4])
            &&& if !(0 <= handle < state.bodies.len()) {
                step == Some(Step { state, memory, answer: Err("Failed to body handle"@) })
            } else {
                match memory {
                    None => step == Some(
                        Step {
                            state,
                            memory,
                            answer: Err("failed to resolve exported host memory"@),
                        },
                    ),
                    Some(before) => if !inside(before.len(), addr, size as int) {
                        step == Some(
                            Step { state, memory, answer: Err("Failed to read body memory"@) },
                        )
                    } else if !inside(before.len(), out, 4) {
                        step is None
                    } else {
                        &&& step is Some
                        &&& step->0.answer == Ok::<i32, Seq<char>>(0)
                        &&& step->0.state == (State {
                            bodies: state.bodies.update(
                                handle as int,
                                PayloadView::Bytes(taken_from(before, addr, size)),
                            ),
                            ..state
                        })
                        &&& step->0.memory is Some
                        &&& word_told(before, step->0.memory->0, out, size as int)
                    },
                }
            }
        }),
{
    lemma_table();
    if let Some(before) = memory {
        lemma_taken(before, args[1], args[2]);
        lemma_word(before, args[4], args[2] as u32);
    }
}

/// `fastly_http_req::version_get` tells the guest 2, which stands for HTTP/1.1, of every request.
pub proof fn law_import_req_version_get(
    state: State,
    memory: Option<Seq<u8>>,
    args: Seq<i32>,
)
    requires
        args.len() == 2,
    ensures
        ({
            let step = called(state, memory, "fastly_http_req"@, "version_get"@, args);
            let handle = args[0];
            let out = args[1];
            &&& takes("fastly_http_req"@, "version_get"@, 2)
            &&& step == state.req_version_get(memory, args[0], args[1])
            &&& if !(0 <= handle < state.requests.len()) {
                step == Some(Step { state, memory, answer: Err("Invalid response handle"@) })
            } else {
                match memory {
                    None => step == Some(
                        Step {
                            state,
                            memory,
                            answer: Err("failed to resolve exported host memory"@),
                        },
                    ),
                    Some(before) => if inside(before.len(), out, 4) {
                        &&& step is Some
                        &&& step->0.answer == Ok::<i32, Seq<char>>(0)
                        &&& step->0.state == state
                        &&& step->0.memory is Some
                        &&& word_told(before, step->0.memory->0, out, 2)
                    } else {
                        step is None
                    },
                }
            }
        }),
{
    lemma_table();
    if let Some(before) = memory {
        lemma_word(before, args[1], 2);
    }
}

/// `fastly_http_resp::version_get` tells the guest 2, which stands for HTTP/1.1, of every
/// response.
pub proof fn law_import_resp_version_get(
    state: State,
    memory: Option<Seq<u8>>,
    args: Seq<i32>,
)
    requires
        args.len() == 2,
    ensures
        ({
            let step = called(state, memory, "fastly_http_resp"@, "version_get"@, args);
            let handle = args[0];
            let out = args[1];
            &&& takes("fastly_http_resp"@, "version_get"@, 2)
            &&& step == state.resp_version_get(memory, args[0], args[1])
            &&& if !(0 <= handle < state.responses.len()) {
                step == Some(Step { state, memory, answer: Err("Invalid response handle"@) })
            } else {
                match memory {
                    None => step == Some(
                        Step {
                            state,
                            memory,
                            answer: Err("failed to resolve exported host memory"@),
                        },
                    ),
                    Some(before) => if inside(before.len(), out, 4) {
                        &&& step is Some
                        &&& step->0.answer == Ok::<i32, Seq<char>>(0)
                        &&& step->0.state == state
                        &&& step->0.memory is Some
                        &&& word_told(before, step->0.memory->0, out, 2)
                    } else {
                        step is None
                    },
                }
            }
        }),
{
    lemma_table();
    if let Some(before) = memory {
        lemma_word(before, args[1], 2);
    }
}

/// `fastly_http_resp::status_get` tells the guest the status of the response at the first
/// argument.
pub proof fn law_import_status_get(
    state: State,
    memory: Option<Seq<u8>>,
    args: Seq<i32>,
)
    requires
        args.len() == 2,
    ensures
        ({
            let step = called(state, memory, "fastly_http_resp"@, "status_get"@, args);
            let handle = args[0];
            let out = args[1];
            &&& takes("fastly_http_resp"@, "status_get"@, 2)
            &&& step == state.resp_status_get(memory, args[0], args[1])
            &&& if !(0 <= handle < state.responses.len()) {
                step == Some(Step { state, memory, answer: Err("Invalid response handle"@) })
            } else {
                match memory {
                    None => step == Some(
                        Step {
                            state,
                            memory,
                            answer: Err("failed to resolve exported host memory"@),
                        },
                    ),
                    Some(before) => if inside(before.len(), out, 4) {
                        &&& step is Some
                        &&& step->0.answer == Ok::<i32, Seq<char>>(0)
                        &&& step->0.state == state
                        &&& step->0.memory is Some
                        &&& word_told(before, step->0.memory->0, out, state.responses[handle as int].status as int)
                    } else {
                        step is None
                    },
                }
            }
        }),
{
    lemma_table();
    if let Some(before) = memory {
        lemma_word(before, args[1], state.responses[args[0] as int].status as u32);
    }
}

/// `fastly_http_resp::status_set` gives the response at the first argument the status at the
/// second, cut to 16 bits, where that is from 100 to 999, and changes nothing else.
pub proof fn law_import_status_set(
    state: State,
    memory: Option<Seq<u8>>,
    args: Seq<i32>,
)
    requires
        args.len() == 2,
    ensures
        ({
            let step = called(state, memory, "fastly_http_resp"@, "status_set"@, args);
            let handle = args[0];
            let status = args[1];
            &&& takes("fastly_http_resp"@, "status_set"@, 2)
            &&& step == state.resp_status_set(memory, args[0], args[1])
            &&& if !(0 <= handle < state.responses.len()) {
                step == Some(Step { state, memory, answer: Err("invalid response handle"@) })
            } else if 100 <= status as int % 65536 < 1000 {
                let response = ResponseView {
                    status: (status as int % 65536) as u16,
                    ..state.responses[handle as int]
                };
                step == Some(
                    Step {
                        state: State {
                            responses: state.responses.update(handle as int, response),
                            ..state
                        },
                        memory,
                        answer: Ok(0),
                    },
                )
            } else {
                step == Some(Step { state, memory, answer: Err("invalid status code"@) })
            }
        }),
{
    lemma_table();
    let status: i32 = args[1];
    assert(status as u16 == status % 65536) by (bit_vector);
}

/// `fastly_http_req::header_names_get` tells the guest the names of the header fields of the
/// request at the first argument, one for each cursor, each name once, in lexicographic order.
pub proof fn law_import_header_names_get(
    state: State,
    memory: Option<Seq<u8>>,
    args: Seq<i32>,
    listed: Seq<Seq<u8>>,
)
    requires
        args.len() == 6,
        0 <= args[0] < state.requests.len() ==> listed.no_duplicates() && listed.to_set()
            == state.requests[args[0] as int].fields.dom(),
        in_order(listed),
    ensures
        ({
            let step = called(state, memory, "fastly_http_req"@, "header_names_get"@, args);
            let handle = args[0];
            let addr = args[1];
            let cursor = args[3];
            let ending_cursor_out = args[4];
            let nwritten_out = args[5];
            &&& takes("fastly_http_req"@, "header_names_get"@, 6)
            &&& step == state.req_header_names_get(memory, args[0], args[1], args[3], args[4], args[5])
            &&& if !(0 <= handle < state.requests.len()) {
                step == Some(Step { state, memory, answer: Err("invalid request handle"@) })
            } else {
                match memory {
                    None => step == Some(
                        Step {
                            state,
                            memory,
                            answer: Err("failed to resolve exported host memory"@),
                        },
                    ),
                    Some(before) => lists(
                        step,
                        state,
                        before,
                        listed,
                        addr,
                        cursor,
                        ending_cursor_out,
                        nwritten_out,
                    ),
                }
            }
        }),
{
    lemma_table();
    if 0 <= args[0] < state.requests.len() {
        if let Some(before) = memory {
            let names = state.requests[args[0] as int].fields.dom();
            lemma_ascending_of_set(listed, names);
            lemma_in_order(listed, listed);
            lemma_listed(names.to_seq(), listed, before, args[1], args[3], args[4], args[5]);
        }
    }
}

/// `fastly_http_req::header_values_get` tells the guest the values of a header field of the
/// request at the first argument, one for each cursor, as often as they occur, in lexicographic
/// order. The field is the one whose name stands at the second argument, in whatever case. A
/// text that is no field name has no values.
pub proof fn law_import_req_header_values_get(
    state: State,
    memory: Option<Seq<u8>>,
    args: Seq<i32>,
    listed: Seq<Seq<u8>>,
)
    requires
        args.len() == 8,
        0 <= args[0] < state.requests.len() && memory is Some && inside(
            memory->0.len(),
            args[1],
            args[2] as int,
        ) ==> {
            let fields = state.requests[args[0] as int].fields;
            let name = taken_from(memory->0, args[1], args[2]);
            &&& listed.to_multiset() == held_values(fields, name).to_multiset()
            &&& valid_field_name(name) || names_are_valid(fields)
        },
        in_order(listed),
    ensures
        ({
            let step = called(state, memory, "fastly_http_req"@, "header_values_get"@, args);
            let handle = args[0];
            let name_addr = args[1];
            let name_size = args[2];
            let addr = args[3];
            let cursor = args[5];
            let ending_cursor_out = args[6];
            let nwritten_out = args[7];
            &&& takes("fastly_http_req"@, "header_values_get"@, 8)
            &&& step == state.req_header_values_get(
                memory,
                args[0],
                args[1],
                args[2],
                args[3],
                args[5],
                args[6],
                args[7],
            )
            &&& if !(0 <= handle < state.requests.len()) {
                step == Some(Step { state, memory, answer: Err("invalid request handle"@) })
            } else {
                match memory {
                    None => step == Some(
                        Step {
                            state,
                            memory,
                            answer: Err("failed to resolve exported host memory"@),
                        },
                    ),
                    Some(before) => if !inside(before.len(), name_addr, name_size as int) {
                        step == Some(
                            Step { state, memory, answer: Err("Failed to read header name"@) },
                        )
                    } else if !valid_utf8(taken_from(before, name_addr, name_size)) {
                        step is None
                    } else {
                        lists(
                            step,
                            state,
                            before,
                            listed,
                            addr,
                            cursor,
                            ending_cursor_out,
                            nwritten_out,
                        )
                    },
                }
            }
        }),
{
    lemma_table();
    if 0 <= args[0] < state.requests.len() {
        if let Some(before) = memory {
            if inside(before.len(), args[1], args[2] as int) {
                let fields = state.requests[args[0] as int].fields;
                let name = taken_from(before, args[1], args[2]);
                lemma_taken(before, args[1], args[2]);
                lemma_values(fields, name);
                let values = values_of(fields, name);
                lemma_in_order(values, listed);
                lemma_listed(values, listed, before, args[3], args[5], args[6], args[7]);
            }
        }
    }
}

/// `fastly_http_resp::header_values_get` tells the guest the values of a header field of the
/// response at the first argument, one for each cursor, as often as they occur, in lexicographic
/// order. The field is the one whose name stands at the second argument, in whatever case.
pub proof fn law_import_resp_header_values_get(
    state: State,
    memory: Option<Seq<u8>>,
    args: Seq<i32>,
    listed: Seq<Seq<u8>>,
)
    requires
        args.len() == 8,
        0 <= args[0] < state.responses.len() && memory is Some && inside(
            memory->0.len(),
            args[1],
            args[2] as int,
        ) ==> listed.to_multiset() == held_values(
            state.responses[args[0] as int].fields,
            taken_from(memory->0, args[1], args[2]),
        ).to_multiset(),
        in_order(listed),
    ensures
        ({
            let step = called(state, memory, "fastly_http_resp"@, "header_values_get"@, args);
            let handle = args[0];
            let name_addr = args[1];
            let name_size = args[2];
            let addr = args[3];
            let cursor = args[5];
            let ending_cursor_out = args[6];
            let nwritten_out = args[7];
            &&& takes("fastly_http_resp"@, "header_values_get"@, 8)
            &&& step == state.resp_header_values_get(
                memory,
                args[0],
                args[1],
                args[2],
                args[3],
                args[5],
                args[6],
                args[7],
            )
            &&& match memory {
                None => step == Some(
                    Step {
                        state,
                        memory,
                        answer: Err("failed to resolve exported host memory"@),
                    },
                ),
                Some(before) => if !(0 <= handle < state.responses.len()) {
                    step == Some(
                        Step { state, memory, answer: Err("Invalid response handler"@) },
                    )
                } else if !inside(before.len(), name_addr, name_size as int) {
                    step == Some(
                        Step { state, memory, answer: Err("Failed to read header name"@) },
                    )
                } else if !valid_field_name(taken_from(before, name_addr, name_size)) {
                    step is None
                } else {
                    lists(
                        step,
                        state,
                        before,
                        listed,
                        addr,
                        cursor,
                        ending_cursor_out,
                        nwritten_out,
                    )
                },
            }
        }),
{
    lemma_table();
    if 0 <= args[0] < state.responses.len() {
        if let Some(before) = memory {
            let name = taken_from(before, args[1], args[2]);
            if inside(before.len(), args[1], args[2] as int) && valid_field_name(name) {
                let fields = state.responses[args[0] as int].fields;
                lemma_taken(before, args[1], args[2]);
                lemma_values(fields, name);
                let values = values_of(fields, name);
                lemma_in_order(values, listed);
                lemma_listed(values, listed, before, args[3], args[5], args[6], args[7]);
            } else if inside(before.len(), args[1], args[2] as int) {
                lemma_taken(before, args[1], args[2]);
            }
        }
    }
}

/// `fastly_http_resp::header_values_set` adds the value at the fourth argument to the header field
/// whose name stands at the second, of the response at the first. Whatever field name and value
/// the guest can name, the value becomes the last one of that field, under its small letters,
/// the guest is answered 0, and nothing else changes. A header map with fewer than 6554 names
/// refuses none.
pub proof fn law_import_resp_header_values_set(
    state: State,
    memory: Option<Seq<u8>>,
    args: Seq<i32>,
)
    requires
        args.len() == 5,
    ensures
        ({
            let step = called(state, memory, "fastly_http_resp"@, "header_values_set"@, args);
            let handle = args[0];
            let name_addr = args[1];
            let name_size = args[2];
            let values_addr = args[3];
            let values_size = args[4];
            &&& takes("fastly_http_resp"@, "header_values_set"@, 5)
            &&& step == state.resp_header_values_set(
                memory,
                args[0],
                args[1],
                args[2],
                args[3],
                args[4],
            )
            &&& state.crowded(handle) ==> 0 <= handle < state.responses.len()
                && state.responses[handle as int].fields.dom().len() >= 6554
            &&& match memory {
                None => step == Some(
                    Step {
                        state,
                        memory,
                        answer: Err("failed to resolve exported host memory"@),
                    },
                ),
                Some(before) => {
                    let name = taken_from(before, name_addr, name_size);
                    let value = taken_from(before, values_addr, values_size);
                    if !(0 <= handle < state.responses.len()) {
                        step == Some(
                            Step { state, memory, answer: Err("Invalid response handler"@) },
                        )
                    } else if !inside(before.len(), name_addr, name_size as int) {
                        step == Some(
                            Step { state, memory, answer: Err("Failed to read header name"@) },
                        )
                    } else if !valid_field_name(name) {
                        step is None
                    } else if !inside(before.len(), values_addr, values_size as int) {
                        step == Some(
                            Step { state, memory, answer: Err("Failed to read header name"@) },
                        )
                    } else if !valid_field_value(value) {
                        step is None
                    } else {
                        let response = state.responses[handle as int];
                        let fields = response.fields.insert(
                            lower(name),
                            held_values(response.fields, name).push(value),
                        );
                        step == Some(
                            Step {
                                state: State {
                                    responses: state.responses.update(
                                        handle as int,
                                        ResponseView { fields, ..response },
                                    ),
                                    ..state
                                },
                                memory,
                                answer: Ok(0),
                            },
                        )
                    }
                },
            }
        }),
{
    lemma_table();
    if let Some(before) = memory {
        let name = taken_from(before, args[1], args[2]);
        lemma_taken(before, args[1], args[2]);
        lemma_taken(before, args[3], args[4]);
        if 0 <= args[0] < state.responses.len() && valid_field_name(name) {
            lemma_values(state.responses[args[0] as int].fields, name);
        }
    }
}

/// These functions answer 5, for not supported, whatever the guest passes, and change nothing.
/// The one of `fastly_abi` takes an `i64` and no `i32`.
pub proof fn law_unsupported_imports()
    ensures
        always_answers("fastly_abi"@, "init"@, 0, 5),
        always_answers("fastly_uap"@, "parse"@, 0, 5),
        always_answers("fastly_log"@, "endpoint_get"@, 0, 5),
        always_answers("fastly_log"@, "write"@, 0, 5),
        always_answers("fastly_http_req"@, "pending_req_poll"@, 0, 5),
        always_answers("fastly_http_req"@, "pending_req_select"@, 0, 5),
        always_answers("fastly_http_req"@, "req_downstream_tls_cipher_openssl_name"@, 0, 5),
        always_answers("fastly_http_req"@, "req_downstream_tls_protocol"@, 0, 5),
        always_answers("fastly_http_req"@, "downstream_tls_client_hello"@, 0, 5),
        always_answers("fastly_http_req"@, "header_insert"@, 0, 5),
        always_answers("fastly_http_req"@, "send_async"@, 0, 5),
        always_answers("fastly_http_req"@, "original_header_count"@, 0, 5),
        always_answers("fastly_http_req"@, "header_remove"@, 0, 5),
        always_answers("fastly_http_req"@, "downstream_client_ip_addr"@, 0, 5),
        always_answers("fastly_http_req"@, "original_header_names_get"@, 0, 5),
        always_answers("fastly_http_resp"@, "header_append"@, 0, 5),
        always_answers("fastly_http_resp"@, "header_insert"@, 0, 5),
        always_answers("fastly_http_resp"@, "header_value_get"@, 0, 5),
        always_answers("fastly_http_resp"@, "header_remove"@, 0, 5),
        always_answers("fastly_http_body"@, "close"@, 1, 5),
{
    lemma_table();
}

/// These functions answer 0, whatever the guest passes, and change nothing.
pub proof fn law_accepted_imports()
    ensures
        always_answers("fastly_http_req"@, "version_set"@, 2, 0),
        always_answers("fastly_http_req"@, "header_values_set"@, 5, 0),
        always_answers("fastly_http_req"@, "cache_override_set"@, 3, 0),
        always_answers("fastly_http_req"@, "cache_override_v2_set"@, 6, 0),
        always_answers("fastly_http_resp"@, "version_set"@, 2, 0),
        always_answers("fastly_http_resp"@, "header_names_get"@, 6, 0),
        always_answers("fastly_http_body"@, "read"@, 0, 0),
        always_answers("fastly_http_body"@, "append"@, 0, 0),
{
    lemma_table();
}

/// Whether the function that a guest imports under these names takes `params` arguments of
/// type `i32`, and answers `code` to each call without an effect.
pub open spec fn always_answers(
    module: Seq<char>,
    name: Seq<char>,
    params: nat,
    code: i32,
) -> bool {
    &&& takes(module, name, params)
    &&& forall|state: State, memory: Option<Seq<u8>>, args: Seq<i32>| #[trigger]
        called(state, memory, module, name, args) == Some(
            Step { state, memory, answer: Ok::<i32, Seq<char>>(code) },
        )
}

/// `fastly_http_req::send` hands out the request at the first argument with the body at the
/// second, for the backend whose name stands at the third, as many bytes as the fourth says:
/// encoded as UTF-8, the name that is handed out is those bytes. The request and the body leave
/// their tables. The guest is stopped only without a memory and where the name lies outside it.
pub proof fn law_import_send(state: State, memory: Option<Seq<u8>>, args: Seq<i32>)
    requires
        args.len() == 6,
    ensures
        ({
            let req_handle = args[0];
            let body_handle = args[1];
            let backend_addr = args[2];
            let backend_len = args[3];
            let sending = state.req_send(
                memory,
                req_handle,
                body_handle,
                backend_addr,
                backend_len,
            );
            &&& takes("fastly_http_req"@, "send"@, 6)
            &&& entry_of("fastly_http_req"@, "send"@) == Entry::ReqSend
            &&& match memory {
                None => {
                    &&& sending is Some
                    &&& sending->0.state == state
                    &&& sending->0.answer matches Err(message) && message
                        == "failed to resolve exported host memory"@
                },
                Some(before) => {
                    let name = taken_from(before, backend_addr, backend_len);
                    if !inside(before.len(), backend_addr, backend_len as int) {
                        &&& sending is Some
                        &&& sending->0.state == state
                        &&& sending->0.answer matches Err(message) && message
                            == "error reading backend name"@
                    } else if valid_utf8(name) && 0 <= req_handle < state.requests.len() && 0
                        <= body_handle < state.bodies.len() {
                        &&& sending is Some
                        &&& sending->0.state == (State {
                            requests: state.requests.remove(req_handle as int),
                            bodies: state.bodies.remove(body_handle as int),
                            ..state
                        })
                        &&& sending->0.answer is Ok
                        &&& encode_utf8(sending->0.answer->Ok_0.0) == name
                        &&& sending->0.answer->Ok_0.1 == (RequestView {
                            body: state.bodies[body_handle as int],
                            ..state.requests[req_handle as int]
                        })
                    } else {
                        sending is None
                    }
                },
            }
        }),
{
    broadcast use vstd::utf8::decode_utf8_encode_utf8;

    lemma_table();
    if let Some(before) = memory {
        lemma_taken(before, args[2], args[3]);
    }
}

/// Two guests that differ in the name of the backend alone have their requests sent to
/// different backends.
pub proof fn law_backends_differ_as_their_names_do(
    state: State,
    first: Seq<u8>,
    second: Seq<u8>,
    req_handle: i32,
    body_handle: i32,
    backend_addr: i32,
    backend_len: i32,
)
    requires
        state.req_send(Some(first), req_handle, body_handle, backend_addr, backend_len) is Some,
        state.req_send(Some(second), req_handle, body_handle, backend_addr, backend_len) is Some,
        inside(first.len(), backend_addr, backend_len as int),
        inside(second.len(), backend_addr, backend_len as int),
    ensures
        ({
            let one = state.req_send(
                Some(first),
                req_handle,
                body_handle,
                backend_addr,
                backend_len,
            )->0;
            let other = state.req_send(
                Some(second),
                req_handle,
                body_handle,
                backend_addr,
                backend_len,
            )->0;
            &&& one.answer is Ok
            &&& other.answer is Ok
            &&& one.answer->Ok_0.1 == other.answer->Ok_0.1
            &&& (one.answer->Ok_0.0 == other.answer->Ok_0.0) == (taken_from(
                first,
                backend_addr,
                backend_len,
            ) == taken_from(second, backend_addr, backend_len))
        }),
{
    let args = seq![req_handle, body_handle, backend_addr, backend_len, 0i32, 0i32];
    law_import_send(state, Some(first), args);
    law_import_send(state, Some(second), args);
    lemma_taken(first, backend_addr, backend_len);
    lemma_taken(second, backend_addr, backend_len);
}

/// Once a backend has answered, the head of its response is the last response and its body the
/// last body. The guest of `fastly_http_req::send` is told the number of responses there were
/// at the fifth argument, and then the number of bodies at the sixth.
pub proof fn law_import_sent(
    state: State,
    before: Seq<u8>,
    response: ResponseView,
    args: Seq<i32>,
)
    requires
        args.len() == 6,
    ensures
        ({
            let resp_handle_out = args[4];
            let resp_body_handle_out = args[5];
            let step = state.req_sent(before, response, resp_handle_out, resp_body_handle_out);
            if inside(before.len(), resp_handle_out, 4) && inside(
                before.len(),
                resp_body_handle_out,
                4,
            ) {
                &&& step is Some
                &&& step->0.answer == Ok::<i32, Seq<char>>(0)
                &&& step->0.state == (State {
                    responses: state.responses.push(
                        ResponseView { body: PayloadView::Bytes(Seq::empty()), ..response },
                    ),
                    bodies: state.bodies.push(response.body),
                    ..state
                })
                &&& step->0.memory is Some
                &&& state.responses.len() <= u32::MAX && state.bodies.len() <= u32::MAX
                    ==> words_told(
                    before,
                    step->0.memory->0,
                    resp_handle_out,
                    state.responses.len() as int,
                    resp_body_handle_out,
                    state.bodies.len() as int,
                )
            } else {
                step is None
            }
        }),
{
    lemma_words(
        before,
        args[4],
        state.responses.len() as u32,
        args[5],
        state.bodies.len() as u32,
    );
}

/// A guest can import 47 functions: whatever is offered to it stands in a table of that length.
pub proof fn law_nothing_else_is_in_the_table(module: Seq<char>, name: Seq<char>)
    requires
        offered(module, name),
    ensures
        imports().len() == 47,
        exists|i: int| 0 <= i < 47 && (#[trigger] imports()[i]).0 == module && imports()[i].1 == name,
{
    reveal(offered);
}

} // verus!
