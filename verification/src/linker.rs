//! The functions that a guest can import, and what becomes of a call of each.
use crate::call::HostCall;
use crate::handler::Handler;
use vstd::prelude::*;

verus! {

/// What stands behind a function that a guest imports.
#[derive(Clone, Copy, Debug, PartialEq, Eq, Structural)]
pub enum Entry {
    /// Not supported, without parameters.
    Unsupported,
    /// Not supported, with one `i32`.
    UnsupportedI32,
    /// Not supported, with one `i64`.
    UnsupportedI64,
    /// Accepted without effect, with `params` parameters of type `i32`.
    Accepted { params: usize },
    BodyDownstreamGet,
    ReqNew,
    ReqMethodGet,
    ReqMethodSet,
    ReqUriGet,
    ReqUriSet,
    ReqHeaderNamesGet,
    ReqHeaderValuesGet,
    ReqVersionGet,
    ReqSend,
    BodyNew,
    BodyWrite,
    RespNew,
    RespSendDownstream,
    RespStatusGet,
    RespStatusSet,
    RespVersionGet,
    RespHeaderValuesGet,
    RespHeaderValuesSet,
}

impl Entry {
    /// The number of `i32` parameters. Only [`Entry::UnsupportedI64`] has one of another
    /// type.
    pub open spec fn arity(self) -> nat {
        match self {
            Entry::Unsupported => 0,
            Entry::UnsupportedI32 => 1,
            Entry::UnsupportedI64 => 0,
            Entry::Accepted { params } => params as nat,
            Entry::BodyDownstreamGet => 2,
            Entry::ReqNew => 1,
            Entry::ReqMethodGet => 4,
            Entry::ReqMethodSet => 3,
            Entry::ReqUriGet => 4,
            Entry::ReqUriSet => 3,
            Entry::ReqHeaderNamesGet => 6,
            Entry::ReqHeaderValuesGet => 8,
            Entry::ReqVersionGet => 2,
            Entry::ReqSend => 6,
            Entry::BodyNew => 1,
            Entry::BodyWrite => 5,
            Entry::RespNew => 1,
            Entry::RespSendDownstream => 3,
            Entry::RespStatusGet => 2,
            Entry::RespStatusSet => 2,
            Entry::RespVersionGet => 2,
            Entry::RespHeaderValuesGet => 8,
            Entry::RespHeaderValuesSet => 5,
        }
    }

    /// The call that a guest makes with the arguments `args`, or `None` for the one that
    /// waits for a backend.
    pub open spec fn meant(self, args: Seq<i32>) -> Option<HostCall> {
        match self {
            Entry::Unsupported => Some(HostCall::Unsupported),
            Entry::UnsupportedI32 => Some(HostCall::Unsupported),
            Entry::UnsupportedI64 => Some(HostCall::Unsupported),
            Entry::Accepted { params } => Some(HostCall::Accepted),
            Entry::BodyDownstreamGet => Some(
                HostCall::BodyDownstreamGet {
                    request_handle_out: args[0],
                    body_handle_out: args[1],
                },
            ),
            Entry::ReqNew => Some(HostCall::ReqNew { request: args[0] }),
            Entry::ReqMethodGet => Some(
                HostCall::ReqMethodGet { handle: args[0], addr: args[1], nwritten_out: args[3] },
            ),
            Entry::ReqMethodSet => Some(
                HostCall::ReqMethodSet { handle: args[0], addr: args[1], size: args[2] },
            ),
            Entry::ReqUriGet => Some(
                HostCall::ReqUriGet { handle: args[0], addr: args[1], nwritten_out: args[3] },
            ),
            Entry::ReqUriSet => Some(
                HostCall::ReqUriSet { rhandle: args[0], addr: args[1], size: args[2] },
            ),
            Entry::ReqHeaderNamesGet => Some(
                HostCall::ReqHeaderNamesGet {
                    handle: args[0],
                    addr: args[1],
                    cursor: args[3],
                    ending_cursor_out: args[4],
                    nwritten_out: args[5],
                },
            ),
            Entry::ReqHeaderValuesGet => Some(
                HostCall::ReqHeaderValuesGet {
                    handle: args[0],
                    name_addr: args[1],
                    name_size: args[2],
                    addr: args[3],
                    cursor: args[5],
                    ending_cursor_out: args[6],
                    nwritten_out: args[7],
                },
            ),
            Entry::ReqVersionGet => Some(
                HostCall::ReqVersionGet { handle: args[0], version_out: args[1] },
            ),
            Entry::ReqSend => None,
            Entry::BodyNew => Some(HostCall::BodyNew { handle_out: args[0] }),
            Entry::BodyWrite => Some(
                HostCall::BodyWrite {
                    handle: args[0],
                    addr: args[1],
                    size: args[2],
                    nwritten_out: args[4],
                },
            ),
            Entry::RespNew => Some(HostCall::RespNew { handle_out: args[0] }),
            Entry::RespSendDownstream => Some(
                HostCall::RespSendDownstream { whandle: args[0], bhandle: args[1], stream: args[2] },
            ),
            Entry::RespStatusGet => Some(
                HostCall::RespStatusGet { resp_handle: args[0], status: args[1] },
            ),
            Entry::RespStatusSet => Some(
                HostCall::RespStatusSet { whandle: args[0], status: args[1] },
            ),
            Entry::RespVersionGet => Some(
                HostCall::RespVersionGet { resp_handle: args[0], version_out: args[1] },
            ),
            Entry::RespHeaderValuesGet => Some(
                HostCall::RespHeaderValuesGet {
                    handle: args[0],
                    name_addr: args[1],
                    name_size: args[2],
                    addr: args[3],
                    cursor: args[5],
                    ending_cursor_out: args[6],
                    nwritten_out: args[7],
                },
            ),
            Entry::RespHeaderValuesSet => Some(
                HostCall::RespHeaderValuesSet {
                    handle: args[0],
                    name_addr: args[1],
                    name_size: args[2],
                    values_addr: args[3],
                    values_size: args[4],
                },
            ),
        }
    }

    /// The number of `i32` parameters.
    pub fn params(self) -> (r: usize)
        ensures
            r == self.arity(),
    {
        match self {
            Entry::Unsupported => 0,
            Entry::UnsupportedI32 => 1,
            Entry::UnsupportedI64 => 0,
            Entry::Accepted { params } => params,
            Entry::BodyDownstreamGet => 2,
            Entry::ReqNew => 1,
            Entry::ReqMethodGet => 4,
            Entry::ReqMethodSet => 3,
            Entry::ReqUriGet => 4,
            Entry::ReqUriSet => 3,
            Entry::ReqHeaderNamesGet => 6,
            Entry::ReqHeaderValuesGet => 8,
            Entry::ReqVersionGet => 2,
            Entry::ReqSend => 6,
            Entry::BodyNew => 1,
            Entry::BodyWrite => 5,
            Entry::RespNew => 1,
            Entry::RespSendDownstream => 3,
            Entry::RespStatusGet => 2,
            Entry::RespStatusSet => 2,
            Entry::RespVersionGet => 2,
            Entry::RespHeaderValuesGet => 8,
            Entry::RespHeaderValuesSet => 5,
        }
    }

    /// Reads the arguments of a call.
    pub fn host_call(self, args: &[i32]) -> (r: Option<HostCall>)
        requires
            args@.len() == self.arity(),
        ensures
            r == self.meant(args@),
    {
        match self {
            Entry::Unsupported => Some(HostCall::Unsupported),
            Entry::UnsupportedI32 => Some(HostCall::Unsupported),
            Entry::UnsupportedI64 => Some(HostCall::Unsupported),
            Entry::Accepted { params } => Some(HostCall::Accepted),
            Entry::BodyDownstreamGet => Some(
                HostCall::BodyDownstreamGet {
                    request_handle_out: args[0],
                    body_handle_out: args[1],
                },
            ),
            Entry::ReqNew => Some(HostCall::ReqNew { request: args[0] }),
            Entry::ReqMethodGet => Some(
                HostCall::ReqMethodGet { handle: args[0], addr: args[1], nwritten_out: args[3] },
            ),
            Entry::ReqMethodSet => Some(
                HostCall::ReqMethodSet { handle: args[0], addr: args[1], size: args[2] },
            ),
            Entry::ReqUriGet => Some(
                HostCall::ReqUriGet { handle: args[0], addr: args[1], nwritten_out: args[3] },
            ),
            Entry::ReqUriSet => Some(
                HostCall::ReqUriSet { rhandle: args[0], addr: args[1], size: args[2] },
            ),
            Entry::ReqHeaderNamesGet => Some(
                HostCall::ReqHeaderNamesGet {
                    handle: args[0],
                    addr: args[1],
                    cursor: args[3],
                    ending_cursor_out: args[4],
                    nwritten_out: args[5],
                },
            ),
            Entry::ReqHeaderValuesGet => Some(
                HostCall::ReqHeaderValuesGet {
                    handle: args[0],
                    name_addr: args[1],
                    name_size: args[2],
                    addr: args[3],
                    cursor: args[5],
                    ending_cursor_out: args[6],
                    nwritten_out: args[7],
                },
            ),
            Entry::ReqVersionGet => Some(
                HostCall::ReqVersionGet { handle: args[0], version_out: args[1] },
            ),
            Entry::ReqSend => None,
            Entry::BodyNew => Some(HostCall::BodyNew { handle_out: args[0] }),
            Entry::BodyWrite => Some(
                HostCall::BodyWrite {
                    handle: args[0],
                    addr: args[1],
                    size: args[2],
                    nwritten_out: args[4],
                },
            ),
            Entry::RespNew => Some(HostCall::RespNew { handle_out: args[0] }),
            Entry::RespSendDownstream => Some(
                HostCall::RespSendDownstream { whandle: args[0], bhandle: args[1], stream: args[2] },
            ),
            Entry::RespStatusGet => Some(
                HostCall::RespStatusGet { resp_handle: args[0], status: args[1] },
            ),
            Entry::RespStatusSet => Some(
                HostCall::RespStatusSet { whandle: args[0], status: args[1] },
            ),
            Entry::RespVersionGet => Some(
                HostCall::RespVersionGet { resp_handle: args[0], version_out: args[1] },
            ),
            Entry::RespHeaderValuesGet => Some(
                HostCall::RespHeaderValuesGet {
                    handle: args[0],
                    name_addr: args[1],
                    name_size: args[2],
                    addr: args[3],
                    cursor: args[5],
                    ending_cursor_out: args[6],
                    nwritten_out: args[7],
                },
            ),
            Entry::RespHeaderValuesSet => Some(
                HostCall::RespHeaderValuesSet {
                    handle: args[0],
                    name_addr: args[1],
                    name_size: args[2],
                    values_addr: args[3],
                    values_size: args[4],
                },
            ),
        }
    }
}

/// A function that a guest can import.
pub struct Import {
    pub module: &'static str,
    pub name: &'static str,
    pub entry: Entry,
}

impl View for Import {
    type V = (Seq<char>, Seq<char>, Entry);

    open spec fn view(&self) -> (Seq<char>, Seq<char>, Entry) {
        (self.module@, self.name@, self.entry)
    }
}

/// The functions that a guest can import: the module, the name and what stands behind it.
pub open spec fn imports() -> Seq<(Seq<char>, Seq<char>, Entry)> {
    seq![
        ("fastly_abi"@, "init"@, Entry::UnsupportedI64),
        ("fastly_uap"@, "parse"@, Entry::Unsupported),
        ("fastly_log"@, "endpoint_get"@, Entry::Unsupported),
        ("fastly_log"@, "write"@, Entry::Unsupported),
        ("fastly_http_req"@, "pending_req_poll"@, Entry::Unsupported),
        ("fastly_http_req"@, "pending_req_select"@, Entry::Unsupported),
        ("fastly_http_req"@, "req_downstream_tls_cipher_openssl_name"@, Entry::Unsupported),
        ("fastly_http_req"@, "req_downstream_tls_protocol"@, Entry::Unsupported),
        ("fastly_http_req"@, "downstream_tls_client_hello"@, Entry::Unsupported),
        ("fastly_http_req"@, "header_insert"@, Entry::Unsupported),
        ("fastly_http_req"@, "send_async"@, Entry::Unsupported),
        ("fastly_http_req"@, "original_header_count"@, Entry::Unsupported),
        ("fastly_http_req"@, "header_remove"@, Entry::Unsupported),
        ("fastly_http_req"@, "body_downstream_get"@, Entry::BodyDownstreamGet),
        ("fastly_http_req"@, "downstream_client_ip_addr"@, Entry::Unsupported),
        ("fastly_http_req"@, "new"@, Entry::ReqNew),
        ("fastly_http_req"@, "version_get"@, Entry::ReqVersionGet),
        ("fastly_http_req"@, "version_set"@, Entry::Accepted { params: 2 }),
        ("fastly_http_req"@, "method_get"@, Entry::ReqMethodGet),
        ("fastly_http_req"@, "method_set"@, Entry::ReqMethodSet),
        ("fastly_http_req"@, "uri_get"@, Entry::ReqUriGet),
        ("fastly_http_req"@, "uri_set"@, Entry::ReqUriSet),
        ("fastly_http_req"@, "header_names_get"@, Entry::ReqHeaderNamesGet),
        ("fastly_http_req"@, "header_values_get"@, Entry::ReqHeaderValuesGet),
        ("fastly_http_req"@, "header_values_set"@, Entry::Accepted { params: 5 }),
        ("fastly_http_req"@, "send"@, Entry::ReqSend),
        ("fastly_http_req"@, "cache_override_set"@, Entry::Accepted { params: 3 }),
        ("fastly_http_req"@, "cache_override_v2_set"@, Entry::Accepted { params: 6 }),
        ("fastly_http_req"@, "original_header_names_get"@, Entry::Unsupported),
        ("fastly_http_resp"@, "header_append"@, Entry::Unsupported),
        ("fastly_http_resp"@, "header_insert"@, Entry::Unsupported),
        ("fastly_http_resp"@, "header_value_get"@, Entry::Unsupported),
        ("fastly_http_resp"@, "header_remove"@, Entry::Unsupported),
        ("fastly_http_resp"@, "new"@, Entry::RespNew),
        ("fastly_http_resp"@, "send_downstream"@, Entry::RespSendDownstream),
        ("fastly_http_resp"@, "status_get"@, Entry::RespStatusGet),
        ("fastly_http_resp"@, "status_set"@, Entry::RespStatusSet),
        ("fastly_http_resp"@, "version_get"@, Entry::RespVersionGet),
        ("fastly_http_resp"@, "version_set"@, Entry::Accepted { params: 2 }),
        ("fastly_http_resp"@, "header_names_get"@, Entry::Accepted { params: 6 }),
        ("fastly_http_resp"@, "header_values_get"@, Entry::RespHeaderValuesGet),
        ("fastly_http_resp"@, "header_values_set"@, Entry::RespHeaderValuesSet),
        ("fastly_http_body"@, "close"@, Entry::UnsupportedI32),
        ("fastly_http_body"@, "new"@, Entry::BodyNew),
        ("fastly_http_body"@, "write"@, Entry::BodyWrite),
        ("fastly_http_body"@, "read"@, Entry::Accepted { params: 0 }),
        ("fastly_http_body"@, "append"@, Entry::Accepted { params: 0 }),
    ]
}

fn import(module: &'static str, name: &'static str, entry: Entry) -> (r: Import)
    ensures
        r@ == (module@, name@, entry),
{
    Import { module, name, entry }
}

impl Handler {
    /// Lists the functions that a guest can import.
    pub fn linker() -> (r: Vec<Import>)
        ensures
            r@.map_values(|import: Import| import@) == imports(),
    {
        let all: Vec<Import> = vec![
            import("fastly_abi", "init", Entry::UnsupportedI64),
            import("fastly_uap", "parse", Entry::Unsupported),
            import("fastly_log", "endpoint_get", Entry::Unsupported),
            import("fastly_log", "write", Entry::Unsupported),
            import("fastly_http_req", "pending_req_poll", Entry::Unsupported),
            import("fastly_http_req", "pending_req_select", Entry::Unsupported),
            import("fastly_http_req", "req_downstream_tls_cipher_openssl_name", Entry::Unsupported),
            import("fastly_http_req", "req_downstream_tls_protocol", Entry::Unsupported),
            import("fastly_http_req", "downstream_tls_client_hello", Entry::Unsupported),
            import("fastly_http_req", "header_insert", Entry::Unsupported),
            import("fastly_http_req", "send_async", Entry::Unsupported),
            import("fastly_http_req", "original_header_count", Entry::Unsupported),
            import("fastly_http_req", "header_remove", Entry::Unsupported),
            import("fastly_http_req", "body_downstream_get", Entry::BodyDownstreamGet),
            import("fastly_http_req", "downstream_client_ip_addr", Entry::Unsupported),
            import("fastly_http_req", "new", Entry::ReqNew),
            import("fastly_http_req", "version_get", Entry::ReqVersionGet),
            import("fastly_http_req", "version_set", Entry::Accepted { params: 2 }),
            import("fastly_http_req", "method_get", Entry::ReqMethodGet),
            import("fastly_http_req", "method_set", Entry::ReqMethodSet),
            import("fastly_http_req", "uri_get", Entry::ReqUriGet),
            import("fastly_http_req", "uri_set", Entry::ReqUriSet),
            import("fastly_http_req", "header_names_get", Entry::ReqHeaderNamesGet),
            import("fastly_http_req", "header_values_get", Entry::ReqHeaderValuesGet),
            import("fastly_http_req", "header_values_set", Entry::Accepted { params: 5 }),
            import("fastly_http_req", "send", Entry::ReqSend),
            import("fastly_http_req", "cache_override_set", Entry::Accepted { params: 3 }),
            import("fastly_http_req", "cache_override_v2_set", Entry::Accepted { params: 6 }),
            import("fastly_http_req", "original_header_names_get", Entry::Unsupported),
            import("fastly_http_resp", "header_append", Entry::Unsupported),
            import("fastly_http_resp", "header_insert", Entry::Unsupported),
            import("fastly_http_resp", "header_value_get", Entry::Unsupported),
            import("fastly_http_resp", "header_remove", Entry::Unsupported),
            import("fastly_http_resp", "new", Entry::RespNew),
            import("fastly_http_resp", "send_downstream", Entry::RespSendDownstream),
            import("fastly_http_resp", "status_get", Entry::RespStatusGet),
            import("fastly_http_resp", "status_set", Entry::RespStatusSet),
            import("fastly_http_resp", "version_get", Entry::RespVersionGet),
            import("fastly_http_resp", "version_set", Entry::Accepted { params: 2 }),
            import("fastly_http_resp", "header_names_get", Entry::Accepted { params: 6 }),
            import("fastly_http_resp", "header_values_get", Entry::RespHeaderValuesGet),
            import("fastly_http_resp", "header_values_set", Entry::RespHeaderValuesSet),
            import("fastly_http_body", "close", Entry::UnsupportedI32),
            import("fastly_http_body", "new", Entry::BodyNew),
            import("fastly_http_body", "write", Entry::BodyWrite),
            import("fastly_http_body", "read", Entry::Accepted { params: 0 }),
            import("fastly_http_body", "append", Entry::Accepted { params: 0 }),
        ];
        assert(all@.map_values(|import: Import| import@) =~= imports());
        all
    }
}

/// Tells two imports apart by their modules and names.
spec fn fingerprint(module: Seq<char>, name: Seq<char>) -> int {
    let near_end = if name.len() < 5 {
        0
    } else {
        name.len() - 5
    };
    ((module[module.len() - 1] as int * 100 + name.len()) * 1000 + name[name.len() - 3] as int)
        * 1000 + name[near_end] as int
}

/// No two functions that a guest can import share module and name.
pub proof fn law_imports_are_distinct(i: int, j: int)
    requires
        0 <= i < j < imports().len(),
    ensures
        (imports()[i].0, imports()[i].1) != (imports()[j].0, imports()[j].1),
{
    reveal_strlit("fastly_abi");
    reveal_strlit("init");
    reveal_strlit("fastly_uap");
    reveal_strlit("parse");
    reveal_strlit("fastly_log");
    reveal_strlit("endpoint_get");
    reveal_strlit("write");
    reveal_strlit("fastly_http_req");
    reveal_strlit("pending_req_poll");
    reveal_strlit("pending_req_select");
    reveal_strlit("req_downstream_tls_cipher_openssl_name");
    reveal_strlit("req_downstream_tls_protocol");
    reveal_strlit("downstream_tls_client_hello");
    reveal_strlit("header_insert");
    reveal_strlit("send_async");
    reveal_strlit("original_header_count");
    reveal_strlit("header_remove");
    reveal_strlit("body_downstream_get");
    reveal_strlit("downstream_client_ip_addr");
    reveal_strlit("new");
    reveal_strlit("version_get");
    reveal_strlit("version_set");
    reveal_strlit("method_get");
    reveal_strlit("method_set");
    reveal_strlit("uri_get");
    reveal_strlit("uri_set");
    reveal_strlit("header_names_get");
    reveal_strlit("header_values_get");
    reveal_strlit("header_values_set");
    reveal_strlit("send");
    reveal_strlit("cache_override_set");
    reveal_strlit("cache_override_v2_set");
    reveal_strlit("original_header_names_get");
    reveal_strlit("fastly_http_resp");
    reveal_strlit("header_append");
    reveal_strlit("header_value_get");
    reveal_strlit("send_downstream");
    reveal_strlit("status_get");
    reveal_strlit("status_set");
    reveal_strlit("fastly_http_body");
    reveal_strlit("close");
    reveal_strlit("read");
    reveal_strlit("append");
    let all = imports();
    assert(fingerprint(all[i].0, all[i].1) != fingerprint(all[j].0, all[j].1));
}

} // verus!
