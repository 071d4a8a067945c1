//! The calls that a guest can make of its host.
use crate::model::{State, Step};
use crate::status::unsupported;
use vstd::prelude::*;

verus! {

/// A host call with its arguments. Arguments that no host function heeds are left out.
#[derive(Clone, Copy, Debug)]
pub enum HostCall {
    /// A call that is not supported.
    Unsupported,
    /// A call that is accepted and has no effect.
    Accepted,
    BodyDownstreamGet { request_handle_out: i32, body_handle_out: i32 },
    ReqNew { request: i32 },
    ReqMethodGet { handle: i32, addr: i32, nwritten_out: i32 },
    ReqMethodSet { handle: i32, addr: i32, size: i32 },
    ReqUriGet { handle: i32, addr: i32, nwritten_out: i32 },
    ReqUriSet { rhandle: i32, addr: i32, size: i32 },
    ReqHeaderNamesGet {
        handle: i32,
        addr: i32,
        cursor: i32,
        ending_cursor_out: i32,
        nwritten_out: i32,
    },
    ReqHeaderValuesGet {
        handle: i32,
        name_addr: i32,
        name_size: i32,
        addr: i32,
        cursor: i32,
        ending_cursor_out: i32,
        nwritten_out: i32,
    },
    ReqVersionGet { handle: i32, version_out: i32 },
    BodyNew { handle_out: i32 },
    BodyWrite { handle: i32, addr: i32, size: i32, nwritten_out: i32 },
    RespNew { handle_out: i32 },
    RespSendDownstream { whandle: i32, bhandle: i32, stream: i32 },
    RespStatusGet { resp_handle: i32, status: i32 },
    RespStatusSet { whandle: i32, status: i32 },
    RespVersionGet { resp_handle: i32, version_out: i32 },
    RespHeaderValuesGet {
        handle: i32,
        name_addr: i32,
        name_size: i32,
        addr: i32,
        cursor: i32,
        ending_cursor_out: i32,
        nwritten_out: i32,
    },
    RespHeaderValuesSet {
        handle: i32,
        name_addr: i32,
        name_size: i32,
        values_addr: i32,
        values_size: i32,
    },
}

impl State {
    /// What `call` does.
    pub open spec fn host_call(self, memory: Option<Seq<u8>>, call: HostCall) -> Option<Step> {
        match call {
            HostCall::Unsupported => Some(
                Step { state: self, memory, answer: Ok(unsupported()) },
            ),
            HostCall::Accepted => self.done(memory),
            HostCall::BodyDownstreamGet {
                request_handle_out,
                body_handle_out,
            } => self.body_downstream_get(memory, request_handle_out, body_handle_out),
            HostCall::ReqNew { request } => self.req_new(memory, request),
            HostCall::ReqMethodGet { handle, addr, nwritten_out } => self.req_method_get(
                memory,
                handle,
                addr,
                nwritten_out,
            ),
            HostCall::ReqMethodSet { handle, addr, size } => self.req_method_set(
                memory,
                handle,
                addr,
                size,
            ),
            HostCall::ReqUriGet { handle, addr, nwritten_out } => self.req_uri_get(
                memory,
                handle,
                addr,
                nwritten_out,
            ),
            HostCall::ReqUriSet { rhandle, addr, size } => self.req_uri_set(
                memory,
                rhandle,
                addr,
                size,
            ),
            HostCall::ReqHeaderNamesGet {
                handle,
                addr,
                cursor,
                ending_cursor_out,
                nwritten_out,
            } => self.req_header_names_get(
                memory,
                handle,
                addr,
                cursor,
                ending_cursor_out,
                nwritten_out,
            ),
            HostCall::ReqHeaderValuesGet {
                handle,
                name_addr,
                name_size,
                addr,
                cursor,
                ending_cursor_out,
                nwritten_out,
            } => self.req_header_values_get(
                memory,
                handle,
                name_addr,
                name_size,
                addr,
                cursor,
                ending_cursor_out,
                nwritten_out,
            ),
            HostCall::ReqVersionGet { handle, version_out } => self.req_version_get(
                memory,
                handle,
                version_out,
            ),
            HostCall::BodyNew { handle_out } => self.body_new(memory, handle_out),
            HostCall::BodyWrite { handle, addr, size, nwritten_out } => self.body_write(
                memory,
                handle,
                addr,
                size,
                nwritten_out,
            ),
            HostCall::RespNew { handle_out } => self.resp_new(memory, handle_out),
            HostCall::RespSendDownstream {
                whandle,
                bhandle,
                stream,
            } => self.resp_send_downstream(memory, whandle, bhandle, stream),
            HostCall::RespStatusGet { resp_handle, status } => self.resp_status_get(
                memory,
                resp_handle,
                status,
            ),
            HostCall::RespStatusSet { whandle, status } => self.resp_status_set(
                memory,
                whandle,
                status,
            ),
            HostCall::RespVersionGet { resp_handle, version_out } => self.resp_version_get(
                memory,
                resp_handle,
                version_out,
            ),
            HostCall::RespHeaderValuesGet {
                handle,
                name_addr,
                name_size,
                addr,
                cursor,
                ending_cursor_out,
                nwritten_out,
            } => self.resp_header_values_get(
                memory,
                handle,
                name_addr,
                name_size,
                addr,
                cursor,
                ending_cursor_out,
                nwritten_out,
            ),
            HostCall::RespHeaderValuesSet {
                handle,
                name_addr,
                name_size,
                values_addr,
                values_size,
            } => self.resp_header_values_set(
                memory,
                handle,
                name_addr,
                name_size,
                values_addr,
                values_size,
            ),
        }
    }

    /// Whether a header map may be too full for `call`, which then cannot be carried out.
    pub open spec fn may_refuse(self, call: HostCall) -> bool {
        call matches HostCall::RespHeaderValuesSet { handle, .. } && self.crowded(handle)
    }
}

} // verus!
