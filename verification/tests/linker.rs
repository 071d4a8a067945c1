use fasttime::call::HostCall;
use fasttime::linker::Entry;
use fasttime::Handler;

fn entry(module: &str, name: &str) -> Option<Entry> {
    let mut found = None;
    for import in Handler::linker() {
        if import.module == module && import.name == name {
            assert!(found.is_none());
            found = Some(import.entry);
        }
    }
    found
}

#[test]
fn every_import_is_there_once() {
    let imports = Handler::linker();
    assert_eq!(imports.len(), 47);
    for import in &imports {
        assert_eq!(entry(import.module, import.name), Some(import.entry));
    }
}

#[test]
fn imports_stand_for_their_functions() {
    assert_eq!(entry("fastly_abi", "init"), Some(Entry::UnsupportedI64));
    assert_eq!(entry("fastly_uap", "parse"), Some(Entry::Unsupported));
    assert_eq!(entry("fastly_http_body", "close"), Some(Entry::UnsupportedI32));
    assert_eq!(entry("fastly_http_body", "read"), Some(Entry::Accepted { params: 0 }));
    assert_eq!(entry("fastly_http_req", "new"), Some(Entry::ReqNew));
    assert_eq!(entry("fastly_http_resp", "new"), Some(Entry::RespNew));
    assert_eq!(entry("fastly_http_body", "new"), Some(Entry::BodyNew));
    assert_eq!(entry("fastly_http_req", "send"), Some(Entry::ReqSend));
    assert_eq!(entry("fastly_http_req", "header_values_set"), Some(Entry::Accepted { params: 5 }));
    assert_eq!(entry("fastly_http_resp", "header_values_set"), Some(Entry::RespHeaderValuesSet));
    assert_eq!(entry("fastly_http_resp", "header_names_get"), Some(Entry::Accepted { params: 6 }));
    assert_eq!(entry("fastly_http_req", "no_such_function"), None);
}

#[test]
fn arguments_go_where_they_belong() {
    let args = [10, 11, 12, 13, 14, 15, 16, 17];
    assert_eq!(Entry::ReqHeaderValuesGet.params(), 8);
    assert!(matches!(
        Entry::ReqHeaderValuesGet.host_call(&args),
        Some(HostCall::ReqHeaderValuesGet {
            handle: 10,
            name_addr: 11,
            name_size: 12,
            addr: 13,
            cursor: 15,
            ending_cursor_out: 16,
            nwritten_out: 17,
        })
    ));
    assert!(matches!(
        Entry::ReqHeaderNamesGet.host_call(&args[..6]),
        Some(HostCall::ReqHeaderNamesGet {
            handle: 10,
            addr: 11,
            cursor: 13,
            ending_cursor_out: 14,
            nwritten_out: 15,
        })
    ));
    assert!(matches!(
        Entry::BodyWrite.host_call(&args[..5]),
        Some(HostCall::BodyWrite { handle: 10, addr: 11, size: 12, nwritten_out: 14 })
    ));
    assert!(matches!(
        Entry::ReqMethodGet.host_call(&args[..4]),
        Some(HostCall::ReqMethodGet { handle: 10, addr: 11, nwritten_out: 13 })
    ));
    assert!(Entry::ReqSend.host_call(&args[..6]).is_none());
    assert!(matches!(Entry::UnsupportedI32.host_call(&args[..1]), Some(HostCall::Unsupported)));
    assert!(matches!(Entry::Accepted { params: 2 }.host_call(&args[..2]), Some(HostCall::Accepted)));
}
