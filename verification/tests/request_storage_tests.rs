//! Tests for the request builder and the storage facade.

use fxa_client::request::{BackendSettings, FairyBridgeError, Method, Request, Response};
use fxa_client::storage::{RemoteSettingsRecord, Storage};

#[test]
fn request_builders_set_method_and_url() {
    let req = Request::new(Method::Head, "https://example.com/a".to_owned());
    assert_eq!(req.method, Method::Head);
    assert_eq!(req.url, "https://example.com/a");
    assert!(req.headers.is_empty());
    assert!(req.body.is_none());

    assert_eq!(Request::get("u".to_owned()).method, Method::Get);
    assert_eq!(Request::patch("u".to_owned()).method, Method::Patch);
    assert_eq!(Request::post("u".to_owned()).method, Method::Post);
    assert_eq!(Request::put("u".to_owned()).method, Method::Put);
    assert_eq!(Request::delete("u".to_owned()).method, Method::Delete);
}

#[test]
fn request_body_is_attached() {
    let req = Request::post("https://example.com/b".to_owned()).body(vec![1, 2, 3]);
    assert_eq!(req.body, Some(vec![1, 2, 3]));
    assert_eq!(req.method, Method::Post);
    assert_eq!(req.url, "https://example.com/b");
}

#[test]
fn response_default_is_empty() {
    let resp = Response::default();
    assert_eq!(resp.url, "");
    assert_eq!(resp.status, 0);
    assert!(resp.headers.is_empty());
    assert!(resp.body.is_empty());
}

#[test]
fn backend_settings_defaults() {
    let settings = BackendSettings::default();
    assert_eq!(settings.connect_timeout, 0);
    assert_eq!(settings.timeout, 0);
    assert_eq!(settings.redirect_limit, 10);
}

#[test]
fn bridge_error_messages() {
    assert_eq!(
        FairyBridgeError::BackendAlreadyInitialized.message(),
        "BackendAlreadyInitialized"
    );
    assert_eq!(
        FairyBridgeError::HttpError { code: 404 }.message(),
        "HttpError(404)"
    );
    assert_eq!(
        FairyBridgeError::BackendError { msg: "socket closed".to_owned() }.message(),
        "BackendError(socket closed)"
    );
    assert_eq!(
        FairyBridgeError::InvalidRequestHeader { name: "X Y".to_owned() }.message(),
        "InvalidRequestHeader(X Y)"
    );
}

#[test]
fn storage_reports_no_stored_records() {
    let storage = Storage::new("/tmp/storage.sqlite").unwrap();
    assert_eq!(storage.get_records(), Ok(None));
    assert_eq!(storage.last_modified_time(), Ok(None));
    let records = vec![RemoteSettingsRecord {
        id: "r1".to_owned(),
        last_modified: 42,
        deleted: false,
    }];
    assert_eq!(storage.update_records(records, 42), Ok(()));
    // The facade keeps nothing: queries still answer `None`.
    assert_eq!(storage.get_records(), Ok(None));
    assert_eq!(storage.last_modified_time(), Ok(None));
}
