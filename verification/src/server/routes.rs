pub mod power;

use vstd::prelude::*;

use crate::autostart::AutostartBackend;
use crate::clipboard::ClipboardBackend;
use crate::config::AppConfig;
use crate::error::BackendError;
use crate::notify::{NotificationBackend, NotifyRequest};

verus! {

/// HTTP status: the operation is disabled in the configuration.
pub const STATUS_FORBIDDEN: u16 = 403;

/// HTTP status: the request body is not acceptable.
pub const STATUS_BAD_REQUEST: u16 = 400;

/// HTTP status: a backend operation failed.
pub const STATUS_INTERNAL_SERVER_ERROR: u16 = 500;

/// A refused request: the HTTP status and the message of the JSON `error` field.
#[derive(Debug)]
pub struct ApiError {
    pub status: u16,
    pub message: String,
}

/// The message of a request to a disabled operation.
pub open spec fn disabled_message(operation: Seq<char>) -> Seq<char> {
    operation + " operation is disabled"@
}

/// Refuses the request with 403 unless `operation` is enabled in `config`.
pub fn check_enabled(config: &AppConfig, operation: &str) -> (r: Result<(), ApiError>)
    ensures
        r is Ok <==> config.enabled_set().contains(operation@),
        r matches Err(e) ==> e.status == STATUS_FORBIDDEN && e.message@ == disabled_message(
            operation@,
        ),
{
    if config.is_operation_enabled(operation) {
        Ok(())
    } else {
        let mut message = String::from_str(operation);
        message.append(" operation is disabled");
        Err(ApiError { status: STATUS_FORBIDDEN, message })
    }
}

/// `GET /api/v1/health`: answers that the relay is up, unless the operation is
/// disabled, like every other endpoint.
pub fn health(config: &AppConfig) -> (r: Result<(), ApiError>)
    ensures
        r is Ok <==> config.enabled_set().contains("health"@),
        r matches Err(e) ==> e.status == STATUS_FORBIDDEN && e.message@ == disabled_message(
            "health"@,
        ),
{
    check_enabled(config, "health")
}

/// A 500 answer with `message`.
fn internal_error(message: &str) -> (r: ApiError)
    ensures
        r.status == STATUS_INTERNAL_SERVER_ERROR,
        r.message@ == message@,
{
    ApiError { status: STATUS_INTERNAL_SERVER_ERROR, message: String::from_str(message) }
}

/// The answer to a notification request once the notifier has run.
pub fn notify_response(delivered: Result<(), BackendError>) -> (r: Result<(), ApiError>)
    ensures
        delivered is Ok ==> r is Ok,
        delivered is Err ==> (r matches Err(e) && e.status == STATUS_INTERNAL_SERVER_ERROR
            && e.message@ == "notification delivery failed"@),
{
    match delivered {
        Ok(()) => Ok(()),
        Err(_) => Err(internal_error("notification delivery failed")),
    }
}

/// `POST /api/v1/notify`: shows the notification unless the operation is disabled.
pub fn notify<N: NotificationBackend>(config: &AppConfig, notifier: &N, req: &NotifyRequest) -> (r:
    Result<(), ApiError>)
    ensures
        !config.enabled_set().contains("notify"@) ==> (r matches Err(e) && e.status
            == STATUS_FORBIDDEN && e.message@ == disabled_message("notify"@)),
        config.enabled_set().contains("notify"@) ==> (r is Ok || (r matches Err(e) && e.status
            == STATUS_INTERNAL_SERVER_ERROR && e.message@ == "notification delivery failed"@)),
        config.enabled_set().contains("notify"@) ==> exists|d: Result<(), BackendError>|
            #[trigger] notifier.delivers(req@, d) && (d is Ok <==> r is Ok),
{
    match check_enabled(config, "notify") {
        Ok(()) => {},
        Err(e) => {
            return Err(e);
        },
    }
    let delivered = notifier.notify(req);
    notify_response(delivered)
}

/// The answer to a clipboard image request once the clipboard has been read.
pub fn clipboard_response(read: Result<Vec<u8>, BackendError>) -> (r: Result<Vec<u8>, ApiError>)
    ensures
        read matches Ok(png) ==> (r matches Ok(body) && body@ == png@),
        read is Err ==> (r matches Err(e) && e.status == STATUS_INTERNAL_SERVER_ERROR
            && e.message@ == "clipboard read failed"@),
{
    match read {
        Ok(png) => Ok(png),
        Err(_) => Err(internal_error("clipboard read failed")),
    }
}

/// `GET /api/v1/clipboard/image`: the clipboard image as PNG bytes unless the
/// operation is disabled.
pub fn clipboard_image<C: ClipboardBackend>(config: &AppConfig, clipboard: &C) -> (r: Result<
    Vec<u8>,
    ApiError,
>)
    ensures
        !config.enabled_set().contains("clipboard"@) ==> (r matches Err(e) && e.status
            == STATUS_FORBIDDEN && e.message@ == disabled_message("clipboard"@)),
        config.enabled_set().contains("clipboard"@) ==> (r is Ok || (r matches Err(e)
            && e.status == STATUS_INTERNAL_SERVER_ERROR && e.message@
            == "clipboard read failed"@)),
        config.enabled_set().contains("clipboard"@) ==> exists|read: Result<Vec<u8>, BackendError>|
            #[trigger] clipboard.reads(read) && (read is Ok <==> r is Ok) && (read matches Ok(png)
                ==> (r matches Ok(body) && body@ == png@)),
{
    match check_enabled(config, "clipboard") {
        Ok(()) => {},
        Err(e) => {
            return Err(e);
        },
    }
    clipboard_response(clipboard.read_image())
}

/// The answer to an autostart status request once the backend has answered.
pub fn autostart_status_response(status: Result<bool, BackendError>) -> (r: Result<bool, ApiError>)
    ensures
        status matches Ok(enabled) ==> r == Ok::<bool, ApiError>(enabled),
        status is Err ==> (r matches Err(e) && e.status == STATUS_INTERNAL_SERVER_ERROR
            && e.message@ == "autostart status check failed"@),
{
    match status {
        Ok(enabled) => Ok(enabled),
        Err(_) => Err(internal_error("autostart status check failed")),
    }
}

/// The answer to an autostart enable request once the backend has run.
pub fn autostart_enable_response(done: Result<(), BackendError>) -> (r: Result<(), ApiError>)
    ensures
        done is Ok ==> r is Ok,
        done is Err ==> (r matches Err(e) && e.status == STATUS_INTERNAL_SERVER_ERROR
            && e.message@ == "autostart enable failed"@),
{
    match done {
        Ok(()) => Ok(()),
        Err(_) => Err(internal_error("autostart enable failed")),
    }
}

/// The answer to an autostart disable request once the backend has run.
pub fn autostart_disable_response(done: Result<(), BackendError>) -> (r: Result<(), ApiError>)
    ensures
        done is Ok ==> r is Ok,
        done is Err ==> (r matches Err(e) && e.status == STATUS_INTERNAL_SERVER_ERROR
            && e.message@ == "autostart disable failed"@),
{
    match done {
        Ok(()) => Ok(()),
        Err(_) => Err(internal_error("autostart disable failed")),
    }
}

/// `GET /api/v1/autostart`: whether the relay starts at login, unless the
/// operation is disabled.
pub fn autostart_status<A: AutostartBackend>(config: &AppConfig, autostart: &A) -> (r: Result<
    bool,
    ApiError,
>)
    ensures
        !config.enabled_set().contains("autostart"@) ==> (r matches Err(e) && e.status
            == STATUS_FORBIDDEN && e.message@ == disabled_message("autostart"@)),
        config.enabled_set().contains("autostart"@) ==> (r is Ok || (r matches Err(e)
            && e.status == STATUS_INTERNAL_SERVER_ERROR && e.message@
            == "autostart status check failed"@)),
        config.enabled_set().contains("autostart"@) ==> exists|outcome: Result<bool, BackendError>|
            #[trigger] autostart.reports(outcome) && (outcome is Ok <==> r is Ok) && (outcome matches Ok(enabled) ==> r == Ok::<bool, ApiError>(enabled)),
{
    match check_enabled(config, "autostart") {
        Ok(()) => {},
        Err(e) => {
            return Err(e);
        },
    }
    autostart_status_response(autostart.is_enabled())
}

/// `PUT /api/v1/autostart`: registers the relay to start at login, unless the
/// operation is disabled.
pub fn autostart_enable<A: AutostartBackend>(config: &AppConfig, autostart: &A) -> (r: Result<
    (),
    ApiError,
>)
    ensures
        !config.enabled_set().contains("autostart"@) ==> (r matches Err(e) && e.status
            == STATUS_FORBIDDEN && e.message@ == disabled_message("autostart"@)),
        config.enabled_set().contains("autostart"@) ==> (r is Ok || (r matches Err(e)
            && e.status == STATUS_INTERNAL_SERVER_ERROR && e.message@
            == "autostart enable failed"@)),
        config.enabled_set().contains("autostart"@) ==> exists|outcome: Result<(), BackendError>|
            #[trigger] autostart.enables(outcome) && (outcome is Ok <==> r is Ok),
{
    match check_enabled(config, "autostart") {
        Ok(()) => {},
        Err(e) => {
            return Err(e);
        },
    }
    autostart_enable_response(autostart.enable())
}

/// `DELETE /api/v1/autostart`: unregisters the relay from login, unless the
/// operation is disabled.
pub fn autostart_disable<A: AutostartBackend>(config: &AppConfig, autostart: &A) -> (r: Result<
    (),
    ApiError,
>)
    ensures
        !config.enabled_set().contains("autostart"@) ==> (r matches Err(e) && e.status
            == STATUS_FORBIDDEN && e.message@ == disabled_message("autostart"@)),
        config.enabled_set().contains("autostart"@) ==> (r is Ok || (r matches Err(e)
            && e.status == STATUS_INTERNAL_SERVER_ERROR && e.message@
            == "autostart disable failed"@)),
        config.enabled_set().contains("autostart"@) ==> exists|outcome: Result<(), BackendError>|
            #[trigger] autostart.disables(outcome) && (outcome is Ok <==> r is Ok),
{
    match check_enabled(config, "autostart") {
        Ok(()) => {},
        Err(e) => {
            return Err(e);
        },
    }
    autostart_disable_response(autostart.disable())
}

} // verus!
