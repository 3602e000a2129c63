//! How the daemon turns what plugins send into events, and events into answers.
use vstd::prelude::*;
use crate::daemon::types::{InterfaceResponse, PluginEvent};
use crate::daemon::uuid_text::{format_uuid_bytes, uuid_text};
use crate::runner::HelloOkPayload;
use crate::wire::{ErrorPayload, Message, ResultPayload};
use crate::text::{chars_of, extend_chars, string_of};

verus! {

/// The event a runner's message makes: answers, failures and heartbeats are events;
/// anything else is none.
pub fn event_of_message(pid: u32, msg: Message) -> (r: Option<PluginEvent>)
    ensures
        match msg {
            Message::Result { request_id, data } => r == Some(PluginEvent::Result {
                pid,
                request_id,
                ok: data.ok,
                output: data.output,
            }),
            Message::Error { request_id, data } => r == Some(PluginEvent::Error {
                pid,
                request_id,
                message: data.message,
            }),
            Message::Heartbeat => r == Some(PluginEvent::Heartbeat { pid }),
            _ => r is None,
        },
{
    match msg {
        Message::Result { request_id, data } => Some(PluginEvent::Result {
            pid,
            request_id,
            ok: data.ok,
            output: data.output,
        }),
        Message::Error { request_id, data } => Some(PluginEvent::Error {
            pid,
            request_id,
            message: data.message,
        }),
        Message::Heartbeat => Some(PluginEvent::Heartbeat { pid }),
        _ => None,
    }
}

/// The plugin description of the answer to the hello; any other message breaks the
/// handshake.
pub fn hello_answer(msg: Message) -> (r: Result<HelloOkPayload, String>)
    ensures
        match msg {
            Message::HelloOk(p) => r == Ok::<HelloOkPayload, String>(p),
            _ => r matches Err(e) && e@ == "expected HelloOk"@,
        },
{
    match msg {
        Message::HelloOk(p) => Ok(p),
        _ => Err(string_of(chars_of("expected HelloOk").as_slice())),
    }
}

/// The runner's reply to a call: the plugin's output as a successful result, or, when the
/// call failed, an error with code 1.
pub fn call_reply(request_id: u32, outcome: Result<String, String>) -> (r: Message)
    ensures
        match outcome {
            Ok(output) => r == Message::Result { request_id, data: ResultPayload { ok: true, output } },
            Err(message) => r == Message::Error { request_id, data: ErrorPayload { code: 1, message } },
        },
{
    match outcome {
        Ok(output) => Message::Result { request_id, data: ResultPayload { ok: true, output } },
        Err(message) => Message::Error { request_id, data: ErrorPayload { code: 1, message } },
    }
}

/// The daemon's answer to a call, and whether (and with which success) the user is to be
/// notified of it.
pub struct DispatchAnswer {
    pub response: InterfaceResponse,
    /// `Some(ok)` when a notification of the plugin's answer is due.
    pub notify: Option<bool>,
}

/// The answer to a call from the event that answered it: a result is passed on and
/// notified; a failure is passed on as an unsuccessful result and notified as such; a
/// closed plugin is an error; anything else is unexpected.
pub fn handle_plugin_event_response(request_id: u32, plugin_event: PluginEvent) -> (r: DispatchAnswer)
    ensures
        match plugin_event {
            PluginEvent::Result { ok, output, .. } => r.response == InterfaceResponse::CallResult {
                request_id,
                ok,
                output,
            } && r.notify == Some(ok),
            PluginEvent::Error { message, .. } => r.response == InterfaceResponse::CallResult {
                request_id,
                ok: false,
                output: message,
            } && r.notify == Some(false),
            PluginEvent::Closed { reason, .. } => r.response matches InterfaceResponse::Error {
                request_id: rid,
                message: m,
            } && rid == request_id && m@ == "Plugin closed: "@ + reason@ && r.notify is None,
            PluginEvent::Heartbeat { .. } => r.response matches InterfaceResponse::Error {
                request_id: rid,
                message: m,
            } && rid == request_id && m@ == "Unexpected message type while waiting for response"@
                && r.notify is None,
        },
{
    match plugin_event {
        PluginEvent::Result { ok, output, .. } => DispatchAnswer {
            response: InterfaceResponse::CallResult { request_id, ok, output },
            notify: Some(ok),
        },
        PluginEvent::Error { message, .. } => DispatchAnswer {
            response: InterfaceResponse::CallResult { request_id, ok: false, output: message },
            notify: Some(false),
        },
        PluginEvent::Closed { reason, .. } => {
            let mut m = chars_of("Plugin closed: ");
            extend_chars(&mut m, chars_of(reason.as_str()).as_slice());
            DispatchAnswer {
                response: InterfaceResponse::Error { request_id, message: string_of(m.as_slice()) },
                notify: None,
            }
        },
        PluginEvent::Heartbeat { .. } => DispatchAnswer {
            response: InterfaceResponse::Error {
                request_id,
                message: string_of(chars_of("Unexpected message type while waiting for response").as_slice()),
            },
            notify: None,
        },
    }
}

fn failure(prefix: &str, uuid: &[u8; 16], e: &str) -> (r: String)
    ensures
        r@ == prefix@ + uuid_text(uuid@) + ": "@ + e@,
{
    let mut m = chars_of(prefix);
    extend_chars(&mut m, chars_of(format_uuid_bytes(uuid).as_str()).as_slice());
    extend_chars(&mut m, chars_of(": ").as_slice());
    extend_chars(&mut m, chars_of(e).as_slice());
    string_of(m.as_slice())
}

/// The answer to switching a plugin's notifications: their new state, or why not.
pub fn handle_switch_notification(request_id: u32, plugin_uuid: &[u8; 16], outcome: Result<bool, String>) -> (r: InterfaceResponse)
    ensures
        match outcome {
            Ok(enable) => r == InterfaceResponse::SwitchDone { request_id, enable },
            Err(e) => r matches InterfaceResponse::Error { request_id: rid, message: m } && rid == request_id
                && m@ == "Failed to switch notification status for plugin "@ + uuid_text(plugin_uuid@) + ": "@ + e@,
        },
{
    match outcome {
        Ok(enable) => InterfaceResponse::SwitchDone { request_id, enable },
        Err(e) => InterfaceResponse::Error {
            request_id,
            message: failure("Failed to switch notification status for plugin ", plugin_uuid, e.as_str()),
        },
    }
}

/// The answer to switching a plugin on or off: its new state, or why not.
pub fn handle_switch_plugin(request_id: u32, plugin_uuid: &[u8; 16], outcome: Result<bool, String>) -> (r: InterfaceResponse)
    ensures
        match outcome {
            Ok(enable) => r == InterfaceResponse::SwitchDone { request_id, enable },
            Err(e) => r matches InterfaceResponse::Error { request_id: rid, message: m } && rid == request_id
                && m@ == "Failed to switch plugin "@ + uuid_text(plugin_uuid@) + ": "@ + e@,
        },
{
    match outcome {
        Ok(enable) => InterfaceResponse::SwitchDone { request_id, enable },
        Err(e) => InterfaceResponse::Error {
            request_id,
            message: failure("Failed to switch plugin ", plugin_uuid, e.as_str()),
        },
    }
}

/// The answer when a call could not be sent to its plugin.
pub fn send_call_failed(request_id: u32, error: &str) -> (r: InterfaceResponse)
    ensures
        r matches InterfaceResponse::Error { request_id: rid, message: m } && rid == request_id
            && m@ == "send_call failed: "@ + error@,
{
    let mut m = chars_of("send_call failed: ");
    extend_chars(&mut m, chars_of(error).as_slice());
    InterfaceResponse::Error { request_id, message: string_of(m.as_slice()) }
}

/// The answer when waiting for a plugin's answer failed: an unsuccessful result.
pub fn wait_failed(request_id: u32, error: &str) -> (r: InterfaceResponse)
    ensures
        r matches InterfaceResponse::CallResult { request_id: rid, ok, output } && rid == request_id && !ok
            && output@ == "wait_for_response failed: "@ + error@,
{
    let mut m = chars_of("wait_for_response failed: ");
    extend_chars(&mut m, chars_of(error).as_slice());
    InterfaceResponse::CallResult { request_id, ok: false, output: string_of(m.as_slice()) }
}

/// The answer when a request could not be handed to the dispatcher.
pub fn queue_failed(request_id: u32, what: &str, error: &str) -> (r: InterfaceResponse)
    ensures
        r matches InterfaceResponse::Error { request_id: rid, message: m } && rid == request_id
            && m@ == "Failed to queue "@ + what@ + ": "@ + error@,
{
    let mut m = chars_of("Failed to queue ");
    extend_chars(&mut m, chars_of(what).as_slice());
    extend_chars(&mut m, chars_of(": ").as_slice());
    extend_chars(&mut m, chars_of(error).as_slice());
    InterfaceResponse::Error { request_id, message: string_of(m.as_slice()) }
}

/// The answer when the dispatcher's reply never came.
pub fn reply_lost(request_id: u32, error: &str) -> (r: InterfaceResponse)
    ensures
        r matches InterfaceResponse::Error { request_id: rid, message: m } && rid == request_id
            && m@ == "Dispatcher response channel closed: "@ + error@,
{
    let mut m = chars_of("Dispatcher response channel closed: ");
    extend_chars(&mut m, chars_of(error).as_slice());
    InterfaceResponse::Error { request_id, message: string_of(m.as_slice()) }
}

/// The answer to a request the daemon does not handle.
pub fn not_implemented(request_id: u32) -> (r: InterfaceResponse)
    ensures
        r matches InterfaceResponse::Error { request_id: rid, message: m } && rid == request_id
            && m@ == "Request not implemented yet"@,
{
    InterfaceResponse::Error {
        request_id,
        message: string_of(chars_of("Request not implemented yet").as_slice()),
    }
}

} // verus!

verus! {

/// A client's request, as the daemon's client handler reads it.
pub enum ClientRequest {
    StartPlugin { plugin_uuid: [u8; 16] },
    StopPlugin { plugin_uuid: [u8; 16] },
    RefreshPlugins,
    CallPlugin { plugin_uuid: [u8; 16], fn_name: String, args: Vec<String> },
    /// Any other request.
    Other,
}

/// The work a client's request hands to the dispatcher, with the request's id.
pub enum DaemonTask {
    StartPlugin { request_id: u32, plugin_uuid: [u8; 16] },
    StopPlugin { request_id: u32, plugin_uuid: [u8; 16] },
    RefreshPlugins { request_id: u32 },
    CallPlugin { request_id: u32, plugin_uuid: [u8; 16], fn_name: String, args: Vec<String> },
}

/// How the client handler routes a request: starting, stopping, refreshing and calling
/// become work for the dispatcher, under the request's id; any other request is answered
/// at once as not implemented.
pub fn route_client_request(request_id: u32, req: ClientRequest) -> (r: Result<DaemonTask, InterfaceResponse>)
    ensures
        match req {
            ClientRequest::StartPlugin { plugin_uuid } => r == Ok::<DaemonTask, InterfaceResponse>(
                DaemonTask::StartPlugin { request_id, plugin_uuid },
            ),
            ClientRequest::StopPlugin { plugin_uuid } => r == Ok::<DaemonTask, InterfaceResponse>(
                DaemonTask::StopPlugin { request_id, plugin_uuid },
            ),
            ClientRequest::RefreshPlugins => r == Ok::<DaemonTask, InterfaceResponse>(
                DaemonTask::RefreshPlugins { request_id },
            ),
            ClientRequest::CallPlugin { plugin_uuid, fn_name, args } => r == Ok::<DaemonTask, InterfaceResponse>(
                DaemonTask::CallPlugin { request_id, plugin_uuid, fn_name, args },
            ),
            ClientRequest::Other => r matches Err(InterfaceResponse::Error { request_id: rid, message: m })
                && rid == request_id && m@ == "Request not implemented yet"@,
        },
{
    match req {
        ClientRequest::StartPlugin { plugin_uuid } => Ok(DaemonTask::StartPlugin { request_id, plugin_uuid }),
        ClientRequest::StopPlugin { plugin_uuid } => Ok(DaemonTask::StopPlugin { request_id, plugin_uuid }),
        ClientRequest::RefreshPlugins => Ok(DaemonTask::RefreshPlugins { request_id }),
        ClientRequest::CallPlugin { plugin_uuid, fn_name, args } => Ok(
            DaemonTask::CallPlugin { request_id, plugin_uuid, fn_name, args },
        ),
        ClientRequest::Other => Err(not_implemented(request_id)),
    }
}

/// The answer when a task could not be handed to the dispatcher: `Failed to queue refresh
/// task: ..` for a refresh, `Failed to queue task: ..` otherwise, under the request's id.
pub fn task_not_queued(task: &DaemonTask, error: &str) -> (r: InterfaceResponse)
    ensures
        r matches InterfaceResponse::Error { request_id: rid, message: m } && rid == match *task {
            DaemonTask::StartPlugin { request_id, .. } => request_id,
            DaemonTask::StopPlugin { request_id, .. } => request_id,
            DaemonTask::RefreshPlugins { request_id } => request_id,
            DaemonTask::CallPlugin { request_id, .. } => request_id,
        } && m@ == "Failed to queue "@ + (if task is RefreshPlugins { "refresh task"@ } else { "task"@ }) + ": "@ + error@,
{
    match task {
        DaemonTask::StartPlugin { request_id, .. } => queue_failed(*request_id, "task", error),
        DaemonTask::StopPlugin { request_id, .. } => queue_failed(*request_id, "task", error),
        DaemonTask::RefreshPlugins { request_id } => queue_failed(*request_id, "refresh task", error),
        DaemonTask::CallPlugin { request_id, .. } => queue_failed(*request_id, "task", error),
    }
}

} // verus!
