//! The plugin history: one line per event, in a file per plugin.
use vstd::prelude::*;
use crate::daemon::types::PluginInfoDto;
use crate::daemon::uuid_text::{format_uuid_bytes, is_nil_uuid, uuid_text};
use crate::paths::{path_join, path_join_exec};
use crate::text::{chars_of, decimal, extend_chars, string_of, u64_to_chars};

verus! {

/// An event to write to a plugin's history.
pub struct HistoryRecord {
    /// `INFO`, `WARN` or `ERROR`.
    pub level: String,
    pub plugin_name: String,
    pub plugin_uuid: [u8; 16],
    pub message: String,
}

/// A line of the history: `[<time>][<level>][<plugin>][<uuid>] <message>`, then a line
/// break.
pub open spec fn spec_history_line(ts: u64, level: Seq<char>, name: Seq<char>, uuid: Seq<u8>, message: Seq<char>) -> Seq<char> {
    "["@ + decimal(ts as nat) + "]["@ + level + "]["@ + name + "]["@ + uuid_text(uuid) + "] "@
        + message + "\n"@
}

/// The history line of a record written at time `ts` (seconds since the epoch).
pub fn history_line(ts: u64, record: &HistoryRecord) -> (r: String)
    ensures
        r@ == spec_history_line(ts, record.level@, record.plugin_name@, record.plugin_uuid@, record.message@),
{
    let mut v = chars_of("[");
    extend_chars(&mut v, u64_to_chars(ts).as_slice());
    extend_chars(&mut v, chars_of("][").as_slice());
    extend_chars(&mut v, chars_of(record.level.as_str()).as_slice());
    extend_chars(&mut v, chars_of("][").as_slice());
    extend_chars(&mut v, chars_of(record.plugin_name.as_str()).as_slice());
    extend_chars(&mut v, chars_of("][").as_slice());
    extend_chars(&mut v, chars_of(format_uuid_bytes(&record.plugin_uuid).as_str()).as_slice());
    extend_chars(&mut v, chars_of("] ").as_slice());
    extend_chars(&mut v, chars_of(record.message.as_str()).as_slice());
    extend_chars(&mut v, chars_of("\n").as_slice());
    string_of(v.as_slice())
}

/// The name of a plugin's history file: `history_<uuid>`, or `history_unknown` for the
/// nil identifier.
pub open spec fn spec_history_file_name(uuid: Seq<u8>) -> Seq<char> {
    if uuid == Seq::new(16, |i: int| 0u8) {
        "history_unknown"@
    } else {
        "history_"@ + uuid_text(uuid)
    }
}

/// Where a plugin's history is kept, in the history directory.
pub fn plugin_history_path(dir: &str, plugin_uuid: &[u8; 16]) -> (r: String)
    ensures
        r@ == path_join(dir@, spec_history_file_name(plugin_uuid@)),
{
    let name = if is_nil_uuid(plugin_uuid) {
        chars_of("history_unknown")
    } else {
        let mut n = chars_of("history_");
        extend_chars(&mut n, chars_of(format_uuid_bytes(plugin_uuid).as_str()).as_slice());
        n
    };
    string_of(path_join_exec(chars_of(dir).as_slice(), name.as_slice()).as_slice())
}

fn record(level: &str, plugin_name: &str, plugin_uuid: [u8; 16], message: String) -> (r: HistoryRecord)
    ensures
        r.level@ == level@,
        r.plugin_name@ == plugin_name@,
        r.plugin_uuid == plugin_uuid,
        r.message == message,
{
    HistoryRecord {
        level: string_of(chars_of(level).as_slice()),
        plugin_name: string_of(chars_of(plugin_name).as_slice()),
        plugin_uuid,
        message,
    }
}

/// An information event of a plugin.
pub fn info(plugin_name: &str, plugin_uuid: [u8; 16], message: String) -> (r: HistoryRecord)
    ensures
        r.level@ == "INFO"@,
        r.plugin_name@ == plugin_name@,
        r.plugin_uuid == plugin_uuid,
        r.message == message,
{
    record("INFO", plugin_name, plugin_uuid, message)
}

/// A warning event of a plugin.
pub fn warn(plugin_name: &str, plugin_uuid: [u8; 16], message: String) -> (r: HistoryRecord)
    ensures
        r.level@ == "WARN"@,
        r.plugin_name@ == plugin_name@,
        r.plugin_uuid == plugin_uuid,
        r.message == message,
{
    record("WARN", plugin_name, plugin_uuid, message)
}

/// An error event of a plugin.
pub fn error(plugin_name: &str, plugin_uuid: [u8; 16], message: String) -> (r: HistoryRecord)
    ensures
        r.level@ == "ERROR"@,
        r.plugin_name@ == plugin_name@,
        r.plugin_uuid == plugin_uuid,
        r.message == message,
{
    record("ERROR", plugin_name, plugin_uuid, message)
}

/// `true` or `false`.
pub open spec fn bool_text(b: bool) -> Seq<char> {
    if b { "true"@ } else { "false"@ }
}

/// `key="value"`.
pub open spec fn quoted(key: Seq<char>, value: Seq<char>) -> Seq<char> {
    key + "=\""@ + value + "\""@
}

/// `key=value`.
pub open spec fn bare(key: Seq<char>, value: Seq<char>) -> Seq<char> {
    key + "="@ + value
}

/// Builds `event=<event>` followed by ` <field>` for each field.
pub open spec fn event_message(event: Seq<char>, fields: Seq<Seq<char>>) -> Seq<char>
    decreases fields.len(),
{
    if fields.len() == 0 {
        "event="@ + event
    } else {
        event_message(event, fields.drop_last()) + " "@ + fields.last()
    }
}

/// Appending a field to an event message.
proof fn lemma_event_push(event: Seq<char>, fields: Seq<Seq<char>>, x: Seq<char>)
    ensures
        event_message(event, fields.push(x)) == event_message(event, fields) + " "@ + x,
{
    assert(fields.push(x).drop_last() =~= fields);
}

struct MessageBuilder {
    text: Vec<char>,
    event: Ghost<Seq<char>>,
    fields: Ghost<Seq<Seq<char>>>,
}

impl MessageBuilder {
    spec fn wf(&self) -> bool {
        self.text@ == event_message(self.event@, self.fields@)
    }

    fn new(event: &str) -> (r: MessageBuilder)
        ensures
            r.wf(),
            r.event@ == event@,
            r.fields@ == Seq::<Seq<char>>::empty(),
    {
        let mut text = chars_of("event=");
        extend_chars(&mut text, chars_of(event).as_slice());
        MessageBuilder { text, event: Ghost(event@), fields: Ghost(Seq::empty()) }
    }

    fn quoted(&mut self, key: &str, value: &str)
        requires
            old(self).wf(),
        ensures
            final(self).wf(),
            final(self).event == old(self).event,
            final(self).fields@ == old(self).fields@.push(quoted(key@, value@)),
    {
        extend_chars(&mut self.text, chars_of(" ").as_slice());
        extend_chars(&mut self.text, chars_of(key).as_slice());
        extend_chars(&mut self.text, chars_of("=\"").as_slice());
        extend_chars(&mut self.text, chars_of(value).as_slice());
        extend_chars(&mut self.text, chars_of("\"").as_slice());
        proof {
            lemma_event_push(self.event@, self.fields@, quoted(key@, value@));
            self.fields = Ghost(self.fields@.push(quoted(key@, value@)));
        }
        assert(self.text@ =~= event_message(self.event@, self.fields@));
    }

    fn bare(&mut self, key: &str, value: &[char])
        requires
            old(self).wf(),
        ensures
            final(self).wf(),
            final(self).event == old(self).event,
            final(self).fields@ == old(self).fields@.push(bare(key@, value@)),
    {
        extend_chars(&mut self.text, chars_of(" ").as_slice());
        extend_chars(&mut self.text, chars_of(key).as_slice());
        extend_chars(&mut self.text, chars_of("=").as_slice());
        extend_chars(&mut self.text, value);
        proof {
            lemma_event_push(self.event@, self.fields@, bare(key@, value@));
            self.fields = Ghost(self.fields@.push(bare(key@, value@)));
        }
        assert(self.text@ =~= event_message(self.event@, self.fields@));
    }

    fn finish(self) -> (r: String)
        requires
            self.wf(),
        ensures
            r@ == event_message(self.event@, self.fields@),
    {
        string_of(self.text.as_slice())
    }
}

fn bool_chars(b: bool) -> (r: Vec<char>)
    ensures
        r@ == bool_text(b),
{
    if b { chars_of("true") } else { chars_of("false") }
}

fn num(n: u64) -> (r: Vec<char>)
    ensures
        r@ == decimal(n as nat),
{
    u64_to_chars(n)
}

/// The common fields of a plugin's events: name, uuid, pid.
pub open spec fn plugin_fields(p: PluginInfoDto) -> Seq<Seq<char>> {
    seq![
        quoted("name"@, p.name@),
        quoted("uuid"@, uuid_text(p.plugin_uuid@)),
        bare("pid"@, decimal(p.pid as nat)),
    ]
}

fn plugin_message(event: &str, p: &PluginInfoDto) -> (r: MessageBuilder)
    ensures
        r.wf(),
        r.event@ == event@,
        r.fields@ == plugin_fields(*p),
{
    let mut m = MessageBuilder::new(event);
    m.quoted("name", p.name.as_str());
    m.quoted("uuid", format_uuid_bytes(&p.plugin_uuid).as_str());
    m.bare("pid", num(p.pid as u64).as_slice());
    assert(m.fields@ =~= plugin_fields(*p));
    m
}

/// A plugin was enabled: `event=plugin_enabled name=".." uuid=".." pid=.. path=".."`.
pub fn plugin_enabled(plugin: &PluginInfoDto) -> (r: HistoryRecord)
    ensures
        r.level@ == "INFO"@,
        r.plugin_name@ == plugin.name@,
        r.plugin_uuid == plugin.plugin_uuid,
        r.message@ == event_message("plugin_enabled"@, plugin_fields(*plugin).push(quoted("path"@, plugin.path@))),
{
    let mut m = plugin_message("plugin_enabled", plugin);
    m.quoted("path", plugin.path.as_str());
    info(plugin.name.as_str(), plugin.plugin_uuid, m.finish())
}

/// Enabling a plugin failed: `event=plugin_enable_failed name=".." uuid=".." pid=..
/// path=".." reason=".."`.
pub fn plugin_enable_failed(plugin: &PluginInfoDto, reason: &str) -> (r: HistoryRecord)
    ensures
        r.level@ == "ERROR"@,
        r.plugin_name@ == plugin.name@,
        r.plugin_uuid == plugin.plugin_uuid,
        r.message@ == event_message(
            "plugin_enable_failed"@,
            plugin_fields(*plugin).push(quoted("path"@, plugin.path@)).push(quoted("reason"@, reason@)),
        ),
{
    let mut m = plugin_message("plugin_enable_failed", plugin);
    m.quoted("path", plugin.path.as_str());
    m.quoted("reason", reason);
    error(plugin.name.as_str(), plugin.plugin_uuid, m.finish())
}

/// A plugin was disabled: `event=plugin_disabled name=".." uuid=".." pid=.. path=".."`.
pub fn plugin_disabled(plugin: &PluginInfoDto) -> (r: HistoryRecord)
    ensures
        r.level@ == "INFO"@,
        r.plugin_name@ == plugin.name@,
        r.plugin_uuid == plugin.plugin_uuid,
        r.message@ == event_message("plugin_disabled"@, plugin_fields(*plugin).push(quoted("path"@, plugin.path@))),
{
    let mut m = plugin_message("plugin_disabled", plugin);
    m.quoted("path", plugin.path.as_str());
    info(plugin.name.as_str(), plugin.plugin_uuid, m.finish())
}

/// A plugin was removed: `event=plugin_removed name=".." uuid=".." pid=.. path=".."
/// enabled=<bool>`.
pub fn plugin_removed(plugin: &PluginInfoDto, enabled: bool) -> (r: HistoryRecord)
    ensures
        r.level@ == "INFO"@,
        r.plugin_name@ == plugin.name@,
        r.plugin_uuid == plugin.plugin_uuid,
        r.message@ == event_message(
            "plugin_removed"@,
            plugin_fields(*plugin).push(quoted("path"@, plugin.path@)).push(bare("enabled"@, bool_text(enabled))),
        ),
{
    let mut m = plugin_message("plugin_removed", plugin);
    m.quoted("path", plugin.path.as_str());
    m.bare("enabled", bool_chars(enabled).as_slice());
    info(plugin.name.as_str(), plugin.plugin_uuid, m.finish())
}

/// Stopping a removed plugin failed: `event=plugin_remove_kill_failed name=".."
/// uuid=".." pid=.. path=".." reason=".."`.
pub fn plugin_remove_kill_failed(plugin: &PluginInfoDto, reason: &str) -> (r: HistoryRecord)
    ensures
        r.level@ == "ERROR"@,
        r.plugin_name@ == plugin.name@,
        r.plugin_uuid == plugin.plugin_uuid,
        r.message@ == event_message(
            "plugin_remove_kill_failed"@,
            plugin_fields(*plugin).push(quoted("path"@, plugin.path@)).push(quoted("reason"@, reason@)),
        ),
{
    let mut m = plugin_message("plugin_remove_kill_failed", plugin);
    m.quoted("path", plugin.path.as_str());
    m.quoted("reason", reason);
    error(plugin.name.as_str(), plugin.plugin_uuid, m.finish())
}

/// A call was asked of a plugin: `event=plugin_call_requested name=".." uuid=".." pid=..
/// request_id=.. function=".." args_count=..`.
pub fn plugin_call_requested(plugin: &PluginInfoDto, request_id: u32, function_name: &str, args_count: usize) -> (r: HistoryRecord)
    ensures
        r.level@ == "INFO"@,
        r.plugin_name@ == plugin.name@,
        r.plugin_uuid == plugin.plugin_uuid,
        r.message@ == event_message(
            "plugin_call_requested"@,
            plugin_fields(*plugin).push(bare("request_id"@, decimal(request_id as nat))).push(
                quoted("function"@, function_name@),
            ).push(bare("args_count"@, decimal(args_count as nat))),
        ),
{
    let mut m = plugin_message("plugin_call_requested", plugin);
    m.bare("request_id", num(request_id as u64).as_slice());
    m.quoted("function", function_name);
    m.bare("args_count", num(args_count as u64).as_slice());
    info(plugin.name.as_str(), plugin.plugin_uuid, m.finish())
}

/// A call was refused: `event=plugin_call_rejected reason=".." name=".." uuid=".."
/// request_id=.. function=".."`.
pub fn plugin_call_rejected(plugin: &PluginInfoDto, request_id: u32, function_name: &str, reason: &str) -> (r: HistoryRecord)
    ensures
        r.level@ == "WARN"@,
        r.plugin_name@ == plugin.name@,
        r.plugin_uuid == plugin.plugin_uuid,
        r.message@ == event_message(
            "plugin_call_rejected"@,
            seq![
                quoted("reason"@, reason@),
                quoted("name"@, plugin.name@),
                quoted("uuid"@, uuid_text(plugin.plugin_uuid@)),
                bare("request_id"@, decimal(request_id as nat)),
                quoted("function"@, function_name@),
            ],
        ),
{
    let mut m = MessageBuilder::new("plugin_call_rejected");
    m.quoted("reason", reason);
    m.quoted("name", plugin.name.as_str());
    m.quoted("uuid", format_uuid_bytes(&plugin.plugin_uuid).as_str());
    m.bare("request_id", num(request_id as u64).as_slice());
    m.quoted("function", function_name);
    assert(m.fields@ =~= seq![
        quoted("reason"@, reason@),
        quoted("name"@, plugin.name@),
        quoted("uuid"@, uuid_text(plugin.plugin_uuid@)),
        bare("request_id"@, decimal(request_id as nat)),
        quoted("function"@, function_name@),
    ]);
    warn(plugin.name.as_str(), plugin.plugin_uuid, m.finish())
}

/// The common fields of a runner's events: name, uuid, pid.
pub open spec fn runner_fields(name: Seq<char>, uuid: Seq<u8>, pid: u32) -> Seq<Seq<char>> {
    seq![quoted("name"@, name), quoted("uuid"@, uuid_text(uuid)), bare("pid"@, decimal(pid as nat))]
}

fn runner_message(event: &str, name: &str, uuid: &[u8; 16], pid: u32) -> (r: MessageBuilder)
    ensures
        r.wf(),
        r.event@ == event@,
        r.fields@ == runner_fields(name@, uuid@, pid),
{
    let mut m = MessageBuilder::new(event);
    m.quoted("name", name);
    m.quoted("uuid", format_uuid_bytes(uuid).as_str());
    m.bare("pid", num(pid as u64).as_slice());
    assert(m.fields@ =~= runner_fields(name@, uuid@, pid));
    m
}

/// A plugin's runner closed: `event=plugin_closed name=".." uuid=".." pid=..
/// reason=".."`.
pub fn plugin_closed(plugin_name: &str, plugin_uuid: [u8; 16], pid: u32, reason: &str) -> (r: HistoryRecord)
    ensures
        r.level@ == "WARN"@,
        r.plugin_name@ == plugin_name@,
        r.plugin_uuid == plugin_uuid,
        r.message@ == event_message(
            "plugin_closed"@,
            runner_fields(plugin_name@, plugin_uuid@, pid).push(quoted("reason"@, reason@)),
        ),
{
    let mut m = runner_message("plugin_closed", plugin_name, &plugin_uuid, pid);
    m.quoted("reason", reason);
    warn(plugin_name, plugin_uuid, m.finish())
}

/// A plugin answered a call: `event=plugin_result name=".." uuid=".." pid=..
/// request_id=.. ok=<bool> output=".."`.
pub fn plugin_result(plugin_name: &str, plugin_uuid: [u8; 16], pid: u32, request_id: u32, ok: bool, output: &str) -> (r: HistoryRecord)
    ensures
        r.level@ == "INFO"@,
        r.plugin_name@ == plugin_name@,
        r.plugin_uuid == plugin_uuid,
        r.message@ == event_message(
            "plugin_result"@,
            runner_fields(plugin_name@, plugin_uuid@, pid).push(bare("request_id"@, decimal(request_id as nat))).push(
                bare("ok"@, bool_text(ok)),
            ).push(quoted("output"@, output@)),
        ),
{
    let mut m = runner_message("plugin_result", plugin_name, &plugin_uuid, pid);
    m.bare("request_id", num(request_id as u64).as_slice());
    m.bare("ok", bool_chars(ok).as_slice());
    m.quoted("output", output);
    info(plugin_name, plugin_uuid, m.finish())
}

/// A plugin reported an error: `event=plugin_error name=".." uuid=".." pid=..
/// request_id=.. message=".."`.
pub fn plugin_error(plugin_name: &str, plugin_uuid: [u8; 16], pid: u32, request_id: u32, message: &str) -> (r: HistoryRecord)
    ensures
        r.level@ == "ERROR"@,
        r.plugin_name@ == plugin_name@,
        r.plugin_uuid == plugin_uuid,
        r.message@ == event_message(
            "plugin_error"@,
            runner_fields(plugin_name@, plugin_uuid@, pid).push(bare("request_id"@, decimal(request_id as nat))).push(
                quoted("message"@, message@),
            ),
        ),
{
    let mut m = runner_message("plugin_error", plugin_name, &plugin_uuid, pid);
    m.bare("request_id", num(request_id as u64).as_slice());
    m.quoted("message", message);
    error(plugin_name, plugin_uuid, m.finish())
}

/// A plugin sent something unexpected: `event=plugin_unknown_message name=".." uuid=".."
/// pid=.. message=".."`.
pub fn plugin_unknown_message(plugin_name: &str, plugin_uuid: [u8; 16], pid: u32, message: &str) -> (r: HistoryRecord)
    ensures
        r.level@ == "WARN"@,
        r.plugin_name@ == plugin_name@,
        r.plugin_uuid == plugin_uuid,
        r.message@ == event_message(
            "plugin_unknown_message"@,
            runner_fields(plugin_name@, plugin_uuid@, pid).push(quoted("message"@, message@)),
        ),
{
    let mut m = runner_message("plugin_unknown_message", plugin_name, &plugin_uuid, pid);
    m.quoted("message", message);
    warn(plugin_name, plugin_uuid, m.finish())
}

} // verus!
