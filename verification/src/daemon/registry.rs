//! The daemon's register of plugins: which plugin files it knows, which are running, the
//! numbering of calls, and the events waiting for a reader. The processes and their
//! connections are kept beside it, by plugin path.
use vstd::prelude::*;
use std::collections::VecDeque;
use crate::daemon::types::{PluginEvent, PluginInfoDto};
use crate::paths::{file_name, file_name_exec};
use crate::runner::{fallback_plugin_name, has_shared_library_extension, so_ext};
use crate::paths::extension;
use crate::text::{chars_eq, chars_of, clone_strings, split_by, string_of, views};

verus! {

/// A plugin the daemon knows.
pub struct ManagedPlugin {
    /// Its runner is started and answered the hello.
    pub enabled: bool,
    pub plugin_info: PluginInfoDto,
}

/// The daemon's register of plugins.
pub struct PluginManager {
    plugins_dir: String,
    plugins_list: Vec<ManagedPlugin>,
    next_request_id: u32,
    pending_events: VecDeque<PluginEvent>,
}

/// The request id after `prev`: the next number, wrapping, skipping 0.
pub open spec fn next_request_id(prev: u32) -> u32 {
    if prev == u32::MAX { 1 } else { (prev + 1) as u32 }
}

/// The identifier of a call: the next number after the last one, never 0.
pub fn alloc_request_id(id_request: u32) -> (r: u32)
    ensures
        r == next_request_id(id_request),
        r != 0,
{
    let next = id_request.wrapping_add(1);
    if next == 0 { 1 } else { next }
}

/// Whether a file is a plugin: a regular file with the `so` extension.
pub fn is_shared_library(path: &str, is_file: bool) -> (r: bool)
    ensures
        r == (is_file && extension(path@) == Some(so_ext())),
{
    is_file && has_shared_library_extension(path)
}

/// The first plugin with this identifier.
pub open spec fn position_of(list: Seq<ManagedPlugin>, uuid: Seq<u8>) -> Option<int>
    decreases list.len(),
{
    if list.len() == 0 {
        None
    } else {
        match position_of(list.drop_last(), uuid) {
            Some(i) => Some(i),
            None => if list.last().plugin_info.plugin_uuid@ == uuid {
                Some(list.len() - 1)
            } else {
                None
            },
        }
    }
}

/// The first plugin with this path.
pub open spec fn knows_path(list: Seq<ManagedPlugin>, path: Seq<char>) -> bool {
    exists|i: int| 0 <= i < list.len() && #[trigger] list[i].plugin_info.path@ == path
}

/// Whether an event answers the call with this id.
pub open spec fn answers(ev: PluginEvent, request_id: u32) -> bool {
    match ev {
        PluginEvent::Result { request_id: rid, .. } => rid == request_id,
        PluginEvent::Error { request_id: rid, .. } => rid == request_id,
        _ => false,
    }
}

/// The first waiting event that answers the call, if any.
pub open spec fn first_answer(evs: Seq<PluginEvent>, request_id: u32) -> Option<int> {
    if exists|i: int| 0 <= i < evs.len() && answers(#[trigger] evs[i], request_id) {
        Some(choose|i: int| 0 <= i < evs.len() && answers(#[trigger] evs[i], request_id) && forall|j: int|
            0 <= j < i ==> !answers(#[trigger] evs[j], request_id))
    } else {
        None
    }
}

/// Why a call cannot be sent.
pub enum CallRefusal {
    /// No plugin has the identifier.
    NotFound,
    /// The plugin is not running.
    Disabled,
}

fn same_uuid(a: &[u8; 16], b: &[u8; 16]) -> (r: bool)
    ensures
        r == (a@ == b@),
{
    let mut i: usize = 0;
    while i < 16
        invariant
            0 <= i <= 16,
            a@.len() == 16 && b@.len() == 16,
            forall|j: int| 0 <= j < i ==> a@[j] == b@[j],
        decreases 16 - i,
    {
        if a[i] != b[i] {
            return false;
        }
        i += 1;
    }
    assert(a@ =~= b@);
    true
}

/// A copy of a plugin's information.
pub fn copy_info(p: &PluginInfoDto) -> (r: PluginInfoDto)
    ensures
        r.pid == p.pid,
        r.name@ == p.name@,
        r.plugin_uuid == p.plugin_uuid,
        r.status == p.status,
        r.path@ == p.path@,
        views(r.functions@) == views(p.functions@),
{
    PluginInfoDto {
        pid: p.pid,
        name: p.name.clone(),
        plugin_uuid: p.plugin_uuid,
        status: p.status,
        path: p.path.clone(),
        functions: clone_strings(p.functions.as_slice()),
    }
}

impl PluginManager {
    /// An empty register for a plugin directory.
    pub fn new(dir: &str) -> (r: PluginManager)
        ensures
            r.dir()@ == dir@,
            r.plugins()@.len() == 0,
            r.pending().len() == 0,
            r.last_request_id() == 0,
    {
        PluginManager {
            plugins_dir: string_of(chars_of(dir).as_slice()),
            plugins_list: Vec::new(),
            next_request_id: 0,
            pending_events: VecDeque::new(),
        }
    }

    /// The plugin directory.
    pub closed spec fn dir(&self) -> String {
        self.plugins_dir
    }

    /// The plugin directory.
    pub fn plugins_dir(&self) -> (r: &String)
        ensures
            *r == self.dir(),
    {
        &self.plugins_dir
    }

    /// The known plugins, in the order they were found.
    pub closed spec fn plugins(&self) -> Vec<ManagedPlugin> {
        self.plugins_list
    }

    /// The events read but not yet taken, oldest first.
    pub closed spec fn pending(&self) -> Seq<PluginEvent> {
        self.pending_events@
    }

    /// The last call identifier handed out (0 before the first).
    pub closed spec fn last_request_id(&self) -> u32 {
        self.next_request_id
    }

    /// The identifier of a new call: the next number, never 0.
    pub fn alloc_request_id(&mut self) -> (r: u32)
        ensures
            r == next_request_id(old(self).last_request_id()),
            r != 0,
            final(self).last_request_id() == r,
            final(self).plugins() == old(self).plugins(),
            final(self).pending() == old(self).pending(),
            final(self).dir() == old(self).dir(),
    {
        self.next_request_id = alloc_request_id(self.next_request_id);
        self.next_request_id
    }

    /// The information of every known plugin, in order.
    pub fn list_plugins(&self) -> (r: Vec<PluginInfoDto>)
        ensures
            r@.len() == self.plugins()@.len(),
            forall|i: int| 0 <= i < r@.len() ==> {
                &&& #[trigger] r@[i].pid == self.plugins()@[i].plugin_info.pid
                &&& r@[i].name@ == self.plugins()@[i].plugin_info.name@
                &&& r@[i].plugin_uuid == self.plugins()@[i].plugin_info.plugin_uuid
                &&& r@[i].status == self.plugins()@[i].plugin_info.status
                &&& r@[i].path@ == self.plugins()@[i].plugin_info.path@
            },
    {
        let mut r: Vec<PluginInfoDto> = Vec::new();
        let mut i: usize = 0;
        while i < self.plugins_list.len()
            invariant
                0 <= i <= self.plugins_list@.len(),
                r@.len() == i,
                forall|j: int| 0 <= j < i ==> {
                    &&& #[trigger] r@[j].pid == self.plugins_list@[j].plugin_info.pid
                    &&& r@[j].name@ == self.plugins_list@[j].plugin_info.name@
                    &&& r@[j].plugin_uuid == self.plugins_list@[j].plugin_info.plugin_uuid
                    &&& r@[j].status == self.plugins_list@[j].plugin_info.status
                    &&& r@[j].path@ == self.plugins_list@[j].plugin_info.path@
                },
            decreases self.plugins_list@.len() - i,
        {
            r.push(copy_info(&self.plugins_list[i].plugin_info));
            i += 1;
        }
        r
    }

    /// The position of the first plugin with this identifier.
    pub fn position(&self, uuid: &[u8; 16]) -> (r: Option<usize>)
        ensures
            match r {
                Some(i) => position_of(self.plugins()@, uuid@) == Some(i as int),
                None => position_of(self.plugins()@, uuid@) is None,
            },
    {
        let ghost l = self.plugins_list@;
        let mut i: usize = 0;
        while i < self.plugins_list.len()
            invariant
                0 <= i <= l.len(),
                l == self.plugins_list@,
                position_of(l.take(i as int), uuid@) is None,
            decreases l.len() - i,
        {
            proof {
                assert(l.take(i + 1).drop_last() =~= l.take(i as int));
            }
            if same_uuid(&self.plugins_list[i].plugin_info.plugin_uuid, uuid) {
                proof {
                    lemma_position_prefix(l, uuid@, i as int + 1);
                }
                return Some(i);
            }
            i += 1;
        }
        assert(l.take(l.len() as int) =~= l);
        None
    }

    /// Whether the first plugin with this identifier is running (false when none has it).
    pub fn is_plugin_enabled(&self, uuid: &[u8; 16]) -> (r: bool)
        ensures
            r == match position_of(self.plugins()@, uuid@) {
                Some(i) => self.plugins()@[i].enabled,
                None => false,
            },
    {
        match self.position(uuid) {
            Some(i) => {
                proof {
                    lemma_position_bounds(self.plugins_list@, uuid@);
                }
                self.plugins_list[i].enabled
            },
            None => false,
        }
    }

    /// Gets a call ready: a new call identifier is taken first, then the plugin must be
    /// known and running.
    pub fn prepare_call(&mut self, uuid: &[u8; 16]) -> (r: Result<u32, CallRefusal>)
        ensures
            final(self).last_request_id() == next_request_id(old(self).last_request_id()),
            final(self).plugins() == old(self).plugins(),
            final(self).pending() == old(self).pending(),
            match position_of(old(self).plugins()@, uuid@) {
                None => r matches Err(CallRefusal::NotFound),
                Some(i) => if old(self).plugins()@[i].enabled {
                    r == Ok::<u32, CallRefusal>(final(self).last_request_id())
                } else {
                    r matches Err(CallRefusal::Disabled)
                },
            },
    {
        let id = self.alloc_request_id();
        match self.position(uuid) {
            None => Err(CallRefusal::NotFound),
            Some(i) => {
                proof {
                    lemma_position_bounds(self.plugins_list@, uuid@);
                }
                if self.plugins_list[i].enabled {
                    Ok(id)
                } else {
                    Err(CallRefusal::Disabled)
                }
            },
        }
    }

    /// Registers a newly found plugin file, unless a plugin with that path is known: it is
    /// appended, not running, unidentified, named after its file (or `unknown_plugin`).
    /// Answers its position when it was added.
    pub fn check_plugin(&mut self, path: &str) -> (r: Option<usize>)
        ensures
            knows_path(old(self).plugins()@, path@) ==> r is None && final(self).plugins() == old(self).plugins(),
            !knows_path(old(self).plugins()@, path@) ==> r == Some(old(self).plugins()@.len() as usize)
                && final(self).plugins()@.drop_last() == old(self).plugins()@
                && final(self).plugins()@.len() == old(self).plugins()@.len() + 1
                && !final(self).plugins()@.last().enabled
                && final(self).plugins()@.last().plugin_info.pid == 0
                && final(self).plugins()@.last().plugin_info.plugin_uuid@ == Seq::new(16, |i: int| 0u8)
                && final(self).plugins()@.last().plugin_info.status
                && final(self).plugins()@.last().plugin_info.path@ == path@
                && final(self).plugins()@.last().plugin_info.functions@.len() == 0
                && final(self).plugins()@.last().plugin_info.name@ == match file_name(path@) {
                    Some(n) => n,
                    None => "unknown_plugin"@,
                },
            check_step(old(self).plugins()@, path@, final(self).plugins()@),
            final(self).pending() == old(self).pending(),
            final(self).last_request_id() == old(self).last_request_id(),
            final(self).dir() == old(self).dir(),
    {
        let p = chars_of(path);
        let mut i: usize = 0;
        while i < self.plugins_list.len()
            invariant
                0 <= i <= self.plugins_list@.len(),
                p@ == path@,
                forall|j: int| 0 <= j < i ==> #[trigger] self.plugins_list@[j].plugin_info.path@ != path@,
            decreases self.plugins_list@.len() - i,
        {
            if chars_eq(chars_of(self.plugins_list[i].plugin_info.path.as_str()).as_slice(), p.as_slice()) {
                return None;
            }
            i += 1;
        }
        let name = match file_name_exec(p.as_slice()) {
            Some(n) => string_of(n.as_slice()),
            None => string_of(chars_of("unknown_plugin").as_slice()),
        };
        let index = self.plugins_list.len();
        self.plugins_list.push(ManagedPlugin {
            enabled: false,
            plugin_info: PluginInfoDto {
                pid: 0,
                name,
                plugin_uuid: [0u8; 16],
                status: true,
                path: string_of(p.as_slice()),
                functions: Vec::new(),
            },
        });
        proof {
            assert(self.plugins_list@.drop_last() =~= old(self).plugins_list@);
            assert(self.plugins_list@.last().plugin_info.plugin_uuid@ =~= Seq::new(16, |i: int| 0u8));
        }
        Some(index)
    }
}

proof fn lemma_position_prefix(l: Seq<ManagedPlugin>, uuid: Seq<u8>, n: int)
    requires
        0 < n <= l.len(),
        position_of(l.take(n - 1), uuid) is None,
        l[n - 1].plugin_info.plugin_uuid@ == uuid,
    ensures
        position_of(l, uuid) == Some(n - 1),
    decreases l.len(),
{
    assert(l.take(n).drop_last() =~= l.take(n - 1));
    if n < l.len() {
        assert(l.drop_last().take(n - 1) =~= l.take(n - 1));
        assert(l.drop_last()[n - 1] == l[n - 1]);
        lemma_position_prefix(l.drop_last(), uuid, n);
    } else {
        assert(l.take(n) =~= l);
    }
}

/// Where `position_of` points is a plugin of the list, with that identifier, the first.
pub proof fn lemma_position_bounds(l: Seq<ManagedPlugin>, uuid: Seq<u8>)
    ensures
        position_of(l, uuid) matches Some(i) ==> 0 <= i < l.len() && l[i].plugin_info.plugin_uuid@ == uuid
            && forall|j: int| 0 <= j < i ==> #[trigger] l[j].plugin_info.plugin_uuid@ != uuid,
        position_of(l, uuid) is None ==> forall|j: int| 0 <= j < l.len() ==> #[trigger] l[j].plugin_info.plugin_uuid@ != uuid,
    decreases l.len(),
{
    if l.len() > 0 {
        lemma_position_bounds(l.drop_last(), uuid);
        assert forall|j: int| 0 <= j < l.len() - 1 implies #[trigger] l[j] == l.drop_last()[j] by {}
    }
}


/// Whether a path is among the plugin files found.
pub open spec fn path_listed(paths: Seq<Seq<char>>, path: Seq<char>) -> bool {
    paths.contains(path)
}

/// The plugins whose file is (`keep`) or is not (`!keep`) among those found, in order.
pub open spec fn by_listing(list: Seq<ManagedPlugin>, paths: Seq<Seq<char>>, keep: bool) -> Seq<ManagedPlugin>
    decreases list.len(),
{
    if list.len() == 0 {
        Seq::empty()
    } else {
        let prev = by_listing(list.drop_last(), paths, keep);
        if path_listed(paths, list.last().plugin_info.path@) == keep {
            prev.push(list.last())
        } else {
            prev
        }
    }
}

/// Whether a waiting event answers this call.
fn answers_exec(ev: &PluginEvent, request_id: u32) -> (r: bool)
    ensures
        r == answers(*ev, request_id),
{
    match ev {
        PluginEvent::Result { request_id: rid, .. } => *rid == request_id,
        PluginEvent::Error { request_id: rid, .. } => *rid == request_id,
        _ => false,
    }
}

fn path_in(paths: &[String], path: &String) -> (r: bool)
    ensures
        r == path_listed(views(paths@), path@),
{
    let pv = chars_of(path.as_str());
    let mut i: usize = 0;
    while i < paths.len()
        invariant
            0 <= i <= paths@.len(),
            pv@ == path@,
            forall|j: int| 0 <= j < i ==> #[trigger] views(paths@)[j] != path@,
        decreases paths@.len() - i,
    {
        if chars_eq(chars_of(paths[i].as_str()).as_slice(), pv.as_slice()) {
            assert(views(paths@)[i as int] == path@);
            return true;
        }
        assert(views(paths@)[i as int] == paths@[i as int]@);
        i += 1;
    }
    false
}

impl PluginManager {
    /// Records that a plugin's runner started: the plugin runs, with the runner's process
    /// id and the name taken from its path.
    pub fn record_runner_started(&mut self, index: usize, pid: u32)
        requires
            index < old(self).plugins()@.len(),
        ensures
            final(self).plugins()@.len() == old(self).plugins()@.len(),
            forall|j: int| 0 <= j < old(self).plugins()@.len() && j != index ==> #[trigger] final(self).plugins()@[j] == old(self).plugins()@[j],
            final(self).plugins()@[index as int].enabled,
            final(self).plugins()@[index as int].plugin_info.pid == pid,
            final(self).plugins()@[index as int].plugin_info.name@ == split_by(
                old(self).plugins()@[index as int].plugin_info.path@,
                seq!['/'],
            ).last(),
            final(self).plugins()@[index as int].plugin_info.plugin_uuid == old(self).plugins()@[index as int].plugin_info.plugin_uuid,
            final(self).plugins()@[index as int].plugin_info.path == old(self).plugins()@[index as int].plugin_info.path,
            final(self).plugins()@[index as int].plugin_info.status == old(self).plugins()@[index as int].plugin_info.status,
            final(self).pending() == old(self).pending(),
            final(self).last_request_id() == old(self).last_request_id(),
            final(self).dir() == old(self).dir(),
    {
        let name = fallback_plugin_name(self.plugins_list[index].plugin_info.path.as_str());
        let mut entry = self.plugins_list.remove(index);
        entry.enabled = true;
        entry.plugin_info.pid = pid;
        entry.plugin_info.name = name;
        self.plugins_list.insert(index, entry);
    }

    /// Records a plugin's answer to the hello: its name, functions and identifier, and the
    /// runner's process id.
    pub fn record_handshake(&mut self, index: usize, name: String, functions: Vec<String>, uuid: [u8; 16], pid: u32)
        requires
            index < old(self).plugins()@.len(),
        ensures
            final(self).plugins()@.len() == old(self).plugins()@.len(),
            forall|j: int| 0 <= j < old(self).plugins()@.len() && j != index ==> #[trigger] final(self).plugins()@[j] == old(self).plugins()@[j],
            final(self).plugins()@[index as int].plugin_info.name == name,
            final(self).plugins()@[index as int].plugin_info.functions == functions,
            final(self).plugins()@[index as int].plugin_info.plugin_uuid == uuid,
            final(self).plugins()@[index as int].plugin_info.pid == pid,
            final(self).plugins()@[index as int].enabled == old(self).plugins()@[index as int].enabled,
            final(self).plugins()@[index as int].plugin_info.path == old(self).plugins()@[index as int].plugin_info.path,
            final(self).plugins()@[index as int].plugin_info.status == old(self).plugins()@[index as int].plugin_info.status,
            final(self).pending() == old(self).pending(),
            final(self).last_request_id() == old(self).last_request_id(),
            final(self).dir() == old(self).dir(),
    {
        let mut entry = self.plugins_list.remove(index);
        entry.plugin_info.name = name;
        entry.plugin_info.functions = functions;
        entry.plugin_info.plugin_uuid = uuid;
        entry.plugin_info.pid = pid;
        self.plugins_list.insert(index, entry);
    }

    /// Records that a plugin stopped running, and the status it shows: a failed start
    /// leaves the status as it was shown on, a deliberate stop shows it off.
    pub fn record_stopped(&mut self, index: usize, status: bool)
        requires
            index < old(self).plugins()@.len(),
        ensures
            final(self).plugins()@.len() == old(self).plugins()@.len(),
            forall|j: int| 0 <= j < old(self).plugins()@.len() && j != index ==> #[trigger] final(self).plugins()@[j] == old(self).plugins()@[j],
            !final(self).plugins()@[index as int].enabled,
            final(self).plugins()@[index as int].plugin_info.status == status,
            final(self).plugins()@[index as int].plugin_info.name == old(self).plugins()@[index as int].plugin_info.name,
            final(self).plugins()@[index as int].plugin_info.plugin_uuid == old(self).plugins()@[index as int].plugin_info.plugin_uuid,
            final(self).plugins()@[index as int].plugin_info.path == old(self).plugins()@[index as int].plugin_info.path,
            final(self).plugins()@[index as int].plugin_info.pid == old(self).plugins()@[index as int].plugin_info.pid,
            final(self).pending() == old(self).pending(),
            final(self).last_request_id() == old(self).last_request_id(),
            final(self).dir() == old(self).dir(),
    {
        let mut entry = self.plugins_list.remove(index);
        entry.enabled = false;
        entry.plugin_info.status = status;
        self.plugins_list.insert(index, entry);
    }

    /// Settles an attempt to start a plugin: `launched` is the runner's process id, or why
    /// it could not be started; `handshake` is what the plugin answered to the hello (its
    /// name, functions and identifier), or why the handshake failed, and is there exactly
    /// when the runner started.
    ///
    /// A runner that did not start leaves the register as it was. A started runner makes
    /// the plugin run, shown on, with the runner's process id and the name taken from its
    /// path; a completed handshake then records the plugin's name, functions and
    /// identifier, while a failed one stops the plugin again (still shown on). The plugin
    /// ends enabled exactly when both steps succeeded, and the answer is the first error.
    /// Only a plugin that is not running is started.
    pub fn settle_enable(
        &mut self,
        index: usize,
        launched: Result<u32, String>,
        handshake: Option<Result<(String, Vec<String>, [u8; 16]), String>>,
    ) -> (r: Result<(), String>)
        requires
            index < old(self).plugins()@.len(),
            !old(self).plugins()@[index as int].enabled,
            launched is Ok <==> handshake is Some,
        ensures
            final(self).plugins()@.len() == old(self).plugins()@.len(),
            forall|j: int| 0 <= j < old(self).plugins()@.len() && j != index ==> #[trigger] final(self).plugins()@[j] == old(self).plugins()@[j],
            final(self).pending() == old(self).pending(),
            final(self).last_request_id() == old(self).last_request_id(),
            final(self).dir() == old(self).dir(),
            final(self).plugins()@[index as int].enabled <==> (launched is Ok && handshake matches Some(Ok(_))),
            r is Ok <==> final(self).plugins()@[index as int].enabled,
            enable_step(old(self).plugins()@, index as int, launched is Ok && handshake matches Some(Ok(_)), final(self).plugins()@),
            match launched {
                Err(e) => r == Err::<(), String>(e) && final(self).plugins()@[index as int] == old(self).plugins()@[index as int],
                Ok(pid) => {
                    let p = final(self).plugins()@[index as int].plugin_info;
                    let q = old(self).plugins()@[index as int].plugin_info;
                    &&& p.pid == pid
                    &&& p.status
                    &&& p.path == q.path
                    &&& match handshake {
                        Some(Ok((n, f, u))) => p.name == n && p.functions == f && p.plugin_uuid == u,
                        Some(Err(e)) => r == Err::<(), String>(e) && p.name@ == split_by(q.path@, seq!['/']).last()
                            && p.plugin_uuid == q.plugin_uuid && p.functions == q.functions,
                        None => false,
                    }
                },
            },
    {
        let pid = match launched {
            Err(e) => return Err(e),
            Ok(pid) => pid,
        };
        let name = fallback_plugin_name(self.plugins_list[index].plugin_info.path.as_str());
        let mut entry = self.plugins_list.remove(index);
        entry.plugin_info.pid = pid;
        entry.plugin_info.status = true;
        let outcome = match handshake {
            Some(Ok((n, f, u))) => {
                entry.plugin_info.name = n;
                entry.plugin_info.functions = f;
                entry.plugin_info.plugin_uuid = u;
                entry.enabled = true;
                Ok(())
            },
            Some(Err(e)) => {
                entry.plugin_info.name = name;
                entry.enabled = false;
                Err(e)
            },
            None => {
                entry.plugin_info.name = name;
                entry.enabled = false;
                Err(string_of(chars_of("handshake missing").as_slice()))
            },
        };
        self.plugins_list.insert(index, entry);
        outcome
    }

    /// Forgets the plugins whose file was not found again, and answers them, in order (the
    /// caller stops those that run). The others keep their order.
    pub fn remove_missing(&mut self, found_paths: &[String]) -> (r: Vec<ManagedPlugin>)
        ensures
            final(self).plugins()@ == by_listing(old(self).plugins()@, views(found_paths@), true),
            r@ == by_listing(old(self).plugins()@, views(found_paths@), false),
            final(self).pending() == old(self).pending(),
            final(self).last_request_id() == old(self).last_request_id(),
            final(self).dir() == old(self).dir(),
    {
        let ghost orig = self.plugins_list@;
        let ghost paths = views(found_paths@);
        let mut list: Vec<ManagedPlugin> = Vec::new();
        std::mem::swap(&mut list, &mut self.plugins_list);
        let n = list.len();
        let mut rev = crate::sorting::reversed(list);
        let mut kept: Vec<ManagedPlugin> = Vec::new();
        let mut removed: Vec<ManagedPlugin> = Vec::new();
        let mut i: usize = 0;
        proof {
            assert(orig.take(0) =~= Seq::<ManagedPlugin>::empty());
        }
        while rev.len() > 0
            invariant
                i + rev@.len() == orig.len(),
                orig.len() == n,
                paths == views(found_paths@),
                forall|j: int| 0 <= j < rev@.len() ==> #[trigger] rev@[j] == orig[orig.len() - 1 - j],
                kept@ == by_listing(orig.take(i as int), paths, true),
                removed@ == by_listing(orig.take(i as int), paths, false),
            decreases rev@.len(),
        {
            let m = rev.pop().unwrap();
            proof {
                assert(m == orig[i as int]);
                assert(orig.take(i + 1).drop_last() =~= orig.take(i as int));
                assert(orig.take(i + 1).last() == orig[i as int]);
            }
            if path_in(found_paths, &m.plugin_info.path) {
                kept.push(m);
            } else {
                removed.push(m);
            }
            i += 1;
        }
        proof {
            assert(orig.take(orig.len() as int) =~= orig);
        }
        self.plugins_list = kept;
        removed
    }

    /// Keeps an event that arrived while waiting for another, behind the others.
    pub fn push_pending(&mut self, ev: PluginEvent)
        ensures
            final(self).pending() == old(self).pending().push(ev),
            final(self).plugins() == old(self).plugins(),
            final(self).last_request_id() == old(self).last_request_id(),
            final(self).dir() == old(self).dir(),
    {
        self.pending_events.push_back(ev);
    }

    /// The oldest waiting event, taken out, if any.
    pub fn try_recv_pending(&mut self) -> (r: Option<PluginEvent>)
        ensures
            old(self).pending().len() == 0 ==> r is None && final(self).pending() == old(self).pending(),
            old(self).pending().len() > 0 ==> r == Some(old(self).pending()[0])
                && final(self).pending() == old(self).pending().drop_first(),
            final(self).plugins() == old(self).plugins(),
            final(self).last_request_id() == old(self).last_request_id(),
            final(self).dir() == old(self).dir(),
    {
        let r = self.pending_events.pop_front();
        proof {
            if r is Some {
                assert(self.pending_events@ =~= old(self).pending_events@.drop_first());
            }
        }
        r
    }

    /// The first waiting event that answers the call, taken out; the others stay, in
    /// order.
    pub fn take_pending_response(&mut self, request_id: u32) -> (r: Option<PluginEvent>)
        ensures
            match first_answer(old(self).pending(), request_id) {
                None => r is None && final(self).pending() == old(self).pending(),
                Some(i) => r == Some(old(self).pending()[i])
                    && final(self).pending() == old(self).pending().remove(i),
            },
            final(self).plugins() == old(self).plugins(),
            final(self).last_request_id() == old(self).last_request_id(),
            final(self).dir() == old(self).dir(),
    {
        let ghost evs = self.pending_events@;
        let mut i: usize = 0;
        while i < self.pending_events.len()
            invariant
                0 <= i <= evs.len(),
                *self == *old(self),
                evs == self.pending_events@,
                forall|j: int| 0 <= j < i ==> !answers(#[trigger] evs[j], request_id),
            decreases evs.len() - i,
        {
            if answers_exec(&self.pending_events[i], request_id) {
                proof {
                    assert(answers(evs[i as int], request_id));
                    let k = choose|k: int| 0 <= k < evs.len() && answers(#[trigger] evs[k], request_id) && forall|j: int|
                        0 <= j < k ==> !answers(#[trigger] evs[j], request_id);
                    if k < i {
                    } else if k > i {
                        assert(!answers(evs[i as int], request_id));
                    }
                    assert(first_answer(evs, request_id) == Some(i as int));
                }
                return self.pending_events.remove(i);
            }
            i += 1;
        }
        proof {
            assert(!(exists|k: int| 0 <= k < evs.len() && answers(#[trigger] evs[k], request_id)));
        }
        None
    }
}


/// A call identifier is never 0 and never the one before it.
pub proof fn law_request_ids_advance(prev: u32)
    ensures
        next_request_id(prev) != 0,
        next_request_id(prev) != prev,
{
}

/// Forgetting the plugins whose file is gone splits the register: the plugins kept all
/// have a file that was found, those answered have none, and none is lost or doubled.
pub proof fn law_remove_missing_partition(list: Seq<ManagedPlugin>, paths: Seq<Seq<char>>)
    ensures
        forall|i: int| 0 <= i < by_listing(list, paths, true).len() ==> path_listed(
            paths,
            #[trigger] by_listing(list, paths, true)[i].plugin_info.path@,
        ),
        forall|i: int| 0 <= i < by_listing(list, paths, false).len() ==> !path_listed(
            paths,
            #[trigger] by_listing(list, paths, false)[i].plugin_info.path@,
        ),
        by_listing(list, paths, true).len() + by_listing(list, paths, false).len() == list.len(),
    decreases list.len(),
{
    if list.len() > 0 {
        law_remove_missing_partition(list.drop_last(), paths);
        let k = by_listing(list.drop_last(), paths, true);
        let d = by_listing(list.drop_last(), paths, false);
        assert forall|i: int| 0 <= i < by_listing(list, paths, true).len() implies path_listed(
            paths,
            #[trigger] by_listing(list, paths, true)[i].plugin_info.path@,
        ) by {
            if i < k.len() {
                assert(by_listing(list, paths, true)[i] == k[i]);
            }
        }
        assert forall|i: int| 0 <= i < by_listing(list, paths, false).len() implies !path_listed(
            paths,
            #[trigger] by_listing(list, paths, false)[i].plugin_info.path@,
        ) by {
            if i < d.len() {
                assert(by_listing(list, paths, false)[i] == d[i]);
            }
        }
    }
}

} // verus!

verus! {

/// No two plugins of the register share a path.
pub open spec fn paths_distinct(list: Seq<ManagedPlugin>) -> bool {
    forall|i: int, j: int|
        0 <= i < j < list.len() ==> #[trigger] list[i].plugin_info.path@ != #[trigger] list[j].plugin_info.path@
}

/// Registering a plugin file keeps the paths of the register distinct: as `check_plugin`
/// states, a known path leaves the register as it was, and another is appended as a new
/// plugin with that path.
pub proof fn law_registered_paths_stay_distinct(before: Seq<ManagedPlugin>, after: Seq<ManagedPlugin>, path: Seq<char>)
    requires
        paths_distinct(before),
        knows_path(before, path) ==> after == before,
        !knows_path(before, path) ==> after.len() == before.len() + 1 && after.drop_last() == before
            && after.last().plugin_info.path@ == path,
    ensures
        paths_distinct(after),
{
    if !knows_path(before, path) {
        assert forall|i: int, j: int| 0 <= i < j < after.len() implies
            #[trigger] after[i].plugin_info.path@ != #[trigger] after[j].plugin_info.path@ by {
            assert(after[i] == before[i]);
            if j < before.len() {
                assert(after[j] == before[j]);
            } else {
                if after[i].plugin_info.path@ == path {
                    assert(before[i].plugin_info.path@ == path);
                }
            }
        }
    }
}


/// What registering a plugin file does to the register: a known path leaves it as it was;
/// another path is appended as a new plugin with that path, not running.
pub open spec fn check_step(before: Seq<ManagedPlugin>, path: Seq<char>, after: Seq<ManagedPlugin>) -> bool {
    if knows_path(before, path) {
        after == before
    } else {
        &&& after.len() == before.len() + 1
        &&& after.drop_last() == before
        &&& after.last().plugin_info.path@ == path
        &&& !after.last().enabled
    }
}

/// What settling an attempt to start the plugin at `index` does to the register: the
/// other plugins and the plugin's path are kept, and it runs exactly when the attempt
/// succeeded.
pub open spec fn enable_step(before: Seq<ManagedPlugin>, index: int, succeeded: bool, after: Seq<ManagedPlugin>) -> bool {
    &&& after.len() == before.len()
    &&& forall|j: int| 0 <= j < before.len() && j != index ==> #[trigger] after[j] == before[j]
    &&& after[index].plugin_info.path == before[index].plugin_info.path
    &&& after[index].enabled == succeeded
}

/// Discovering a plugin file as a whole: registering it, and, when it was new, starting
/// it. A known path leaves the register as it was; a new one is appended with its path,
/// the earlier plugins unchanged, and it runs exactly when its runner started and answered
/// the hello. The paths of the register stay pairwise distinct.
pub proof fn law_discovering_a_plugin(
    before: Seq<ManagedPlugin>,
    mid: Seq<ManagedPlugin>,
    after: Seq<ManagedPlugin>,
    path: Seq<char>,
    succeeded: bool,
)
    requires
        paths_distinct(before),
        check_step(before, path, mid),
        knows_path(before, path) ==> after == mid,
        !knows_path(before, path) ==> enable_step(mid, before.len() as int, succeeded, after),
    ensures
        paths_distinct(after),
        knows_path(before, path) ==> after == before,
        !knows_path(before, path) ==> {
            &&& after.len() == before.len() + 1
            &&& after.take(before.len() as int) == before
            &&& after.last().plugin_info.path@ == path
            &&& after.last().enabled == succeeded
        },
{
    if !knows_path(before, path) {
        law_registered_paths_stay_distinct(before, mid, path);
        let n = before.len() as int;
        assert(after.take(n) =~= before) by {
            assert forall|j: int| 0 <= j < n implies after.take(n)[j] == before[j] by {
                assert(after[j] == mid[j]);
                assert(mid.drop_last()[j] == mid[j]);
            }
        }
        assert(after.last() == after[n]);
        assert forall|i: int, j: int| 0 <= i < j < after.len() implies
            #[trigger] after[i].plugin_info.path@ != #[trigger] after[j].plugin_info.path@ by {
            assert(mid[i].plugin_info.path@ != mid[j].plugin_info.path@);
            if j < n {
                assert(after[i] == mid[i] && after[j] == mid[j]);
            } else {
                assert(after[i] == mid[i]);
            }
        }
    }
}

} // verus!
