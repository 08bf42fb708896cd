//! Bookkeeping for the child processes the shell starts.
//!
//! Each process is tracked under the id the web layer gave it, with the channel
//! that tells its streaming task to kill it. A process can be killed while it
//! still has that channel; once it exits, fails or is killed, the channel is gone.

use vstd::prelude::*;
use vstd::string::*;
use crate::clock::{as_millis, clock_now, since_epoch};
use crate::text::{is_err_with, owned, strings_of};

verus! {

#[verifier::external_type_specification]
#[verifier::external_body]
#[verifier::reject_recursive_types(T)]
pub struct ExOneshotSender<T>(tokio::sync::oneshot::Sender<T>);

/// Status of a tracked process.
#[derive(Debug, Clone, PartialEq, Eq)]
pub enum ProcessStatus {
    Running,
    Exited { code: Option<i32> },
    Killed,
    Failed { error: String },
}

/// A status as a value.
pub enum StatusView {
    Running,
    Exited(Option<i32>),
    Killed,
    Failed(Seq<char>),
}

impl View for ProcessStatus {
    type V = StatusView;

    open spec fn view(&self) -> StatusView {
        match self {
            ProcessStatus::Running => StatusView::Running,
            ProcessStatus::Exited { code } => StatusView::Exited(*code),
            ProcessStatus::Killed => StatusView::Killed,
            ProcessStatus::Failed { error } => StatusView::Failed(error@),
        }
    }
}

impl ProcessStatus {
    /// A copy of this status.
    pub fn duplicate(&self) -> (s: Self)
        ensures
            s@ == self@,
    {
        match self {
            ProcessStatus::Running => ProcessStatus::Running,
            ProcessStatus::Exited { code } => ProcessStatus::Exited { code: *code },
            ProcessStatus::Killed => ProcessStatus::Killed,
            ProcessStatus::Failed { error } => ProcessStatus::Failed { error: error.clone() },
        }
    }
}

/// Public metadata about a tracked process.
#[derive(Debug, Clone)]
pub struct ProcessInfo {
    pub id: String,
    pub command: String,
    pub args: Vec<String>,
    pub status: ProcessStatus,
    pub started_at: u64,
}

/// A process's metadata as values.
pub struct InfoView {
    pub id: Seq<char>,
    pub command: Seq<char>,
    pub args: Seq<Seq<char>>,
    pub status: StatusView,
    pub started_at: u64,
}

impl View for ProcessInfo {
    type V = InfoView;

    open spec fn view(&self) -> InfoView {
        InfoView {
            id: self.id@,
            command: self.command@,
            args: strings_of(self.args@),
            status: self.status@,
            started_at: self.started_at,
        }
    }
}

fn copy_strings(v: &Vec<String>) -> (r: Vec<String>)
    ensures
        strings_of(r@) == strings_of(v@),
{
    let mut r: Vec<String> = Vec::new();
    let mut i: usize = 0;
    while i < v.len()
        invariant
            i <= v.len(),
            strings_of(r@) == strings_of(v@).take(i as int),
        decreases v.len() - i,
    {
        let ghost before = strings_of(r@);
        r.push(v[i].clone());
        assert(strings_of(r@) =~= before.push(v@[i as int]@));
        assert(strings_of(v@).take(i + 1) =~= strings_of(v@).take(i as int).push(v@[i as int]@));
        i = i + 1;
    }
    assert(strings_of(v@).take(v.len() as int) =~= strings_of(v@));
    r
}

impl ProcessInfo {
    /// A copy of this metadata.
    pub fn duplicate(&self) -> (i: Self)
        ensures
            i@ == self@,
    {
        ProcessInfo {
            id: self.id.clone(),
            command: self.command.clone(),
            args: copy_strings(&self.args),
            status: self.status.duplicate(),
            started_at: self.started_at,
        }
    }
}

/// A tracked process: its metadata, and whether it can still be told to stop.
pub struct EntryView {
    pub info: InfoView,
    pub killable: bool,
}

/// Internal entry holding metadata and the kill channel sender.
struct ProcessEntry {
    info: ProcessInfo,
    kill_sender: Option<tokio::sync::oneshot::Sender<()>>,
}

impl View for ProcessEntry {
    type V = EntryView;

    closed spec fn view(&self) -> EntryView {
        EntryView { info: self.info@, killable: self.kill_sender is Some }
    }
}

/// Shared state for tracking active child processes, one entry per id.
pub struct ProcessManager {
    entries: Vec<ProcessEntry>,
}

/// No two entries share an id.
pub open spec fn ids_distinct(s: Seq<EntryView>) -> bool {
    forall|i: int, j: int|
        0 <= i < s.len() && 0 <= j < s.len() && i != j ==> #[trigger] s[i].info.id
            != #[trigger] s[j].info.id
}

/// The position of the entry for `id`, if there is one.
pub open spec fn position_of(s: Seq<EntryView>, id: Seq<char>) -> Option<int> {
    if exists|i: int| 0 <= i < s.len() && #[trigger] s[i].info.id == id {
        Some(choose|i: int| 0 <= i < s.len() && #[trigger] s[i].info.id == id)
    } else {
        None
    }
}

/// The entry for `id`, if there is one.
pub open spec fn entry_for(s: Seq<EntryView>, id: Seq<char>) -> Option<EntryView> {
    match position_of(s, id) {
        Some(i) => Some(s[i]),
        None => None,
    }
}

/// The entries after `register`: a new running, killable entry for `id`,
/// replacing any entry that already had that id.
pub open spec fn register_step(s: Seq<EntryView>, info: InfoView) -> Seq<EntryView> {
    let e = EntryView { info, killable: true };
    match position_of(s, info.id) {
        Some(i) => s.update(i, e),
        None => s.push(e),
    }
}

/// Message for an id that is already tracked.
pub open spec fn id_in_use_message(id: Seq<char>) -> Seq<char> {
    "Process ID '"@ + id + "' is already in use"@
}

/// Message for an id nobody registered.
pub open spec fn not_found_message(id: Seq<char>) -> Seq<char> {
    "Process '"@ + id + "' not found"@
}

/// Message when the kill signal found nobody listening.
pub open spec fn already_exited_message(id: Seq<char>) -> Seq<char> {
    "Process '"@ + id + "' already exited"@
}

/// Message for a process that can no longer be killed.
pub open spec fn not_running_message(id: Seq<char>) -> Seq<char> {
    "Process '"@ + id + "' is not running"@
}

/// What `kill` does to the entries, and what it answers, when the kill signal
/// is (`delivered`) or is not received by the process's task.
pub open spec fn kill_step(s: Seq<EntryView>, id: Seq<char>, delivered: bool) -> (
    Seq<EntryView>,
    Result<(), Seq<char>>,
) {
    match position_of(s, id) {
        None => (s, Err(not_found_message(id))),
        Some(i) => if !s[i].killable {
            (s, Err(not_running_message(id)))
        } else if delivered {
            (
                s.update(
                    i,
                    EntryView {
                        info: InfoView { status: StatusView::Killed, ..s[i].info },
                        killable: false,
                    },
                ),
                Ok(()),
            )
        } else {
            (
                s.update(i, EntryView { info: s[i].info, killable: false }),
                Err(already_exited_message(id)),
            )
        },
    }
}

/// The entries after a process finishes with `status`: that status, and no
/// longer killable. Unknown ids change nothing.
pub open spec fn finish_step(s: Seq<EntryView>, id: Seq<char>, status: StatusView) -> Seq<
    EntryView,
> {
    match position_of(s, id) {
        Some(i) => s.update(
            i,
            EntryView { info: InfoView { status, ..s[i].info }, killable: false },
        ),
        None => s,
    }
}

/// The entries after `remove`.
pub open spec fn remove_step(s: Seq<EntryView>, id: Seq<char>) -> Seq<EntryView> {
    match position_of(s, id) {
        Some(i) => s.remove(i),
        None => s,
    }
}

/// One entry after `kill_all`: killed if it could be, and no longer killable.
pub open spec fn kill_all_entry(e: EntryView) -> EntryView {
    if e.killable {
        EntryView { info: InfoView { status: StatusView::Killed, ..e.info }, killable: false }
    } else {
        e
    }
}

/// The entries after `kill_all`.
pub open spec fn kill_all_step(s: Seq<EntryView>) -> Seq<EntryView> {
    s.map_values(|e: EntryView| kill_all_entry(e))
}

/// The answer `r` is the outcome `outcome`.
pub open spec fn answers(r: Result<(), String>, outcome: Result<(), Seq<char>>) -> bool {
    match r {
        Ok(()) => outcome is Ok,
        Err(e) => outcome == Err::<(), Seq<char>>(e@),
    }
}

/// Sends the kill signal. Calls `tokio::sync::oneshot::Sender::send`, which
/// succeeds only if the receiving task is still there; that depends on the
/// process, so nothing is claimed about the answer.
#[verifier::external_body]
fn send_kill(sender: tokio::sync::oneshot::Sender<()>) -> (delivered: bool) {
    sender.send(()).is_ok()
}

/// Milliseconds since the Unix epoch, as a `u64`; zero for a clock set before
/// the epoch.
fn now_millis() -> (ms: u64) {
    match since_epoch(&clock_now()) {
        Some(d) => as_millis(&d) as u64,
        None => 0,
    }
}

proof fn lemma_position(s: Seq<EntryView>, id: Seq<char>, i: int)
    requires
        ids_distinct(s),
        0 <= i < s.len(),
        s[i].info.id == id,
    ensures
        position_of(s, id) == Some(i),
{
    let k = choose|k: int| 0 <= k < s.len() && #[trigger] s[k].info.id == id;
    assert(s[k].info.id == s[i].info.id);
}

impl View for ProcessManager {
    type V = Seq<EntryView>;

    /// The tracked processes, in the order they were first registered.
    closed spec fn view(&self) -> Seq<EntryView> {
        self.entries@.map_values(|e: ProcessEntry| e@)
    }
}

impl ProcessManager {
    /// The manager keeps one entry per id (so the laws below, stated over
    /// [`ids_distinct`] sequences, apply to every manager).
    pub open spec fn wf(&self) -> bool {
        ids_distinct(self@)
    }

    pub fn new() -> (m: Self)
        ensures
            m.wf(),
            m@ == Seq::<EntryView>::empty(),
    {
        let m = ProcessManager { entries: Vec::new() };
        assert(m@ =~= Seq::<EntryView>::empty());
        m
    }

    /// Where the entry for `id` is.
    fn find(&self, id: &str) -> (r: Option<usize>)
        requires
            self.wf(),
        ensures
            match r {
                Some(i) => position_of(self@, id@) == Some(i as int),
                None => position_of(self@, id@) is None,
            },
    {
        let target = owned(id);
        let mut i: usize = 0;
        while i < self.entries.len()
            invariant
                i <= self.entries.len(),
                self.wf(),
                target@ == id@,
                forall|k: int| 0 <= k < i ==> #[trigger] self@[k].info.id != id@,
            decreases self.entries.len() - i,
        {
            assert(self@[i as int] == self.entries@[i as int]@);
            if self.entries[i].info.id == target {
                proof {
                    lemma_position(self@, id@, i as int);
                }
                return Some(i);
            }
            i = i + 1;
        }
        None
    }

    /// Register a new process with status Running.
    ///
    /// An entry already registered under the same id is replaced.
    pub fn register(
        &mut self,
        id: String,
        command: String,
        args: Vec<String>,
        kill_sender: tokio::sync::oneshot::Sender<()>,
    )
        requires
            old(self).wf(),
        ensures
            final(self).wf(),
            exists|t: u64|
                final(self)@ == register_step(
                    old(self)@,
                    InfoView {
                        id: id@,
                        command: command@,
                        args: strings_of(args@),
                        status: StatusView::Running,
                        started_at: t,
                    },
                ),
    {
        let now = now_millis();
        let ghost info = InfoView {
            id: id@,
            command: command@,
            args: strings_of(args@),
            status: StatusView::Running,
            started_at: now,
        };
        let found = self.find(id.as_str());
        let entry = ProcessEntry {
            info: ProcessInfo {
                id,
                command,
                args,
                status: ProcessStatus::Running,
                started_at: now,
            },
            kill_sender: Some(kill_sender),
        };
        let ghost old_view = self@;
        match found {
            Some(i) => {
                self.entries.set(i, entry);
                assert(self@ =~= old_view.update(i as int, EntryView { info, killable: true }));
            },
            None => {
                self.entries.push(entry);
                assert(self@ =~= old_view.push(EntryView { info, killable: true }));
            },
        }
        assert(self@ == register_step(old_view, info));
    }

    /// Send a kill signal to a running process.
    ///
    /// The entry's kill channel is taken (a process is signalled at most once)
    /// and the signal sent through it; whether the process's task was still there
    /// to receive it is up to that task, and decides the answer (see
    /// [`Self::settle_kill`]).
    pub fn kill(&mut self, id: &str) -> (r: Result<(), String>)
        requires
            old(self).wf(),
        ensures
            final(self).wf(),
            exists|delivered: bool|
                final(self)@ == (#[trigger] kill_step(old(self)@, id@, delivered)).0
                    && answers(r, kill_step(old(self)@, id@, delivered).1),
    {
        let ghost before = self@;
        let i = match self.find(id) {
            Some(i) => i,
            None => {
                let m = crate::security::concat3("Process '", id, "' not found");
                assert(kill_step(before, id@, true).0 == before);
                return Err(m);
            },
        };
        assert(self@[i as int] == self.entries@[i as int]@);
        if self.entries[i].kill_sender.is_none() {
            assert(kill_step(before, id@, true).0 == before);
            return Err(crate::security::concat3("Process '", id, "' is not running"));
        }
        let mut entry = self.entries.remove(i);
        let sender = match entry.kill_sender.take() {
            Some(sender) => sender,
            None => {
                self.entries.insert(i, entry);
                assert(self@ =~= before);
                return Err(crate::security::concat3("Process '", id, "' is not running"));
            },
        };
        self.entries.insert(i, entry);
        assert(self@ =~= before.update(
            i as int,
            EntryView { info: before[i as int].info, killable: false },
        ));
        let delivered = send_kill(sender);
        self.settle_kill(id, i, delivered, Ghost(before))
    }

    /// Record how a kill attempt ended, once the channel of the entry at `i`
    /// (the entry for `id` in the entries as they were, `before`) has been taken
    /// and the signal sent: killed when it was `delivered`, and otherwise the
    /// process had already exited. Either way it cannot be killed again.
    fn settle_kill(&mut self, id: &str, i: usize, delivered: bool, Ghost(before): Ghost<Seq<EntryView>>) -> (r:
        Result<(), String>)
        requires
            ids_distinct(before),
            position_of(before, id@) == Some(i as int),
            before[i as int].killable,
            old(self)@ == before.update(
                i as int,
                EntryView { info: before[i as int].info, killable: false },
            ),
        ensures
            final(self).wf(),
            final(self)@ == kill_step(before, id@, delivered).0,
            answers(r, kill_step(before, id@, delivered).1),
    {
        proof {
            law_operations_keep_ids_distinct(before, before[i as int].info, id@, delivered, StatusView::Running);
            assert(exists|k: int| 0 <= k < before.len() && #[trigger] before[k].info.id == id@);
            assert(0 <= i < before.len());
            assert(self@.len() == self.entries@.len());
        }
        assert(self@[i as int] == self.entries@[i as int]@);
        if delivered {
            let ghost prev = self@;
            let mut entry = self.entries.remove(i);
            assert(entry@ == prev[i as int]);
            entry.info.status = ProcessStatus::Killed;
            self.entries.insert(i, entry);
            assert(self@ =~= prev.update(i as int, entry@));
            assert(self@ =~= kill_step(before, id@, true).0);
            Ok(())
        } else {
            assert(self@ =~= kill_step(before, id@, false).0);
            Err(crate::security::concat3("Process '", id, "' already exited"))
        }
    }

    fn finish(&mut self, id: &str, status: ProcessStatus)
        requires
            old(self).wf(),
        ensures
            final(self).wf(),
            final(self)@ == finish_step(old(self)@, id@, status@),
    {
        let ghost old_view = self@;
        match self.find(id) {
            Some(i) => {
                assert(self@[i as int] == self.entries@[i as int]@);
                let mut entry = self.entries.remove(i);
                entry.info.status = status;
                entry.kill_sender = None;
                self.entries.insert(i, entry);
                assert(self@ =~= finish_step(old_view, id@, status@));
            },
            None => {},
        }
    }

    /// Mark a process as exited with the given code.
    pub fn mark_exited(&mut self, id: &str, code: Option<i32>)
        requires
            old(self).wf(),
        ensures
            final(self).wf(),
            final(self)@ == finish_step(old(self)@, id@, StatusView::Exited(code)),
    {
        self.finish(id, ProcessStatus::Exited { code });
    }

    /// Mark a process as failed with an error message.
    pub fn mark_failed(&mut self, id: &str, error: String)
        requires
            old(self).wf(),
        ensures
            final(self).wf(),
            final(self)@ == finish_step(old(self)@, id@, StatusView::Failed(error@)),
    {
        self.finish(id, ProcessStatus::Failed { error });
    }

    /// Get the status of a specific process.
    pub fn status(&self, id: &str) -> (r: Option<ProcessInfo>)
        requires
            self.wf(),
        ensures
            match r {
                Some(info) => entry_for(self@, id@) matches Some(e) && info@ == e.info,
                None => entry_for(self@, id@) is None,
            },
    {
        match self.find(id) {
            Some(i) => {
                assert(self@[i as int] == self.entries@[i as int]@);
                Some(self.entries[i].info.duplicate())
            },
            None => None,
        }
    }

    /// Refuse an id the manager already tracks, so a new process never takes
    /// over an id the web layer still refers to.
    pub fn ensure_unused(&self, id: &str) -> (r: Result<(), String>)
        requires
            self.wf(),
        ensures
            entry_for(self@, id@) is None <==> r is Ok,
            entry_for(self@, id@) is Some ==> is_err_with(r, id_in_use_message(id@)),
    {
        match self.find(id) {
            Some(_) => Err(crate::security::concat3("Process ID '", id, "' is already in use")),
            None => Ok(()),
        }
    }

    /// List all tracked processes.
    pub fn list(&self) -> (r: Vec<ProcessInfo>)
        ensures
            r@.map_values(|i: ProcessInfo| i@) == self@.map_values(|e: EntryView| e.info),
    {
        let mut r: Vec<ProcessInfo> = Vec::new();
        let mut i: usize = 0;
        while i < self.entries.len()
            invariant
                i <= self.entries.len(),
                r@.map_values(|i: ProcessInfo| i@) == self@.map_values(|e: EntryView| e.info).take(
                    i as int,
                ),
            decreases self.entries.len() - i,
        {
            let ghost before = r@.map_values(|i: ProcessInfo| i@);
            assert(self@[i as int] == self.entries@[i as int]@);
            r.push(self.entries[i].info.duplicate());
            assert(r@.map_values(|i: ProcessInfo| i@) =~= before.push(self@[i as int].info));
            assert(self@.map_values(|e: EntryView| e.info).take(i + 1) =~= self@.map_values(
                |e: EntryView| e.info,
            ).take(i as int).push(self@[i as int].info));
            i = i + 1;
        }
        assert(self@.map_values(|e: EntryView| e.info).take(self.entries.len() as int)
            =~= self@.map_values(|e: EntryView| e.info));
        r
    }

    /// Remove a process entry (cleanup after exit).
    pub fn remove(&mut self, id: &str)
        requires
            old(self).wf(),
        ensures
            final(self).wf(),
            final(self)@ == remove_step(old(self)@, id@),
    {
        let ghost old_view = self@;
        match self.find(id) {
            Some(i) => {
                self.entries.remove(i);
                assert(self@ =~= old_view.remove(i as int));
            },
            None => {},
        }
    }

    /// Kill all running processes (called on app exit).
    pub fn kill_all(&mut self)
        requires
            old(self).wf(),
        ensures
            final(self).wf(),
            final(self)@ == kill_all_step(old(self)@),
    {
        let ghost old_view = self@;
        let n = self.entries.len();
        let mut i: usize = 0;
        while i < n
            invariant
                i <= n,
                n == self.entries.len(),
                old_view.len() == n,
                forall|k: int| 0 <= k < i ==> #[trigger] self@[k] == kill_all_entry(old_view[k]),
                forall|k: int| i <= k < n ==> #[trigger] self@[k] == old_view[k],
            decreases n - i,
        {
            let ghost before = self@;
            assert(self@[i as int] == self.entries@[i as int]@);
            let mut entry = self.entries.remove(i);
            assert(entry@ == old_view[i as int]);
            match entry.kill_sender.take() {
                Some(sender) => {
                    let _ = send_kill(sender);
                    entry.info.status = ProcessStatus::Killed;
                },
                None => {},
            }
            self.entries.insert(i, entry);
            assert(self@ =~= before.update(i as int, kill_all_entry(old_view[i as int])));
            i = i + 1;
        }
        assert(self@ =~= kill_all_step(old_view));
    }
}

/// The bookkeeping keeps one entry per id through every operation.
pub proof fn law_operations_keep_ids_distinct(
    s: Seq<EntryView>,
    info: InfoView,
    id: Seq<char>,
    delivered: bool,
    status: StatusView,
)
    requires
        ids_distinct(s),
    ensures
        ids_distinct(register_step(s, info)),
        ids_distinct(kill_step(s, id, delivered).0),
        ids_distinct(finish_step(s, id, status)),
        ids_distinct(remove_step(s, id)),
        ids_distinct(kill_all_step(s)),
{
    let r = register_step(s, info);
    match position_of(s, info.id) {
        Some(i) => {
            assert forall|a: int, b: int|
                0 <= a < r.len() && 0 <= b < r.len() && a != b implies #[trigger] r[a].info.id
                != #[trigger] r[b].info.id by {
                if a != i && b != i {
                    assert(r[a] == s[a] && r[b] == s[b]);
                } else if a == i {
                    assert(s[b].info.id != s[i].info.id);
                } else {
                    assert(s[a].info.id != s[i].info.id);
                }
            }
        },
        None => {
            assert forall|a: int, b: int|
                0 <= a < r.len() && 0 <= b < r.len() && a != b implies #[trigger] r[a].info.id
                != #[trigger] r[b].info.id by {
                if a < s.len() && b < s.len() {
                    assert(r[a] == s[a] && r[b] == s[b]);
                } else if a == s.len() {
                    assert(r[b] == s[b]);
                } else {
                    assert(r[a] == s[a]);
                }
            }
        },
    }
    let k = kill_step(s, id, delivered).0;
    assert forall|a: int, b: int|
        0 <= a < k.len() && 0 <= b < k.len() && a != b implies #[trigger] k[a].info.id
        != #[trigger] k[b].info.id by {
        assert(k[a].info.id == s[a].info.id && k[b].info.id == s[b].info.id);
    }
    let f = finish_step(s, id, status);
    assert forall|a: int, b: int|
        0 <= a < f.len() && 0 <= b < f.len() && a != b implies #[trigger] f[a].info.id
        != #[trigger] f[b].info.id by {
        assert(f[a].info.id == s[a].info.id && f[b].info.id == s[b].info.id);
    }
    let m = remove_step(s, id);
    match position_of(s, id) {
        Some(i) => {
            assert forall|a: int, b: int|
                0 <= a < m.len() && 0 <= b < m.len() && a != b implies #[trigger] m[a].info.id
                != #[trigger] m[b].info.id by {
                let sa = if a < i { a } else { a + 1 };
                let sb = if b < i { b } else { b + 1 };
                assert(m[a] == s[sa] && m[b] == s[sb]);
            }
        },
        None => {},
    }
    let ka = kill_all_step(s);
    assert forall|a: int, b: int|
        0 <= a < ka.len() && 0 <= b < ka.len() && a != b implies #[trigger] ka[a].info.id
        != #[trigger] ka[b].info.id by {
        assert(ka[a].info.id == s[a].info.id && ka[b].info.id == s[b].info.id);
    }
}

/// A registered process is found under its id, running and killable.
pub proof fn law_registered_process_is_running(s: Seq<EntryView>, info: InfoView)
    requires
        ids_distinct(s),
        info.status == StatusView::Running,
    ensures
        entry_for(register_step(s, info), info.id) == Some(EntryView { info, killable: true }),
{
    law_operations_keep_ids_distinct(s, info, info.id, true, StatusView::Running);
    let r = register_step(s, info);
    match position_of(s, info.id) {
        Some(i) => {
            lemma_position(r, info.id, i);
        },
        None => {
            lemma_position(r, info.id, s.len() as int);
        },
    }
}

/// A process is killed at most once: after any kill attempt on a known id,
/// whether or not the signal arrived, a second attempt answers that it is
/// not running and changes nothing.
pub proof fn law_a_process_is_killed_at_most_once(
    s: Seq<EntryView>,
    id: Seq<char>,
    first: bool,
    second: bool,
)
    requires
        ids_distinct(s),
        position_of(s, id) is Some,
    ensures
        kill_step(kill_step(s, id, first).0, id, second) == (
            kill_step(s, id, first).0,
            Err::<(), Seq<char>>(not_running_message(id)),
        ),
{
    let i = position_of(s, id).unwrap();
    let k = kill_step(s, id, first).0;
    law_operations_keep_ids_distinct(s, InfoView { status: StatusView::Running, ..s[i].info }, id, first, StatusView::Running);
    lemma_position(k, id, i);
}

/// A process that has exited or failed can no longer be killed.
pub proof fn law_finished_processes_cannot_be_killed(
    s: Seq<EntryView>,
    id: Seq<char>,
    status: StatusView,
    delivered: bool,
)
    requires
        ids_distinct(s),
        position_of(s, id) is Some,
    ensures
        kill_step(finish_step(s, id, status), id, delivered).1 == Err::<(), Seq<char>>(
            not_running_message(id),
        ),
{
    let i = position_of(s, id).unwrap();
    law_operations_keep_ids_distinct(s, s[i].info, id, delivered, status);
    lemma_position(finish_step(s, id, status), id, i);
}

/// After `kill_all` nothing is left to kill, every process that could be killed
/// is marked killed, and the others keep their status.
pub proof fn law_kill_all_leaves_nothing_running(s: Seq<EntryView>)
    ensures
        kill_all_step(s).len() == s.len(),
        forall|k: int| 0 <= k < s.len() ==> !(#[trigger] kill_all_step(s)[k]).killable,
        forall|k: int|
            0 <= k < s.len() ==> (#[trigger] kill_all_step(s)[k]).info.status == if s[k].killable {
                StatusView::Killed
            } else {
                s[k].info.status
            },
{
}

/// Removing an id forgets it.
pub proof fn law_removed_processes_are_forgotten(s: Seq<EntryView>, id: Seq<char>)
    requires
        ids_distinct(s),
    ensures
        entry_for(remove_step(s, id), id) is None,
{
    let m = remove_step(s, id);
    match position_of(s, id) {
        Some(i) => {
            if exists|a: int| 0 <= a < m.len() && #[trigger] m[a].info.id == id {
                let a = choose|a: int| 0 <= a < m.len() && #[trigger] m[a].info.id == id;
                let sa = if a < i { a } else { a + 1 };
                assert(m[a] == s[sa]);
                assert(s[sa].info.id == s[i].info.id);
            }
        },
        None => {},
    }
}

} // verus!
