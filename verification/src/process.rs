//! Supervision of locally spawned model-server processes: the process
//! registry, the single-owner handle slot around the OS child process, the
//! bounded output log with its read cursor, and the exit/termination
//! bookkeeping.
//!
//! The spawning itself, the output pump and the kill signals are performed by
//! tasks outside this crate; every decision and every mutation of the
//! registry happens here.

use vstd::prelude::*;
use crate::text::str_eq;
use crate::text::dec_int;
use crate::text::i64_to_dec_string;

verus! {

/// Output lines kept per process; the oldest lines beyond this are dropped.
pub const MAX_OUTPUT_LINES: usize = 1000;

#[verifier::external_type_specification]
#[verifier::external_body]
pub struct ExChild(tokio::process::Child);

/// Relies on `tokio::process::Child::id`: the OS pid, while the process has
/// not been reaped; nothing is assumed of the value.
pub assume_specification[ tokio::process::Child::id ](child: &tokio::process::Child) -> (r: Option<
    u32,
>);

#[derive(Clone, Copy, Debug, PartialEq, Eq, Structural)]
pub enum ProcessStatus {
    Starting,
    Running,
    Stopped,
    Failed,
}

#[derive(Debug)]
pub struct ProcessInfo {
    pub id: String,
    pub model_path: String,
    pub model_name: String,
    pub host: String,
    pub port: u16,
    pub command: Vec<String>,
    pub status: ProcessStatus,
    /// Tagged output lines, oldest first, at most `MAX_OUTPUT_LINES` of them.
    pub output: Vec<String>,
    /// Unix seconds at which the process was launched.
    pub created_at: i64,
    /// How many output lines have already been delivered to a reader.
    pub last_sent_line: Option<usize>,
}

pub open spec fn info_wf(p: ProcessInfo) -> bool {
    &&& p.output@.len() <= MAX_OUTPUT_LINES
    &&& match p.last_sent_line {
        Some(n) => n <= p.output@.len(),
        None => true,
    }
}

/// The exclusively-owned slot holding the underlying OS process handle.  The
/// handle can be taken out at most once; afterwards the slot stays empty, so
/// a process is never killed twice through it.
#[derive(Debug)]
pub struct ProcessHandle {
    pub child: Option<tokio::process::Child>,
    pub process_id: String,
}

impl ProcessHandle {
    pub fn new(child: tokio::process::Child, process_id: String) -> (r: ProcessHandle)
        ensures
            r.child == Some(child),
            r.process_id == process_id,
    {
        ProcessHandle { child: Some(child), process_id }
    }

    /// Empties the slot permanently and hands the handle to the caller.
    pub fn take_child(&mut self) -> (r: Option<tokio::process::Child>)
        ensures
            r == old(self).child,
            final(self).child is None,
            final(self).process_id == old(self).process_id,
    {
        self.child.take()
    }

    pub fn get_child_mut(&mut self) -> (r: Option<&mut tokio::process::Child>)
        ensures
            final(self).process_id == old(self).process_id,
            old(self).child is None ==> r is None && final(self).child is None,
    {
        self.child.as_mut()
    }

    /// The OS pid, while the slot is occupied and the process runs.
    pub fn get_child_id(&self) -> (r: Option<u32>)
        ensures
            self.child is None ==> r is None,
    {
        match &self.child {
            Some(c) => c.id(),
            None => None,
        }
    }
}

#[derive(Debug, Clone)]
pub struct ProcessOutput {
    pub output: Vec<String>,
    pub is_running: bool,
    pub return_code: Option<i32>,
}

#[derive(Debug, Clone)]
pub struct LaunchResult {
    pub success: bool,
    pub process_id: String,
    pub server_host: String,
    pub server_port: u16,
    pub model_name: String,
    pub message: String,
}

/// The two registries of the supervisor: one status record per launched
/// process, and one handle slot per process that is still alive.  Guarded by
/// one lock outside this crate.
#[derive(Debug)]
pub struct ProcessTable {
    pub infos: Vec<ProcessInfo>,
    pub handles: Vec<ProcessHandle>,
}

pub open spec fn info_ids_unique(t: Seq<ProcessInfo>) -> bool {
    forall|i: int, j: int| 0 <= i < j < t.len() ==> t[i].id@ != t[j].id@
}

pub open spec fn handle_ids_unique(t: Seq<ProcessHandle>) -> bool {
    forall|i: int, j: int| 0 <= i < j < t.len() ==> t[i].process_id@ != t[j].process_id@
}

pub open spec fn table_wf(t: ProcessTable) -> bool {
    &&& info_ids_unique(t.infos@)
    &&& handle_ids_unique(t.handles@)
    &&& forall|i: int| 0 <= i < t.infos@.len() ==> info_wf(#[trigger] t.infos@[i])
}

pub open spec fn has_info_id(t: Seq<ProcessInfo>, id: Seq<char>) -> bool {
    exists|i: int| 0 <= i < t.len() && (#[trigger] t[i].id)@ == id
}

pub open spec fn has_handle_id(t: Seq<ProcessHandle>, id: Seq<char>) -> bool {
    exists|i: int| 0 <= i < t.len() && (#[trigger] t[i].process_id)@ == id
}

/// The status record after one output line is appended: the line goes to the
/// end, and the oldest line is dropped once the log is full.
pub open spec fn spec_output_pushed(p: ProcessInfo, line: String) -> Seq<String> {
    if p.output@.len() < MAX_OUTPUT_LINES {
        p.output@.push(line)
    } else {
        p.output@.push(line).drop_first()
    }
}

impl ProcessTable {
    pub fn new() -> (r: ProcessTable)
        ensures
            r.infos@.len() == 0,
            r.handles@.len() == 0,
            table_wf(r),
    {
        ProcessTable { infos: Vec::new(), handles: Vec::new() }
    }

    pub fn find_info(&self, id: &str) -> (r: Option<usize>)
        ensures
            match r {
                Some(i) => i < self.infos@.len() && self.infos@[i as int].id@ == id@,
                None => !has_info_id(self.infos@, id@),
            },
    {
        let mut i: usize = 0;
        while i < self.infos.len()
            invariant
                i <= self.infos@.len(),
                forall|j: int| 0 <= j < i ==> (#[trigger] self.infos@[j].id)@ != id@,
            decreases self.infos@.len() - i,
        {
            if str_eq(self.infos[i].id.as_str(), id) {
                return Some(i);
            }
            i = i + 1;
        }
        None
    }

    pub fn find_handle(&self, id: &str) -> (r: Option<usize>)
        ensures
            match r {
                Some(i) => i < self.handles@.len() && self.handles@[i as int].process_id@ == id@,
                None => !has_handle_id(self.handles@, id@),
            },
    {
        let mut i: usize = 0;
        while i < self.handles.len()
            invariant
                i <= self.handles@.len(),
                forall|j: int| 0 <= j < i ==> (#[trigger] self.handles@[j].process_id)@ != id@,
            decreases self.handles@.len() - i,
        {
            if str_eq(self.handles[i].process_id.as_str(), id) {
                return Some(i);
            }
            i = i + 1;
        }
        None
    }

    /// Registers a freshly spawned process with its status record and its
    /// handle slot.
    pub fn insert_process(&mut self, info: ProcessInfo, handle: ProcessHandle)
        requires
            table_wf(*old(self)),
            info_wf(info),
            handle.process_id@ == info.id@,
            !has_info_id(old(self).infos@, info.id@),
            !has_handle_id(old(self).handles@, info.id@),
        ensures
            table_wf(*final(self)),
            final(self).infos@ == old(self).infos@.push(info),
            final(self).handles@ == old(self).handles@.push(handle),
    {
        self.infos.push(info);
        self.handles.push(handle);
    }

    /// The output pump observed the process alive: Starting becomes Running.
    pub fn set_running(&mut self, id: &str) -> (found: bool)
        requires
            table_wf(*old(self)),
        ensures
            table_wf(*final(self)),
            final(self).handles@ == old(self).handles@,
            found == has_info_id(old(self).infos@, id@),
            !found ==> final(self).infos@ == old(self).infos@,
            found ==> exists|i: int|
                {
                    &&& 0 <= i < old(self).infos@.len()
                    &&& (#[trigger] old(self).infos@[i]).id@ == id@
                    &&& final(self).infos@ == old(self).infos@.update(
                        i,
                        (ProcessInfo { status: ProcessStatus::Running, ..old(self).infos@[i] }),
                    )
                },
    {
        match self.find_info(id) {
            Some(i) => {
                let p = &mut self.infos[i];
                p.status = ProcessStatus::Running;
                proof {
                    assert(self.infos@ =~= old(self).infos@.update(
                        i as int,
                        (ProcessInfo { status: ProcessStatus::Running, ..old(self).infos@[i as int] }),
                    ));
                }
                true
            },
            None => false,
        }
    }

    /// Appends one tagged output line to a process's bounded log.
    pub fn add_output_line(&mut self, id: &str, line: String) -> (found: bool)
        requires
            table_wf(*old(self)),
        ensures
            table_wf(*final(self)),
            final(self).handles@ == old(self).handles@,
            found == has_info_id(old(self).infos@, id@),
            !found ==> final(self).infos@ == old(self).infos@,
            found ==> exists|i: int|
                {
                    &&& 0 <= i < old(self).infos@.len()
                    &&& (#[trigger] old(self).infos@[i]).id@ == id@
                    &&& final(self).infos@.len() == old(self).infos@.len()
                    &&& (forall|j: int|
                        0 <= j < old(self).infos@.len() && j != i ==> final(self).infos@[j] == old(
                            self,
                        ).infos@[j])
                    &&& final(self).infos@[i] == (ProcessInfo {
                        output: final(self).infos@[i].output,
                        last_sent_line: final(self).infos@[i].last_sent_line,
                        ..old(self).infos@[i]
                    })
                    &&& final(self).infos@[i].output@ == spec_output_pushed(
                        old(self).infos@[i],
                        line,
                    )
                    &&& final(self).infos@[i].last_sent_line == spec_cursor_after_drop(
                        old(self).infos@[i],
                    )
                },
    {
        match self.find_info(id) {
            Some(i) => {
                let full = self.infos[i].output.len() >= MAX_OUTPUT_LINES;
                let p = &mut self.infos[i];
                p.output.push(line);
                if full {
                    p.output.remove(0);
                    match p.last_sent_line {
                        Some(n) => {
                            if n > 0 {
                                p.last_sent_line = Some(n - 1);
                            }
                        },
                        None => {},
                    }
                }
                proof {
                    assert(self.infos@[i as int].output@ =~= spec_output_pushed(
                        old(self).infos@[i as int],
                        line,
                    ));
                }
                true
            },
            None => false,
        }
    }
}

/// When a full log drops its oldest line, the read cursor slides back with
/// it, so no line is skipped and none is delivered twice.
pub open spec fn spec_cursor_after_drop(p: ProcessInfo) -> Option<usize> {
    if p.output@.len() < MAX_OUTPUT_LINES {
        p.last_sent_line
    } else {
        match p.last_sent_line {
            Some(n) => if n > 0 {
                Some((n - 1) as usize)
            } else {
                Some(0usize)
            },
            None => None,
        }
    }
}


/// Lines a cursor-based read delivers: everything after the cursor, nothing
/// twice.
pub open spec fn spec_lines_delivered(log: Seq<String>, cursor: int) -> Seq<String> {
    if cursor < log.len() {
        log.skip(cursor)
    } else {
        Seq::empty()
    }
}

/// Where the cursor stands after a read.
pub open spec fn spec_cursor_post(log: Seq<String>, cursor: int) -> int {
    if cursor < log.len() {
        log.len() as int
    } else {
        cursor
    }
}

/// The cursor a record reads from: lines before it were already delivered.
pub open spec fn spec_read_cursor(p: ProcessInfo) -> int {
    match p.last_sent_line {
        Some(n) => n as int,
        None => 0,
    }
}

impl ProcessTable {
    /// The output pump saw both pipes close and the process exit: the record
    /// is stopped and the exit code is logged.
    pub fn record_exit(&mut self, id: &str, exit_code: i64) -> (found: bool)
        requires
            table_wf(*old(self)),
        ensures
            table_wf(*final(self)),
            final(self).handles@ == old(self).handles@,
            found == has_info_id(old(self).infos@, id@),
            !found ==> final(self).infos@ == old(self).infos@,
            found ==> exists|i: int|
                {
                    &&& 0 <= i < old(self).infos@.len()
                    &&& (#[trigger] old(self).infos@[i]).id@ == id@
                    &&& final(self).infos@.len() == old(self).infos@.len()
                    &&& (forall|j: int|
                        0 <= j < old(self).infos@.len() && j != i ==> final(self).infos@[j] == old(
                            self,
                        ).infos@[j])
                    &&& final(self).infos@[i] == (ProcessInfo {
                        status: ProcessStatus::Stopped,
                        output: final(self).infos@[i].output,
                        last_sent_line: final(self).infos@[i].last_sent_line,
                        ..old(self).infos@[i]
                    })
                    &&& final(self).infos@[i].output@.len() > 0
                    &&& final(self).infos@[i].output@.last()@ == "Process exited with code: "@
                        + dec_int(exit_code as int)
                    &&& final(self).infos@[i].output@.drop_last() == (if old(
                        self,
                    ).infos@[i].output@.len() < MAX_OUTPUT_LINES {
                        old(self).infos@[i].output@
                    } else {
                        old(self).infos@[i].output@.drop_first()
                    })
                    &&& final(self).infos@[i].last_sent_line == spec_cursor_after_drop(
                        old(self).infos@[i],
                    )
                },
    {
        let mut msg = "Process exited with code: ".to_owned();
        let digits = i64_to_dec_string(exit_code);
        msg.append(digits.as_str());
        match self.find_info(id) {
            Some(i) => {
                let full = self.infos[i].output.len() >= MAX_OUTPUT_LINES;
                let p = &mut self.infos[i];
                p.status = ProcessStatus::Stopped;
                p.output.push(msg);
                if full {
                    p.output.remove(0);
                    match p.last_sent_line {
                        Some(n) => {
                            if n > 0 {
                                p.last_sent_line = Some(n - 1);
                            }
                        },
                        None => {},
                    }
                }
                true
            },
            None => false,
        }
    }

    /// Takes the OS handle out of its slot for killing or waiting, removing
    /// the slot: a second call for the same id finds nothing, so the process
    /// is never killed twice through the table.
    pub fn take_handle_child(&mut self, id: &str) -> (r: Option<tokio::process::Child>)
        requires
            table_wf(*old(self)),
        ensures
            table_wf(*final(self)),
            final(self).infos@ == old(self).infos@,
            !has_handle_id(old(self).handles@, id@) ==> r is None && final(self).handles@ == old(
                self,
            ).handles@,
            has_handle_id(old(self).handles@, id@) ==> exists|i: int|
                {
                    &&& 0 <= i < old(self).handles@.len()
                    &&& (#[trigger] old(self).handles@[i]).process_id@ == id@
                    &&& final(self).handles@ == old(self).handles@.remove(i)
                    &&& r == old(self).handles@[i].child
                    &&& !has_handle_id(final(self).handles@, id@)
                },
    {
        match self.find_handle(id) {
            Some(i) => {
                let mut handle = self.handles.remove(i);
                let child = handle.take_child();
                proof {
                    assert forall|j: int|
                        0 <= j < self.handles@.len() implies (#[trigger] self.handles@[j]
                        .process_id)@ != id@ by {
                        if j < i {
                            assert(self.handles@[j] == old(self).handles@[j]);
                        } else {
                            assert(self.handles@[j] == old(self).handles@[j + 1]);
                        }
                    }
                }
                child
            },
            None => None,
        }
    }

    /// Forgets a process record after termination.  Terminating an id that
    /// is gone already is a no-op, not an error.
    pub fn remove_process_record(&mut self, id: &str) -> (found: bool)
        requires
            table_wf(*old(self)),
        ensures
            table_wf(*final(self)),
            final(self).handles@ == old(self).handles@,
            found == has_info_id(old(self).infos@, id@),
            !found ==> final(self).infos@ == old(self).infos@,
            found ==> exists|i: int|
                {
                    &&& 0 <= i < old(self).infos@.len()
                    &&& (#[trigger] old(self).infos@[i]).id@ == id@
                    &&& final(self).infos@ == old(self).infos@.remove(i)
                },
    {
        match self.find_info(id) {
            Some(i) => {
                self.infos.remove(i);
                true
            },
            None => false,
        }
    }

    /// Cursor-based read: delivers only the lines produced since the
    /// previous read, and advances the cursor past them.
    pub fn read_new_output(&mut self, id: &str) -> (r: Result<ProcessOutput, String>)
        requires
            table_wf(*old(self)),
        ensures
            table_wf(*final(self)),
            final(self).handles@ == old(self).handles@,
            match r {
                Ok(out) => exists|i: int|
                    {
                        &&& 0 <= i < old(self).infos@.len()
                        &&& (#[trigger] old(self).infos@[i]).id@ == id@
                        &&& final(self).infos@.len() == old(self).infos@.len()
                        &&& (forall|j: int|
                            0 <= j < old(self).infos@.len() && j != i ==> final(self).infos@[j]
                                == old(self).infos@[j])
                        &&& out.output@ == spec_lines_delivered(
                            old(self).infos@[i].output@,
                            spec_read_cursor(old(self).infos@[i]),
                        )
                        &&& final(self).infos@[i] == (ProcessInfo {
                            last_sent_line: final(self).infos@[i].last_sent_line,
                            ..old(self).infos@[i]
                        })
                        &&& spec_read_cursor(final(self).infos@[i]) == spec_cursor_post(
                            old(self).infos@[i].output@,
                            spec_read_cursor(old(self).infos@[i]),
                        )
                        &&& out.is_running == (old(self).infos@[i].status == ProcessStatus::Running
                            || old(self).infos@[i].status == ProcessStatus::Starting)
                        &&& out.return_code is None
                    },
                Err(m) => {
                    &&& !has_info_id(old(self).infos@, id@)
                    &&& m@ == "Process not found"@
                    &&& final(self).infos@ == old(self).infos@
                },
            },
    {
        match self.find_info(id) {
            Some(i) => {
                let total: usize = self.infos[i].output.len();
                let last_sent: usize = match self.infos[i].last_sent_line {
                    Some(n) => n,
                    None => 0,
                };
                let is_running = matches!(
                    self.infos[i].status,
                    ProcessStatus::Running | ProcessStatus::Starting
                );
                let mut new_output: Vec<String> = Vec::new();
                if last_sent < total {
                    let mut j: usize = last_sent;
                    while j < total
                        invariant
                            last_sent <= j <= total,
                            total == self.infos@[i as int].output@.len(),
                            i < self.infos@.len(),
                            self == old(self),
                            new_output@ == self.infos@[i as int].output@.subrange(
                                last_sent as int,
                                j as int,
                            ),
                        decreases total - j,
                    {
                        new_output.push(self.infos[i].output[j].clone());
                        j = j + 1;
                        proof {
                            assert(new_output@ =~= self.infos@[i as int].output@.subrange(
                                last_sent as int,
                                j as int,
                            ));
                        }
                    }
                    let p = &mut self.infos[i];
                    p.last_sent_line = Some(total);
                    proof {
                        assert(new_output@ =~= spec_lines_delivered(
                            old(self).infos@[i as int].output@,
                            spec_read_cursor(old(self).infos@[i as int]),
                        ));
                    }
                }
                Ok(ProcessOutput { output: new_output, is_running, return_code: None })
            },
            None => Err("Process not found".to_owned()),
        }
    }

    /// Takes every handle out for bulk shutdown, leaving the slot table
    /// empty.
    pub fn drain_handles(&mut self) -> (r: Vec<ProcessHandle>)
        requires
            table_wf(*old(self)),
        ensures
            table_wf(*final(self)),
            r@ == old(self).handles@,
            final(self).handles@.len() == 0,
            final(self).infos@ == old(self).infos@,
    {
        let mut out: Vec<ProcessHandle> = Vec::new();
        core::mem::swap(&mut out, &mut self.handles);
        out
    }

    /// Forgets every status record, for bulk shutdown.
    pub fn clear_infos(&mut self)
        requires
            table_wf(*old(self)),
        ensures
            table_wf(*final(self)),
            final(self).infos@.len() == 0,
            final(self).handles@ == old(self).handles@,
    {
        self.infos.clear();
    }
}

/// Reading twice with no new lines produced returns empty the second time:
/// after a read, the cursor stands past every stored line.
pub proof fn lemma_second_read_empty(log: Seq<String>, cursor: int)
    requires
        0 <= cursor,
    ensures
        spec_lines_delivered(log, spec_cursor_post(log, cursor)).len() == 0,
{
}

/// No line is skipped and none is delivered twice: one read, then a read
/// after `more` lines were appended, together deliver exactly every line
/// from the first cursor on, in order.
pub proof fn lemma_reads_cover_log(log: Seq<String>, cursor: int, more: Seq<String>)
    requires
        0 <= cursor <= log.len(),
    ensures
        spec_lines_delivered(log, cursor) + spec_lines_delivered(
            log + more,
            spec_cursor_post(log, cursor),
        ) == log.skip(cursor) + more,
{
    if cursor < log.len() {
        assert((log + more).skip(log.len() as int) =~= more);
        if spec_cursor_post(log, cursor) < (log + more).len() {
            assert(spec_lines_delivered(log, cursor) + spec_lines_delivered(
                log + more,
                spec_cursor_post(log, cursor),
            ) =~= log.skip(cursor) + more);
        } else {
            assert(more =~= Seq::<String>::empty());
            assert(spec_lines_delivered(log, cursor) + spec_lines_delivered(
                log + more,
                spec_cursor_post(log, cursor),
            ) =~= log.skip(cursor) + more);
        }
    } else {
        assert(log.skip(cursor) =~= Seq::<String>::empty());
        if cursor < (log + more).len() {
            assert((log + more).skip(cursor) =~= more);
            assert(spec_lines_delivered(log, cursor) + spec_lines_delivered(
                log + more,
                spec_cursor_post(log, cursor),
            ) =~= log.skip(cursor) + more);
        } else {
            assert(more =~= Seq::<String>::empty());
            assert(spec_lines_delivered(log, cursor) + spec_lines_delivered(
                log + more,
                spec_cursor_post(log, cursor),
            ) =~= log.skip(cursor) + more);
        }
    }
}


/// Everything after the first `=` up to a space, or the first
/// whitespace-delimited token, read as a port number.
pub open spec fn spec_port_str(after: Seq<char>) -> Seq<char> {
    if after.len() > 0 && after.first() == '=' {
        crate::text::take_until_char(after.drop_first(), ' ')
    } else {
        crate::text::take_until_char(crate::text::trim_leading_ws(after), ' ')
    }
}

/// The port a `--port` flag in a raw argument string requests, in either the
/// `--port=N` or the `--port N` form; the default when there is no such flag
/// or the number does not parse.
pub open spec fn spec_parse_port(args: Seq<char>, default_port: u16) -> u16 {
    match crate::text::find_from(args, "--port"@, 0) {
        None => default_port,
        Some(pos) => match crate::text::parse_u16_spec(spec_port_str(args.skip(pos + 6))) {
            Some(p) => p,
            None => default_port,
        },
    }
}

/// Reads the requested port out of a raw custom-argument string.
pub fn parse_port_from_args(custom_args: &str, default_port: u16) -> (r: u16)
    ensures
        r == spec_parse_port(custom_args@, default_port),
{
    let v = crate::text::to_char_vec(custom_args);
    let pat = crate::text::to_char_vec("--port");
    proof {
        reveal_strlit("--port");
    }
    match crate::text::find_sub(&v, &pat) {
        None => {
            proof {
                crate::text::lemma_find_from_none(v@, "--port"@, 0);
            }
            default_port
        },
        Some(pos) => {
            proof {
                crate::text::lemma_find_from_found(v@, "--port"@, 0, pos as int);
            }
            let vn: usize = v.len();
            let after = crate::text::subvec(&v, pos + 6, vn);
            proof {
                assert(after@ =~= custom_args@.skip(pos + 6));
            }
            let port_vec: Vec<char> = if after.len() > 0 && after[0] == '=' {
                let ae = crate::text::subvec(&after, 1, after.len());
                proof {
                    assert(ae@ =~= after@.drop_first());
                }
                crate::text::take_until_char_exec(&ae, ' ')
            } else {
                let t = crate::text::trim_leading_ws_exec(&after);
                crate::text::take_until_char_exec(&t, ' ')
            };
            match crate::text::parse_u16(&port_vec) {
                Some(p) => p,
                None => default_port,
            }
        },
    }
}

/// The first free probe slot at or after `k`: a slot is usable when its port
/// is free and still representable.
pub open spec fn spec_free_slot(start: u16, busy: Seq<bool>, k: int) -> Option<int>
    decreases busy.len() - k + 1,
{
    if k < 0 || k >= busy.len() || start + k > 65535 {
        None
    } else if !busy[k] {
        Some(k)
    } else {
        spec_free_slot(start, busy, k + 1)
    }
}

/// The port a launch binds: the first free port in the probe window
/// starting at the preferred port, or the preferred port itself when the
/// whole window is taken.
pub open spec fn spec_find_port(start: u16, busy: Seq<bool>) -> u16 {
    match spec_free_slot(start, busy, 0) {
        Some(k) => (start + k) as u16,
        None => start,
    }
}

/// Picks the port to bind.  `busy[k]` says whether port `start_port + k`
/// was found occupied; the caller probes the ports in that window.
pub fn find_available_port(start_port: u16, busy: &Vec<bool>) -> (r: u16)
    ensures
        r == spec_find_port(start_port, busy@),
{
    let n: usize = busy.len();
    let mut k: usize = 0;
    while k < n
        invariant
            n == busy@.len(),
            k <= n,
            spec_free_slot(start_port, busy@, 0) == spec_free_slot(start_port, busy@, k as int),
        decreases n - k,
    {
        if k > 65535 {
            return start_port;
        }
        if (start_port as u32) + (k as u32) > 65535 {
            return start_port;
        }
        if !busy[k] {
            return start_port + (k as u16);
        }
        k = k + 1;
    }
    start_port
}

proof fn lemma_free_slot_range(start: u16, busy: Seq<bool>, j: int)
    requires
        0 <= j <= busy.len(),
    ensures
        match spec_free_slot(start, busy, j) {
            Some(k) => j <= k < busy.len() && !busy[k] && start + k <= 65535,
            None => forall|m: int| j <= m < busy.len() ==> busy[m] || start + m > 65535,
        },
    decreases busy.len() - j,
{
    if j < busy.len() && start + j <= 65535 && busy[j] {
        lemma_free_slot_range(start, busy, j + 1);
    }
    if j < busy.len() && start + j > 65535 {
        assert forall|m: int| j <= m < busy.len() implies busy[m] || start + m > 65535 by {}
    }
}

/// Launching on a busy preferred port yields a different free port from the
/// probe window, accurately reported: the first free one, at most ten above
/// the preferred port.
pub proof fn lemma_port_probe_finds_free(start: u16, busy: Seq<bool>)
    requires
        busy.len() == 11,
        busy[0],
        exists|k: int| 1 <= k <= 10 && !busy[k] && start + k <= 65535,
    ensures
        ({
            let r = spec_find_port(start, busy);
            &&& r != start
            &&& start < r <= start + 10
            &&& !busy[r - start]
        }),
{
    lemma_free_slot_range(start, busy, 0);
    match spec_free_slot(start, busy, 0) {
        Some(k) => {
            assert(k != 0);
        },
        None => {
            let k = choose|k: int| 1 <= k <= 10 && !busy[k] && start + k <= 65535;
            assert(busy[k] || start + k > 65535);
        },
    }
}

/// A raw argument vector with every `--port` flag removed: `--port` takes
/// its following value with it, `--port=N` goes alone.
pub open spec fn spec_filter_port(s: Seq<Seq<char>>) -> Seq<Seq<char>>
    decreases s.len(),
{
    if s.len() == 0 {
        s
    } else if s[0] == "--port"@ {
        if s.len() >= 2 {
            spec_filter_port(s.skip(2))
        } else {
            spec_filter_port(s.skip(1))
        }
    } else if crate::text::is_prefix(s[0], "--port="@) {
        spec_filter_port(s.skip(1))
    } else {
        seq![s[0]] + spec_filter_port(s.skip(1))
    }
}

/// Strips user-supplied port flags so they cannot conflict with the
/// negotiated port.
pub fn filter_port_args(args: &mut Vec<String>)
    ensures
        final(args).deep_view() == spec_filter_port(old(args).deep_view()),
{
    let ghost orig = old(args).deep_view();
    let mut out: Vec<String> = Vec::new();
    let mut i: usize = 0;
    proof {
        assert(orig.skip(0) =~= orig);
    }
    while i < args.len()
        invariant
            i <= args@.len(),
            args@ == old(args)@,
            orig == args.deep_view(),
            orig.len() == args@.len(),
            spec_filter_port(orig) == out.deep_view() + spec_filter_port(orig.skip(i as int)),
        decreases args@.len() - i,
    {
        let ghost pre_out = out.deep_view();
        let ghost rest = orig.skip(i as int);
        proof {
            assert(rest[0] == args@[i as int]@);
        }
        if crate::text::str_eq(args[i].as_str(), "--port") {
            if i + 1 < args.len() {
                proof {
                    assert(rest.skip(2) =~= orig.skip(i + 2));
                }
                i = i + 2;
            } else {
                proof {
                    assert(rest.skip(1) =~= orig.skip(i + 1));
                    assert(rest.len() == 1);
                }
                i = i + 1;
            }
        } else if crate::text::starts_with_str(args[i].as_str(), "--port=") {
            proof {
                assert(rest.skip(1) =~= orig.skip(i + 1));
            }
            i = i + 1;
        } else {
            out.push(args[i].clone());
            proof {
                assert(rest.skip(1) =~= orig.skip(i + 1));
                assert(out.deep_view() =~= pre_out.push(rest[0]));
                assert(pre_out + (seq![rest[0]] + spec_filter_port(orig.skip(i + 1))) =~= out.deep_view()
                    + spec_filter_port(orig.skip(i + 1)));
            }
            i = i + 1;
        }
    }
    proof {
        assert(orig.skip(args@.len() as int) =~= Seq::<Seq<char>>::empty());
        assert(out.deep_view() + spec_filter_port(orig.skip(args@.len() as int)) =~= out.deep_view());
    }
    *args = out;
}


/// Splitting a raw argument string: spaces separate arguments except inside
/// quotes, quote characters toggle quoting and are dropped.  `i` is the next
/// character to read and `cur` the argument being accumulated.
pub open spec fn spec_split_args(s: Seq<char>, i: int, in_q: bool, cur: Seq<char>) -> Seq<
    Seq<char>,
>
    decreases s.len() - i + 1,
{
    if i < 0 || i >= s.len() {
        if cur.len() > 0 {
            seq![cur]
        } else {
            Seq::empty()
        }
    } else if s[i] == '"' || s[i] == '\'' {
        spec_split_args(s, i + 1, !in_q, cur)
    } else if s[i] == ' ' && !in_q {
        if cur.len() > 0 {
            seq![cur] + spec_split_args(s, i + 1, in_q, Seq::empty())
        } else {
            spec_split_args(s, i + 1, in_q, Seq::empty())
        }
    } else {
        spec_split_args(s, i + 1, in_q, cur.push(s[i]))
    }
}

/// Splits a raw custom-argument string into arguments, respecting quotes.
pub fn parse_custom_args(custom_args: &str) -> (r: Vec<String>)
    ensures
        r.deep_view() == spec_split_args(custom_args@, 0, false, Seq::empty()),
{
    let n: usize = custom_args.unicode_len();
    let mut out: Vec<String> = Vec::new();
    let mut cur = String::new();
    let mut in_q: bool = false;
    let mut i: usize = 0;
    while i < n
        invariant
            n == custom_args@.len(),
            i <= n,
            spec_split_args(custom_args@, 0, false, Seq::empty()) == out.deep_view()
                + spec_split_args(custom_args@, i as int, in_q, cur@),
        decreases n - i,
    {
        let ghost pre_out = out.deep_view();
        let ghost pre_cur = cur@;
        let c = custom_args.get_char(i);
        if c == '"' || c == '\'' {
            in_q = !in_q;
        } else if c == ' ' && !in_q {
            if cur.as_str().unicode_len() > 0 {
                out.push(cur);
                cur = String::new();
                proof {
                    assert(out.deep_view() =~= pre_out.push(pre_cur));
                    assert(pre_out + (seq![pre_cur] + spec_split_args(
                        custom_args@,
                        i + 1,
                        in_q,
                        Seq::empty(),
                    )) =~= out.deep_view() + spec_split_args(
                        custom_args@,
                        i + 1,
                        in_q,
                        Seq::empty(),
                    ));
                }
            } else {
                proof {
                    assert(cur@ =~= Seq::<char>::empty());
                }
            }
        } else {
            crate::text::push_char(&mut cur, c);
        }
        i = i + 1;
    }
    if cur.as_str().unicode_len() > 0 {
        let ghost pre_out = out.deep_view();
        let ghost pre_cur = cur@;
        out.push(cur);
        proof {
            assert(out.deep_view() =~= pre_out.push(pre_cur));
            assert(pre_out + seq![pre_cur] =~= out.deep_view());
        }
    }
    proof {
        assert(out.deep_view() + Seq::<Seq<char>>::empty() =~= out.deep_view());
    }
    out
}

/// A flag whose following value is a path relative to the model root.
pub open spec fn is_aux_flag(a: Seq<char>) -> bool {
    a == "--mmproj"@ || a == "-mm"@ || a == "--model-draft"@ || a == "-md"@
}

/// The argument vector with relative auxiliary file paths resolved against
/// the model root.
pub open spec fn spec_resolve_aux(s: Seq<Seq<char>>, root: Seq<char>) -> Seq<Seq<char>>
    decreases s.len(),
{
    if s.len() == 0 {
        s
    } else if is_aux_flag(s[0]) && s.len() >= 2 {
        let p = s[1];
        let rp = if crate::paths::is_absolute_path(p) {
            p
        } else {
            root + "/"@ + p
        };
        seq![s[0], rp] + spec_resolve_aux(s.skip(2), root)
    } else {
        seq![s[0]] + spec_resolve_aux(s.skip(1), root)
    }
}

/// Resolves relative `--mmproj`/`-mm`/`--model-draft`/`-md` values against
/// the configured model root.
pub fn resolve_aux_paths(args: &mut Vec<String>, models_directory: &str)
    ensures
        final(args).deep_view() == spec_resolve_aux(old(args).deep_view(), models_directory@),
{
    let ghost orig = old(args).deep_view();
    let ghost root = models_directory@;
    let mut out: Vec<String> = Vec::new();
    let mut i: usize = 0;
    proof {
        assert(orig.skip(0) =~= orig);
    }
    while i < args.len()
        invariant
            i <= args@.len(),
            args@ == old(args)@,
            orig == args.deep_view(),
            root == models_directory@,
            orig.len() == args@.len(),
            spec_resolve_aux(orig, root) == out.deep_view() + spec_resolve_aux(
                orig.skip(i as int),
                root,
            ),
        decreases args@.len() - i,
    {
        let ghost pre_out = out.deep_view();
        let ghost rest = orig.skip(i as int);
        proof {
            assert(rest[0] == args@[i as int]@);
        }
        let flag = crate::text::str_eq(args[i].as_str(), "--mmproj") || crate::text::str_eq(
            args[i].as_str(),
            "-mm",
        ) || crate::text::str_eq(args[i].as_str(), "--model-draft") || crate::text::str_eq(
            args[i].as_str(),
            "-md",
        );
        if flag && i + 1 < args.len() {
            proof {
                assert(rest[1] == args@[i + 1int]@);
                assert(rest.skip(2) =~= orig.skip(i + 2));
            }
            out.push(args[i].clone());
            if crate::paths::is_absolute_path_exec(args[i + 1].as_str()) {
                out.push(args[i + 1].clone());
            } else {
                let mut joined = models_directory.to_owned();
                joined.append("/");
                joined.append(args[i + 1].as_str());
                proof {
                    assert(joined@ =~= root + "/"@ + rest[1]);
                }
                out.push(joined);
            }
            proof {
                assert(out.deep_view() =~= pre_out + seq![
                    rest[0],
                    if crate::paths::is_absolute_path(rest[1]) {
                        rest[1]
                    } else {
                        root + "/"@ + rest[1]
                    },
                ]);
                assert(pre_out + (seq![
                    rest[0],
                    if crate::paths::is_absolute_path(rest[1]) {
                        rest[1]
                    } else {
                        root + "/"@ + rest[1]
                    },
                ] + spec_resolve_aux(orig.skip(i + 2), root)) =~= out.deep_view()
                    + spec_resolve_aux(orig.skip(i + 2), root));
            }
            i = i + 2;
        } else {
            proof {
                assert(rest.skip(1) =~= orig.skip(i + 1));
                if flag {
                    assert(rest.len() == 1);
                }
            }
            out.push(args[i].clone());
            proof {
                assert(out.deep_view() =~= pre_out.push(rest[0]));
                assert(pre_out + (seq![rest[0]] + spec_resolve_aux(orig.skip(i + 1), root))
                    =~= out.deep_view() + spec_resolve_aux(orig.skip(i + 1), root));
            }
            i = i + 1;
        }
    }
    proof {
        assert(orig.skip(args@.len() as int) =~= Seq::<Seq<char>>::empty());
        assert(out.deep_view() + spec_resolve_aux(orig.skip(args@.len() as int), root)
            =~= out.deep_view());
    }
    *args = out;
}

/// The processed user arguments: split on spaces outside quotes, port flags
/// stripped, auxiliary paths resolved.
pub open spec fn spec_custom_args(custom: Seq<char>, root: Seq<char>) -> Seq<Seq<char>> {
    if crate::text::trim_ws(custom).len() == 0 {
        Seq::empty()
    } else {
        spec_resolve_aux(
            spec_filter_port(spec_split_args(custom, 0, false, Seq::empty())),
            root,
        )
    }
}

/// The full command line of a model server: the model path, the bind host,
/// the negotiated port, then the processed user arguments, which can no
/// longer carry a port flag of their own.
pub open spec fn spec_server_args(
    model_path: Seq<char>,
    server_host: Seq<char>,
    port: u16,
    custom: Seq<char>,
    root: Seq<char>,
) -> Seq<Seq<char>> {
    seq![
        "-m"@,
        model_path,
        "--host"@,
        server_host,
        "--port"@,
        crate::text::dec_digits(port as nat),
    ] + spec_custom_args(custom, root)
}

/// Assembles the argument vector for launching a model server.
pub fn build_server_args(
    model_path: &str,
    server_host: &str,
    port: u16,
    custom_args: &str,
    models_directory: &str,
) -> (r: Vec<String>)
    ensures
        r.deep_view() == spec_server_args(
            model_path@,
            server_host@,
            port,
            custom_args@,
            models_directory@,
        ),
{
    let mut r: Vec<String> = Vec::new();
    r.push("-m".to_owned());
    r.push(model_path.to_owned());
    r.push("--host".to_owned());
    r.push(server_host.to_owned());
    r.push("--port".to_owned());
    r.push(crate::text::u64_to_dec_string(port as u64));
    let ghost fixed = r.deep_view();
    proof {
        assert(fixed =~= seq![
            "-m"@,
            model_path@,
            "--host"@,
            server_host@,
            "--port"@,
            crate::text::dec_digits(port as nat),
        ]);
    }
    let cv = crate::text::to_char_vec(custom_args);
    let trimmed = crate::text::trim_ws_exec(&cv);
    if trimmed.len() > 0 {
        let mut extra = parse_custom_args(custom_args);
        filter_port_args(&mut extra);
        resolve_aux_paths(&mut extra, models_directory);
        let mut j: usize = 0;
        let ghost extra_dv = extra.deep_view();
        while j < extra.len()
            invariant
                j <= extra@.len(),
                extra_dv == extra.deep_view(),
                extra_dv.len() == extra@.len(),
                r.deep_view() == fixed + extra_dv.take(j as int),
            decreases extra@.len() - j,
        {
            let ghost pre = r.deep_view();
            r.push(extra[j].clone());
            proof {
                assert(extra_dv[j as int] == extra@[j as int]@);
                assert(r.deep_view() =~= pre.push(extra_dv[j as int]));
                assert(extra_dv.take(j + 1int) =~= extra_dv.take(j as int).push(
                    extra_dv[j as int],
                ));
                assert(r.deep_view() =~= fixed + extra_dv.take(j + 1int));
            }
            j = j + 1;
        }
        proof {
            assert(extra_dv.take(extra@.len() as int) =~= extra_dv);
        }
    }
    r
}


/// A launch with halved context: the raw arguments with `--context-shift`
/// appended once — kept as they are when the flag is already among them,
/// the flag alone when they are blank.
pub open spec fn spec_append_half_context(s: Seq<char>) -> Seq<char> {
    let t = crate::text::trim_ws(s);
    if t.len() == 0 {
        "--context-shift"@
    } else if crate::text::spec_ws_tokens(t, 0, Seq::empty()).contains("--context-shift"@) {
        t
    } else {
        t + " --context-shift"@
    }
}

/// Appends the context-shift flag to a custom-argument string, once.
pub fn append_half_context_arg(custom_args: &str) -> (r: String)
    ensures
        r@ == spec_append_half_context(custom_args@),
{
    let cv = crate::text::to_char_vec(custom_args);
    let tv = crate::text::trim_ws_exec(&cv);
    if tv.len() == 0 {
        return "--context-shift".to_owned();
    }
    let trimmed = crate::text::string_of_chars(&tv);
    let words = crate::text::ws_tokens_exec(trimmed.as_str());
    if crate::text::tokens_contain(&words, "--context-shift") {
        trimmed
    } else {
        let mut r = trimmed;
        r.append(" --context-shift");
        proof {
            assert(r@ =~= crate::text::trim_ws(custom_args@) + " --context-shift"@);
        }
        r
    }
}

} // verus!
