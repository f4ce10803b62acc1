//! Engine sessions and the registry that holds them: the status that an
//! engine's output implies, the rule that a stopped session holds no pipes,
//! resolution of engine ids, and the watchdog's decision.
use vstd::prelude::*;
use crate::text::{contains, has_infix, has_prefix, starts_with};

verus! {

/// The status of an engine session.
#[derive(Debug, Clone, Copy, PartialEq, Eq, Structural)]
pub enum EngineStatus {
    Starting,
    Ready,
    Thinking,
    Error,
    Stopped,
}

/// A running engine as it is listed to callers.
#[derive(Debug, Clone)]
pub struct EngineInfo {
    pub id: String,
    pub name: String,
    pub path: String,
    pub status: EngineStatus,
}

/// Why a session operation was refused.
#[derive(Debug, Clone, Copy, PartialEq, Eq, Structural)]
pub enum SessionError {
    /// The session is stopped: it has no input pipe.
    StdinUnavailable,
    /// No session answers to the given id.
    NotFound,
}

/// Whether a line of engine output marks the engine as ready: it holds the
/// handshake or readiness token, or it reports a move.
pub open spec fn signals_ready(line: Seq<char>) -> bool {
    has_infix(line, "usiok"@) || has_infix(line, "readyok"@) || has_prefix(line, "bestmove"@)
}

/// Executable form of `signals_ready`.
pub fn line_signals_ready(line: &str) -> (r: bool)
    ensures
        r == signals_ready(line@),
{
    contains(line, "usiok") || contains(line, "readyok") || starts_with(line, "bestmove")
}

/// One engine process under supervision, with `H` the handles of its
/// process and pipes. A well-formed session holds handles exactly while it
/// is not stopped.
pub struct EngineInstance<H> {
    pub id: String,
    pub name: String,
    pub path: String,
    pub status: EngineStatus,
    pub io: Option<H>,
}

impl<H> EngineInstance<H> {
    pub open spec fn wf(&self) -> bool {
        self.io is Some <==> self.status != EngineStatus::Stopped
    }

    /// The session as `stop` leaves it.
    pub open spec fn stopped(&self) -> EngineInstance<H> {
        EngineInstance { status: EngineStatus::Stopped, io: None, ..*self }
    }

    /// A session that has not started its process.
    pub fn new(id: String, name: String, path: String) -> (r: EngineInstance<H>)
        ensures
            r.wf(),
            r.id == id,
            r.name == name,
            r.path == path,
            r.status == EngineStatus::Stopped,
            r.io is None,
    {
        EngineInstance { id, name, path, status: EngineStatus::Stopped, io: None }
    }

    /// Takes on the handles of a started process; the session is starting.
    /// Handles held before are handed back.
    pub fn attach(&mut self, handles: H) -> (r: Option<H>)
        ensures
            final(self).wf(),
            final(self).status == EngineStatus::Starting,
            final(self).io == Some(handles),
            r == old(self).io,
            final(self).id == old(self).id,
            final(self).name == old(self).name,
            final(self).path == old(self).path,
    {
        self.status = EngineStatus::Starting;
        let r = self.io.take();
        self.io = Some(handles);
        r
    }

    pub fn status(&self) -> (r: EngineStatus)
        ensures
            r == self.status,
    {
        self.status
    }

    /// Whether the session holds its process.
    pub fn is_live(&self) -> (r: bool)
        ensures
            r == (self.io is Some),
    {
        self.io.is_some()
    }

    /// Applies a line of the engine's output to its status: a live session
    /// whose line signals readiness becomes ready; nothing else changes.
    pub fn observe_output(&mut self, line: &str)
        requires
            old(self).wf(),
        ensures
            *final(self) == (if old(self).io is Some && signals_ready(line@) {
                old(self).with_status(EngineStatus::Ready)
            } else {
                *old(self)
            }),
            final(self).wf(),
    {
        if self.io.is_some() && line_signals_ready(line) {
            self.status = EngineStatus::Ready;
        }
    }

    pub open spec fn with_io(&self, h: H) -> EngineInstance<H> {
        EngineInstance { io: Some(h), ..*self }
    }

    pub open spec fn with_status(&self, status: EngineStatus) -> EngineInstance<H> {
        EngineInstance { status: status, ..*self }
    }

    /// Before a command whose answer is awaited: a live session goes back to
    /// starting, so that readiness seen afterwards answers that command.
    pub fn await_reply(&mut self)
        requires
            old(self).wf(),
        ensures
            *final(self) == (if old(self).io is Some {
                old(self).with_status(EngineStatus::Starting)
            } else {
                *old(self)
            }),
            final(self).wf(),
    {
        if self.io.is_some() {
            self.status = EngineStatus::Starting;
        }
    }

    /// The process was found dead: a live session is in error.
    pub fn mark_dead(&mut self)
        requires
            old(self).wf(),
        ensures
            *final(self) == (if old(self).io is Some {
                old(self).with_status(EngineStatus::Error)
            } else {
                *old(self)
            }),
            final(self).wf(),
    {
        if self.io.is_some() {
            self.status = EngineStatus::Error;
        }
    }

    /// The line to write for `command` (the command and a newline), or an
    /// error when the session has no input pipe.
    pub fn send_command(&self, command: &str) -> (r: Result<String, SessionError>)
        ensures
            self.io is Some ==> (r matches Ok(line) && line@ == command@ + "\n"@),
            self.io is None ==> r == Err::<String, SessionError>(
                SessionError::StdinUnavailable,
            ),
    {
        if self.io.is_some() {
            Ok(command_line(command))
        } else {
            Err(SessionError::StdinUnavailable)
        }
    }

    /// The handles of a live session, for writing to it.
    pub fn handles_mut(&mut self) -> (r: Option<&mut H>)
        ensures
            old(self).io is Some ==> (r is Some && *r->0 == old(self).io->0
                && *final(self) == old(self).with_io(*final(r->0))),
            old(self).io is None ==> (r is None && *final(self) == *old(self)),
    {
        self.io.as_mut()
    }

    /// Ends the session: it is stopped and hands back the handles it held,
    /// for the caller to ask the process to quit and then kill it. Stopping
    /// a stopped session changes nothing and hands back nothing.
    pub fn stop(&mut self) -> (r: Option<H>)
        ensures
            *final(self) == old(self).stopped(),
            final(self).wf(),
            final(self).status == EngineStatus::Stopped,
            final(self).io is None,
            r == old(self).io,
            final(self).id == old(self).id,
            final(self).name == old(self).name,
            final(self).path == old(self).path,
    {
        self.status = EngineStatus::Stopped;
        self.io.take()
    }

    /// Stopping twice leaves a session as stopping once does; a stopped
    /// session is well formed and holds nothing to hand back.
    pub proof fn lemma_stop_idempotent(&self)
        ensures
            self.stopped().stopped() == self.stopped(),
            self.stopped().wf(),
            self.stopped().io is None,
    {
    }
}

/// `command` followed by a newline, as it is written to an engine.
pub fn command_line(command: &str) -> (r: String)
    ensures
        r@ == command@ + "\n"@,
{
    let mut r = String::from_str(command);
    r.append("\n");
    r
}

/// What the watchdog does after a check.
#[derive(Debug, Clone, Copy, PartialEq, Eq, Structural)]
pub enum WatchdogAction {
    /// The process is alive: check again later.
    Continue,
    /// The session is gone or stopped: stop watching.
    Exit,
    /// The process died while the session is registered: mark it in error,
    /// report it, and stop watching.
    ReportDeath,
}

/// The watchdog's decision from what a check found.
pub fn watchdog_decision(registered: bool, has_process: bool, process_alive: bool) -> (r:
    WatchdogAction)
    ensures
        !registered || !has_process ==> r == WatchdogAction::Exit,
        registered && has_process && process_alive ==> r == WatchdogAction::Continue,
        registered && has_process && !process_alive ==> r == WatchdogAction::ReportDeath,
{
    if !registered || !has_process {
        WatchdogAction::Exit
    } else if process_alive {
        WatchdogAction::Continue
    } else {
        WatchdogAction::ReportDeath
    }
}

/// Index of the first entry with id exactly `q` at or after `i`, or the length.
pub open spec fn exact_from<T>(s: Seq<(Seq<char>, T)>, q: Seq<char>, i: int) -> int
    decreases s.len() - i,
{
    if i < 0 || i >= s.len() {
        s.len() as int
    } else if s[i].0 == q {
        i
    } else {
        exact_from(s, q, i + 1)
    }
}

/// Index of the first entry whose id starts with `q` at or after `i`, or the
/// length.
pub open spec fn prefix_from<T>(s: Seq<(Seq<char>, T)>, q: Seq<char>, i: int) -> int
    decreases s.len() - i,
{
    if i < 0 || i >= s.len() {
        s.len() as int
    } else if has_prefix(s[i].0, q) {
        i
    } else {
        prefix_from(s, q, i + 1)
    }
}

/// The entry that `q` designates: the one with id `q` if there is one, else
/// the earliest registered whose id starts with `q`.
pub open spec fn resolve_index<T>(s: Seq<(Seq<char>, T)>, q: Seq<char>) -> Option<int> {
    if exact_from(s, q, 0) < s.len() {
        Some(exact_from(s, q, 0))
    } else if prefix_from(s, q, 0) < s.len() {
        Some(prefix_from(s, q, 0))
    } else {
        None
    }
}

pub proof fn lemma_exact_from<T>(s: Seq<(Seq<char>, T)>, q: Seq<char>, i: int)
    requires
        0 <= i <= s.len(),
    ensures
        i <= exact_from(s, q, i) <= s.len(),
        exact_from(s, q, i) < s.len() ==> s[exact_from(s, q, i)].0 == q,
        forall|j: int| i <= j < exact_from(s, q, i) ==> s[j].0 != q,
    decreases s.len() - i,
{
    if i < s.len() && s[i].0 != q {
        lemma_exact_from(s, q, i + 1);
    }
}

pub proof fn lemma_prefix_from<T>(s: Seq<(Seq<char>, T)>, q: Seq<char>, i: int)
    requires
        0 <= i <= s.len(),
    ensures
        i <= prefix_from(s, q, i) <= s.len(),
        prefix_from(s, q, i) < s.len() ==> has_prefix(s[prefix_from(s, q, i)].0, q),
        forall|j: int| i <= j < prefix_from(s, q, i) ==> !has_prefix(s[j].0, q),
    decreases s.len() - i,
{
    if i < s.len() && !has_prefix(s[i].0, q) {
        lemma_prefix_from(s, q, i + 1);
    }
}

/// Ids are unique.
pub open spec fn ids_distinct<T>(s: Seq<(Seq<char>, T)>) -> bool {
    forall|i: int, j: int| 0 <= i < j < s.len() ==> s[i].0 != s[j].0
}

/// Resolution of ids: a session registered under exactly the id asked for
/// is the one chosen, whatever other ids start with it; an id that is
/// neither registered nor a prefix of a registered id resolves to nothing,
/// and so does every id on an empty registry.
pub proof fn lemma_resolution<T>(s: Seq<(Seq<char>, T)>, q: Seq<char>, i: int)
    requires
        ids_distinct(s),
        0 <= i < s.len(),
        s[i].0 == q,
    ensures
        resolve_index(s, q) == Some(i),
        resolve_index(Seq::<(Seq<char>, T)>::empty(), q) is None,
{
    lemma_exact_from(s, q, 0);
    let e = exact_from(s, q, 0);
    assert(e <= i);
    if e < i {
        assert(s[e].0 == s[i].0);
    }
}

pub open spec fn entry_views<T>(v: Seq<(String, T)>) -> Seq<(Seq<char>, T)> {
    v.map_values(|p: (String, T)| (p.0@, p.1))
}

/// The sessions of running engines by id, in the order of registration.
/// An id that is not registered may stand for the earliest registered id
/// that starts with it.
pub struct SessionRegistry<T> {
    entries: Vec<(String, T)>,
}

impl<T> View for SessionRegistry<T> {
    type V = Seq<(Seq<char>, T)>;

    closed spec fn view(&self) -> Seq<(Seq<char>, T)> {
        entry_views(self.entries@)
    }
}

impl<T> SessionRegistry<T> {
    pub open spec fn wf(&self) -> bool {
        ids_distinct(self@)
    }

    pub fn new() -> (r: SessionRegistry<T>)
        ensures
            r@ == Seq::<(Seq<char>, T)>::empty(),
            r.wf(),
    {
        let r = SessionRegistry { entries: Vec::new() };
        assert(r@ =~= Seq::<(Seq<char>, T)>::empty());
        r
    }

    pub fn len(&self) -> (r: usize)
        ensures
            r == self@.len(),
    {
        self.entries.len()
    }

    /// Position of the session with id exactly `q`, or the number of sessions.
    fn exact_index(&self, q: &str) -> (r: usize)
        ensures
            r == exact_from(self@, q@, 0),
    {
        let mut i: usize = 0;
        while i < self.entries.len()
            invariant
                i <= self@.len(),
                self@.len() == self.entries@.len(),
                exact_from(self@, q@, 0) == exact_from(self@, q@, i as int),
            decreases self@.len() - i,
        {
            assert(self@[i as int].0 == self.entries@[i as int].0@);
            if crate::text::str_eq(self.entries[i].0.as_str(), q) {
                return i;
            }
            i = i + 1;
        }
        i
    }

    /// Position of the earliest session whose id starts with `q`, or the
    /// number of sessions.
    fn prefix_index(&self, q: &str) -> (r: usize)
        ensures
            r == prefix_from(self@, q@, 0),
    {
        let mut i: usize = 0;
        while i < self.entries.len()
            invariant
                i <= self@.len(),
                self@.len() == self.entries@.len(),
                prefix_from(self@, q@, 0) == prefix_from(self@, q@, i as int),
            decreases self@.len() - i,
        {
            assert(self@[i as int].0 == self.entries@[i as int].0@);
            if starts_with(self.entries[i].0.as_str(), q) {
                return i;
            }
            i = i + 1;
        }
        i
    }

    /// Position of the session that `q` designates (see `resolve_index`).
    pub fn resolve(&self, q: &str) -> (r: Result<usize, SessionError>)
        ensures
            match resolve_index(self@, q@) {
                Some(i) => r matches Ok(j) && j as int == i,
                None => r == Err::<usize, SessionError>(SessionError::NotFound),
            },
            self@.len() == 0 ==> r is Err,
    {
        proof {
            lemma_exact_from(self@, q@, 0);
            lemma_prefix_from(self@, q@, 0);
        }
        let e = self.exact_index(q);
        if e < self.entries.len() {
            return Ok(e);
        }
        let p = self.prefix_index(q);
        if p < self.entries.len() {
            Ok(p)
        } else {
            Err(SessionError::NotFound)
        }
    }

    /// The session that `q` designates.
    pub fn get(&self, q: &str) -> (r: Option<&T>)
        ensures
            match resolve_index(self@, q@) {
                Some(i) => r == Some(&self@[i].1),
                None => r is None,
            },
    {
        match self.resolve(q) {
            Ok(i) => {
                proof {
                    lemma_exact_from(self@, q@, 0);
                    lemma_prefix_from(self@, q@, 0);
                    assert(resolve_index(self@, q@) == Some(i as int));
                }
                assert(self@[i as int].1 == self.entries@[i as int].1);
                Some(&self.entries[i].1)
            },
            Err(_) => None,
        }
    }

    /// The id under which the session that `q` designates is registered.
    pub fn resolve_id(&self, q: &str) -> (r: Option<String>)
        ensures
            match resolve_index(self@, q@) {
                Some(i) => r matches Some(id) && id@ == self@[i].0,
                None => r is None,
            },
    {
        match self.resolve(q) {
            Ok(i) => {
                proof {
                    lemma_exact_from(self@, q@, 0);
                    lemma_prefix_from(self@, q@, 0);
                    assert(resolve_index(self@, q@) == Some(i as int));
                }
                assert(self@[i as int].0 == self.entries@[i as int].0@);
                Some(self.entries[i].0.clone())
            },
            Err(_) => None,
        }
    }

    /// Registers `session` under `id`, in place of a session registered
    /// under the same id, which is handed back.
    pub fn insert(&mut self, id: String, session: T) -> (r: Option<T>)
        requires
            old(self).wf(),
        ensures
            final(self).wf(),
            ({
                let e = exact_from(old(self)@, id@, 0);
                if e < old(self)@.len() {
                    r == Some(old(self)@[e].1) && final(self)@ == old(self)@.update(
                        e,
                        (id@, session),
                    )
                } else {
                    r is None && final(self)@ == old(self)@.push((id@, session))
                }
            }),
    {
        proof {
            lemma_exact_from(self@, id@, 0);
        }
        let e = self.exact_index(id.as_str());
        let ghost item = (id@, session);
        if e < self.entries.len() {
            let (_, old_session) = self.entries.remove(e);
            self.entries.insert(e, (id, session));
            assert(self@ =~= old(self)@.update(e as int, item));
            Some(old_session)
        } else {
            self.entries.push((id, session));
            assert(self@ =~= old(self)@.push(item));
            None
        }
    }

    /// Unregisters the session that `q` designates and hands it back with
    /// the id it was registered under.
    pub fn remove(&mut self, q: &str) -> (r: Result<(String, T), SessionError>)
        requires
            old(self).wf(),
        ensures
            final(self).wf(),
            match resolve_index(old(self)@, q@) {
                Some(i) => r matches Ok(p) && p.0@ == old(self)@[i].0 && p.1 == old(self)@[i].1
                    && final(self)@ == old(self)@.remove(i),
                None => r == Err::<(String, T), SessionError>(SessionError::NotFound)
                    && final(self)@ == old(self)@,
            },
    {
        match self.resolve(q) {
            Ok(i) => {
                proof {
                    lemma_exact_from(self@, q@, 0);
                    lemma_prefix_from(self@, q@, 0);
                    assert(resolve_index(self@, q@) == Some(i as int));
                }
                let ghost s = self@;
                let p = self.entries.remove(i);
                assert(self@ =~= s.remove(i as int));
                Ok(p)
            },
            Err(e) => Err(e),
        }
    }

    /// The registered ids, in the order of registration.
    pub fn list_engines(&self) -> (r: Vec<String>)
        ensures
            r@.len() == self@.len(),
            forall|i: int| 0 <= i < r@.len() ==> #[trigger] r@[i]@ == self@[i].0,
    {
        let mut r: Vec<String> = Vec::new();
        let mut i: usize = 0;
        while i < self.entries.len()
            invariant
                i <= self@.len(),
                self@.len() == self.entries@.len(),
                r@.len() == i,
                forall|j: int| 0 <= j < i ==> #[trigger] r@[j]@ == self@[j].0,
            decreases self@.len() - i,
        {
            assert(self@[i as int].0 == self.entries@[i as int].0@);
            r.push(self.entries[i].0.clone());
            i = i + 1;
        }
        r
    }

    /// Unregisters every session and hands them all back, in order, for the
    /// caller to stop; the registry is then empty, whatever becomes of each
    /// stop.
    pub fn stop_all_engines(&mut self) -> (r: Vec<(String, T)>)
        ensures
            final(self)@.len() == 0,
            final(self).wf(),
            entry_views(r@) == old(self)@,
    {
        let mut r: Vec<(String, T)> = Vec::new();
        core::mem::swap(&mut r, &mut self.entries);
        assert(self@ =~= Seq::<(Seq<char>, T)>::empty());
        r
    }
}

} // verus!
