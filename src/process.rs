use vstd::prelude::*;

verus! {

/// Failures of the process supervisor.
#[derive(Debug, Clone, Copy, PartialEq, Eq, Structural)]
pub enum ProcessError {
    /// No process is watched under the identifier.
    NotRunning,
    /// A process is already watched under the identifier.
    AlreadyRunning,
    /// The operating system could not create the process.
    SpawnError,
}

/// The processes being supervised, each under its own identifier, with the
/// handle through which it is signalled and written to.
pub struct ProcessTable<H> {
    pub entries: Vec<(u64, H)>,
}

/// The position of the entry for `id`, if one is watched.
pub open spec fn entry_of<H>(s: Seq<(u64, H)>, id: u64) -> Option<int> {
    if exists|i: int| 0 <= i < s.len() && #[trigger] s[i].0 == id {
        Some(choose|i: int| 0 <= i < s.len() && #[trigger] s[i].0 == id)
    } else {
        None
    }
}

impl<H> ProcessTable<H> {
    /// No identifier is watched twice.
    pub open spec fn wf(&self) -> bool {
        forall|i: int, j: int|
            0 <= i < j < self.entries@.len() ==> #[trigger] self.entries@[i].0
                != #[trigger] self.entries@[j].0
    }

    /// The handle watched under `id`, if any.
    pub open spec fn handle_under(&self, id: u64) -> Option<H> {
        match entry_of(self.entries@, id) {
            Some(i) => Some(self.entries@[i].1),
            None => None,
        }
    }

    /// The handles in the order they were watched.
    pub open spec fn handles(&self) -> Seq<H> {
        self.entries@.map_values(|e: (u64, H)| e.1)
    }

    proof fn lemma_entry(&self, i: int)
        requires
            self.wf(),
            0 <= i < self.entries@.len(),
        ensures
            entry_of(self.entries@, self.entries@[i].0) == Some(i),
    {
        let id = self.entries@[i].0;
        let k = choose|k: int| 0 <= k < self.entries@.len() && #[trigger] self.entries@[k].0 == id;
        if k < i {
            assert(self.entries@[k].0 != self.entries@[i].0);
        } else if k > i {
            assert(self.entries@[i].0 != self.entries@[k].0);
        }
    }

    pub fn new() -> (r: ProcessTable<H>)
        ensures
            r.wf(),
            r.entries@.len() == 0,
            forall|id: u64| #[trigger] r.handle_under(id) is None,
    {
        ProcessTable { entries: Vec::new() }
    }

    fn find(&self, id: u64) -> (r: Option<usize>)
        requires
            self.wf(),
        ensures
            match r {
                Some(i) => i < self.entries@.len() && entry_of(self.entries@, id) == Some(i as int)
                    && self.entries@[i as int].0 == id,
                None => entry_of(self.entries@, id) is None,
            },
    {
        let mut i: usize = 0;
        while i < self.entries.len()
            invariant
                self.wf(),
                i <= self.entries@.len(),
                forall|j: int| 0 <= j < i ==> #[trigger] self.entries@[j].0 != id,
            decreases self.entries.len() - i,
        {
            if self.entries[i].0 == id {
                proof {
                    self.lemma_entry(i as int);
                }
                return Some(i);
            }
            i = i + 1;
        }
        None
    }

    /// Whether a process is watched under `id`.
    pub fn is_running(&self, id: u64) -> (r: bool)
        requires
            self.wf(),
        ensures
            r == self.handle_under(id) is Some,
    {
        self.find(id).is_some()
    }

    /// Records a launch: `spawned` is what the operating system gave back.
    /// Fails with `SpawnError` when the process could not be created, and with
    /// `AlreadyRunning` when `id` is taken; on failure nothing changes.
    pub fn launch(&mut self, id: u64, spawned: Option<H>) -> (r: Result<(), ProcessError>)
        requires
            old(self).wf(),
        ensures
            final(self).wf(),
            match spawned {
                None => r == Err::<(), ProcessError>(ProcessError::SpawnError) && *final(self)
                    == *old(self),
                Some(h) => if old(self).handle_under(id) is Some {
                    r == Err::<(), ProcessError>(ProcessError::AlreadyRunning) && *final(self)
                        == *old(self)
                } else {
                    &&& r is Ok
                    &&& final(self).entries@ == old(self).entries@.push((id, h))
                    &&& final(self).handle_under(id) == Some(h)
                },
            },
            forall|other: u64| other != id ==> #[trigger] final(self).handle_under(other) == old(self).handle_under(other),
    {
        let h = match spawned {
            None => return Err(ProcessError::SpawnError),
            Some(h) => h,
        };
        if self.find(id).is_some() {
            return Err(ProcessError::AlreadyRunning);
        }
        let ghost before = self.entries@;
        self.entries.push((id, h));
        proof {
            let n = before.len() as int;
            assert forall|a: int, b: int|
                0 <= a < b < self.entries@.len() implies #[trigger] self.entries@[a].0
                != #[trigger] self.entries@[b].0 by {
                if b == n {
                    assert(before[a].0 != id);
                } else {
                    assert(before[a].0 != before[b].0);
                }
            }
            self.lemma_entry(n);
            assert forall|other: u64| other != id implies #[trigger] self.handle_under(other)
                == old(self).handle_under(other) by {
                if exists|k: int| 0 <= k < before.len() && #[trigger] before[k].0 == other {
                    let k = choose|k: int| 0 <= k < before.len() && #[trigger] before[k].0 == other;
                    old(self).lemma_entry(k);
                    self.lemma_entry(k);
                } else {
                    assert forall|k: int| 0 <= k < self.entries@.len() implies #[trigger] self.entries@[k].0 != other by {
                        if k < n {
                            assert(before[k].0 != other);
                        }
                    }
                }
            }
        }
        Ok(())
    }

    /// The handle of the process watched under `id`, for sending it input;
    /// `NotRunning` if none is.
    pub fn channel_of(&self, id: u64) -> (r: Result<&H, ProcessError>)
        requires
            self.wf(),
        ensures
            match self.handle_under(id) {
                Some(h) => r == Ok::<&H, ProcessError>(&h),
                None => r == Err::<&H, ProcessError>(ProcessError::NotRunning),
            },
    {
        match self.find(id) {
            Some(i) => Ok(&self.entries[i].1),
            None => Err(ProcessError::NotRunning),
        }
    }

    /// Stops tracking the process under `id` and hands back its handle, to be
    /// signalled at the caller's best effort; `NotRunning` if none is watched.
    pub fn kill(&mut self, id: u64) -> (r: Result<H, ProcessError>)
        requires
            old(self).wf(),
        ensures
            final(self).wf(),
            match old(self).handle_under(id) {
                Some(h) => r == Ok::<H, ProcessError>(h),
                None => r == Err::<H, ProcessError>(ProcessError::NotRunning),
            },
            final(self).handle_under(id) is None,
            forall|other: u64| other != id ==> #[trigger] final(self).handle_under(other) == old(self).handle_under(other),
    {
        let i = match self.find(id) {
            Some(i) => i,
            None => return Err(ProcessError::NotRunning),
        };
        let ghost before = self.entries@;
        let (_, h) = self.entries.remove(i);
        proof {
            let n = before.len() as int;
            let ii = i as int;
            assert forall|k: int| 0 <= k < self.entries@.len() implies #[trigger] self.entries@[k]
                == if k < ii { before[k] } else { before[k + 1] } by {}
            assert forall|a: int, b: int|
                0 <= a < b < self.entries@.len() implies #[trigger] self.entries@[a].0
                != #[trigger] self.entries@[b].0 by {
                let a0 = if a < ii { a } else { a + 1 };
                let b0 = if b < ii { b } else { b + 1 };
                assert(before[a0].0 != before[b0].0);
            }
            assert forall|k: int| 0 <= k < self.entries@.len() implies #[trigger] self.entries@[k].0 != id by {
                let k0 = if k < ii { k } else { k + 1 };
                assert(before[k0].0 != before[ii].0);
            }
            assert forall|other: u64| other != id implies #[trigger] self.handle_under(other)
                == old(self).handle_under(other) by {
                if exists|k: int| 0 <= k < before.len() && #[trigger] before[k].0 == other {
                    let k = choose|k: int| 0 <= k < before.len() && #[trigger] before[k].0 == other;
                    old(self).lemma_entry(k);
                    let k1 = if k < ii { k } else { k - 1 };
                    assert(self.entries@[k1] == before[k]);
                    self.lemma_entry(k1);
                } else {
                    assert forall|k: int| 0 <= k < self.entries@.len() implies #[trigger] self.entries@[k].0 != other by {
                        let k0 = if k < ii { k } else { k + 1 };
                        assert(before[k0].0 != other);
                    }
                }
            }
        }
        Ok(h)
    }

    /// The process under `id` reached the end of its output: it is no longer
    /// watched. Returns whether it was.
    pub fn on_exit(&mut self, id: u64) -> (r: bool)
        requires
            old(self).wf(),
        ensures
            final(self).wf(),
            r == old(self).handle_under(id) is Some,
            final(self).handle_under(id) is None,
            forall|other: u64| other != id ==> #[trigger] final(self).handle_under(other) == old(self).handle_under(other),
    {
        self.kill(id).is_ok()
    }

    /// Stops tracking every process and hands back all their handles, in the
    /// order they were watched. It cannot fail: what becomes of each handle is
    /// the caller's best effort.
    pub fn kill_all(&mut self) -> (r: Vec<H>)
        requires
            old(self).wf(),
        ensures
            final(self).wf(),
            final(self).entries@.len() == 0,
            forall|id: u64| #[trigger] final(self).handle_under(id) is None,
            r@ == old(self).handles(),
    {
        let ghost all = old(self).entries@;
        let mut out: Vec<H> = Vec::new();
        while self.entries.len() > 0
            invariant
                out@.len() <= all.len(),
                self.entries@ == all.subrange(out@.len() as int, all.len() as int),
                out@ == all.subrange(0, out@.len() as int).map_values(|e: (u64, H)| e.1),
            decreases self.entries.len(),
        {
            let ghost k = out@.len() as int;
            let (_, h) = self.entries.remove(0);
            out.push(h);
            assert(self.entries@ == all.subrange(k + 1, all.len() as int));
            assert(out@ == all.subrange(0, k + 1).map_values(|e: (u64, H)| e.1));
        }
        assert(all.subrange(0, all.len() as int) == all);
        out
    }
}

/// The two kinds of supervised processes: language servers and program
/// executions.
pub struct Supervisor<H> {
    pub language_servers: ProcessTable<H>,
    pub executions: ProcessTable<H>,
}

impl<H> Supervisor<H> {
    pub open spec fn wf(&self) -> bool {
        self.language_servers.wf() && self.executions.wf()
    }

    pub fn new() -> (r: Supervisor<H>)
        ensures
            r.wf(),
            r.language_servers.entries@.len() == 0,
            r.executions.entries@.len() == 0,
    {
        Supervisor { language_servers: ProcessTable::new(), executions: ProcessTable::new() }
    }

    /// Stops watching every process of both kinds, for application shutdown,
    /// and hands back all their handles: language servers first, then
    /// executions. Both tables are empty afterwards whatever becomes of the
    /// handles, so a kill that fails cannot leave a process behind in them.
    pub fn kill_all(&mut self) -> (r: Vec<H>)
        requires
            old(self).wf(),
        ensures
            final(self).wf(),
            final(self).language_servers.entries@.len() == 0,
            final(self).executions.entries@.len() == 0,
            forall|id: u64| #[trigger] final(self).language_servers.handle_under(id) is None,
            forall|id: u64| #[trigger] final(self).executions.handle_under(id) is None,
            r@ == old(self).language_servers.handles() + old(self).executions.handles(),
    {
        let mut r = self.language_servers.kill_all();
        let mut rest = self.executions.kill_all();
        r.append(&mut rest);
        r
    }
}

} // verus!
