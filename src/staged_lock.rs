use vstd::prelude::*;

verus! {

/// The acquisition that timed out.
#[derive(Clone, Copy, Debug, PartialEq, Eq, Structural)]
pub enum Operation {
    Read,
    Progress,
    Write,
}

impl Operation {
    /// The lower-case name of the operation.
    pub fn as_str(&self) -> (r: &'static str)
        ensures
            *self == Operation::Read ==> r@ == "read"@,
            *self == Operation::Progress ==> r@ == "progress"@,
            *self == Operation::Write ==> r@ == "write"@,
    {
        match self {
            Operation::Read => "read",
            Operation::Progress => "progress",
            Operation::Write => "write",
        }
    }
}

/// A lock acquisition did not complete within the configured duration,
/// given as whole seconds and the nanoseconds beyond them.
#[derive(Clone, Copy, Debug, PartialEq, Eq, Structural)]
pub struct Error {
    pub operation: Operation,
    pub secs: u64,
    pub nanos: u32,
}

impl Error {
    pub fn timed_out(operation: Operation, secs: u64, nanos: u32) -> (r: Self)
        ensures
            r.operation == operation,
            r.secs == secs,
            r.nanos == nanos,
    {
        Error { operation, secs, nanos }
    }
}

/// The bookkeeping of a staged lock: how many read views are out (a progress
/// holder keeps one of them), whether the progress token is taken, and
/// whether the exclusive write view is out.
#[derive(Clone, Copy, Debug, PartialEq, Eq, Structural)]
pub struct LockState {
    pub readers: u64,
    pub token: bool,
    pub writer: bool,
}

impl LockState {
    /// The write view is only ever held together with the token, and never
    /// beside a read view.
    pub open spec fn wf(self) -> bool {
        self.writer ==> (self.token && self.readers == 0)
    }

    /// The token is held by a progress holder, who keeps one read view.
    pub open spec fn in_progress(self) -> bool {
        self.token && !self.writer && self.readers >= 1
    }

    pub open spec fn can_read(self) -> bool {
        !self.writer && self.readers < u64::MAX
    }

    pub open spec fn can_progress(self) -> bool {
        !self.token && self.readers < u64::MAX
    }

    pub open spec fn can_write(self) -> bool {
        !self.token && self.readers == 0
    }

    pub open spec fn after_read(self) -> LockState {
        LockState { readers: (self.readers + 1) as u64, ..self }
    }

    pub open spec fn after_progress(self) -> LockState {
        LockState { readers: (self.readers + 1) as u64, token: true, ..self }
    }

    pub open spec fn after_write(self) -> LockState {
        LockState { token: true, writer: true, ..self }
    }

    /// The progress holder gives up its read view, keeping the token, to wait
    /// for the write view.
    pub open spec fn after_begin_upgrade(self) -> LockState {
        LockState { readers: (self.readers - 1) as u64, ..self }
    }

    pub open spec fn after_downgrade(self) -> LockState {
        LockState { readers: 1, token: true, writer: false }
    }

    /// The lock before any acquisition.
    pub fn new() -> (r: Self)
        ensures
            r.wf(),
            r == (LockState { readers: 0, token: false, writer: false }),
    {
        LockState { readers: 0, token: false, writer: false }
    }

    /// Takes a read view where no writer holds the lock.
    pub fn try_read(&mut self) -> (r: bool)
        requires
            old(self).wf(),
        ensures
            final(self).wf(),
            r == old(self).can_read(),
            r ==> *final(self) == old(self).after_read(),
            !r ==> *final(self) == *old(self),
    {
        if !self.writer && self.readers < u64::MAX {
            self.readers = self.readers + 1;
            true
        } else {
            false
        }
    }

    /// Gives back a read view.
    pub fn release_read(&mut self)
        requires
            old(self).wf(),
            old(self).readers >= 1,
        ensures
            final(self).wf(),
            *final(self) == (LockState { readers: (old(self).readers - 1) as u64, ..*old(self) }),
    {
        self.readers = self.readers - 1;
    }

    /// Takes the token together with a read view where the token is free.
    pub fn try_progress(&mut self) -> (r: bool)
        requires
            old(self).wf(),
        ensures
            final(self).wf(),
            r == old(self).can_progress(),
            r ==> *final(self) == old(self).after_progress() && final(self).in_progress(),
            !r ==> *final(self) == *old(self),
    {
        if !self.token && self.readers < u64::MAX {
            self.readers = self.readers + 1;
            self.token = true;
            true
        } else {
            false
        }
    }

    /// Gives back the token and the progress holder's read view.
    pub fn release_progress(&mut self)
        requires
            old(self).wf(),
            old(self).in_progress(),
        ensures
            final(self).wf(),
            *final(self) == (LockState {
                readers: (old(self).readers - 1) as u64,
                token: false,
                writer: false,
            }),
    {
        self.readers = self.readers - 1;
        self.token = false;
    }

    /// Takes the token and the write view where the token is free and no
    /// read view is out.
    pub fn try_write(&mut self) -> (r: bool)
        requires
            old(self).wf(),
        ensures
            final(self).wf(),
            r == old(self).can_write(),
            r ==> *final(self) == old(self).after_write(),
            !r ==> *final(self) == *old(self),
    {
        if !self.token && self.readers == 0 {
            self.token = true;
            self.writer = true;
            true
        } else {
            false
        }
    }

    /// Gives back the write view and the token.
    pub fn release_write(&mut self)
        requires
            old(self).wf(),
            old(self).writer,
        ensures
            final(self).wf(),
            *final(self) == (LockState { readers: 0, token: false, writer: false }),
    {
        self.token = false;
        self.writer = false;
    }

    /// First half of an upgrade: the progress holder drops its read view and
    /// keeps the token.
    pub fn begin_upgrade(&mut self)
        requires
            old(self).wf(),
            old(self).in_progress(),
        ensures
            final(self).wf(),
            *final(self) == old(self).after_begin_upgrade(),
            final(self).token && !final(self).writer,
    {
        self.readers = self.readers - 1;
    }

    /// Second half of an upgrade: the token holder takes the write view once
    /// the last read view is back.
    pub fn try_finish_upgrade(&mut self) -> (r: bool)
        requires
            old(self).wf(),
            old(self).token,
            !old(self).writer,
        ensures
            final(self).wf(),
            r == (old(self).readers == 0),
            r ==> *final(self) == (LockState { writer: true, ..*old(self) }),
            !r ==> *final(self) == *old(self),
    {
        if self.readers == 0 {
            self.writer = true;
            true
        } else {
            false
        }
    }

    /// An upgrade that timed out gives back the token.
    pub fn abandon_upgrade(&mut self)
        requires
            old(self).wf(),
            old(self).token,
            !old(self).writer,
        ensures
            final(self).wf(),
            *final(self) == (LockState { token: false, ..*old(self) }),
    {
        self.token = false;
    }

    /// Turns the write view back into a read view, keeping the token.
    pub fn downgrade(&mut self)
        requires
            old(self).wf(),
            old(self).writer,
        ensures
            final(self).wf(),
            *final(self) == old(self).after_downgrade(),
            final(self).in_progress(),
    {
        self.readers = 1;
        self.writer = false;
    }
}

/// While a progress holder has the lock, further reads are granted (short of
/// the counter's limit) and a second progress or write acquisition is not;
/// once the holder releases, progress is granted again, and write too when no
/// read view is left.
pub proof fn lemma_progress_admits_reads(s: LockState)
    requires
        s.wf(),
        s.in_progress(),
    ensures
        s.readers < u64::MAX ==> s.can_read() && s.after_read().in_progress() && s.after_read().wf(),
        !s.can_progress(),
        !s.can_write(),
        ({
            let t = LockState { readers: (s.readers - 1) as u64, token: false, writer: false };
            t.wf() && t.can_progress() && (t.can_write() <==> s.readers == 1)
        }),
{
}

/// Upgrading a progress holder to write and at once downgrading again gives
/// the state that a fresh progress acquisition gives once the holder has
/// released; the token is held throughout, so no other acquisition comes
/// between.
pub proof fn lemma_upgrade_downgrade(s: LockState)
    requires
        s.wf(),
        s.in_progress(),
    ensures
        s.after_begin_upgrade().token,
        s.after_begin_upgrade().readers == 0 ==> ({
            let w = LockState { writer: true, ..s.after_begin_upgrade() };
            let d = w.after_downgrade();
            let released = LockState { readers: (s.readers - 1) as u64, token: false, writer: false };
            &&& w.wf() && w.token
            &&& !w.can_progress() && !w.can_write() && !w.can_read()
            &&& d == s
            &&& released.can_progress() && released.after_progress() == d
        }),
{
}

} // verus!
