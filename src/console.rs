//! The console driver's blocking write, as a session that names each syscall
//! in turn and is told how the kernel answered.
//!
//! A write shares the text read-only and registers the write-done upcall, each
//! for the life of the session only: whatever the outcome, the session revokes
//! what it granted before it reports a result.

use vstd::prelude::*;

verus! {

pub const DRIVER_NUM: u32 = 1;
pub const DRIVER_CHECK: u32 = 0;
pub const CONSOLE_WRITE: u32 = 1;
pub const WRITE_CALLBACK: u32 = 1;
pub const WRITE_BUFFER: u32 = 1;

/// Why the kernel refused a syscall.
#[derive(Clone, Copy, Debug, PartialEq, Eq)]
pub enum ErrorCode {
    Fail,
    Busy,
    Already,
    Off,
    Reserve,
    Invalid,
    Size,
    Cancel,
    NoMem,
    NoSupport,
    NoDevice,
    Uninstalled,
    NoAck,
    BadRVal,
}

/// A request to the kernel.
#[derive(Clone, Copy, Debug, PartialEq, Eq)]
pub enum Syscall {
    Command { driver: u32, command: u32, arg0: u32, arg1: u32 },
    AllowReadOnly { driver: u32, buffer: u32, len: u32 },
    Subscribe { driver: u32, upcall: u32 },
    Unsubscribe { driver: u32, upcall: u32 },
    Unallow { driver: u32, buffer: u32 },
    YieldWait,
}

/// What the kernel did in answer to the last syscall.
#[derive(Clone, Copy, Debug, PartialEq, Eq)]
pub enum KernelEvent {
    /// The syscall returned, with success or a refusal.
    Returned(Result<(), ErrorCode>),
    /// While the process waited, the registered upcall ran with these arguments.
    Upcall(u32, u32, u32),
}

/// What the caller does next.
#[derive(Clone, Copy, Debug, PartialEq, Eq)]
pub enum Step {
    Issue(Syscall),
    Done(Result<u32, ErrorCode>),
}

#[derive(Clone, Copy, Debug, PartialEq, Eq)]
pub enum PrintPhase {
    Probing,
    Sharing,
    Subscribing,
    Writing,
    Waiting,
    Closing(Result<u32, ErrorCode>),
    Finished(Result<u32, ErrorCode>),
}

/// One blocking write of `len` bytes. `shared` and `subscribed` say whether
/// the kernel currently holds the buffer and the upcall.
#[derive(Clone, Copy, Debug, PartialEq, Eq)]
pub struct PrintSession {
    pub len: u32,
    pub phase: PrintPhase,
    pub shared: bool,
    pub subscribed: bool,
}

/// The driver in console form; its operations are sessions.
pub struct Console;

impl PrintSession {
    /// Which grants are outstanding in each phase.
    pub open spec fn wf(self) -> bool {
        match self.phase {
            PrintPhase::Probing | PrintPhase::Sharing => !self.shared && !self.subscribed,
            PrintPhase::Subscribing => self.shared && !self.subscribed,
            PrintPhase::Writing | PrintPhase::Waiting => self.shared && self.subscribed,
            PrintPhase::Closing(_) => self.shared || self.subscribed,
            PrintPhase::Finished(_) => !self.shared && !self.subscribed,
        }
    }

    /// The session after deciding on `r`: revoke what is outstanding, then finish.
    pub open spec fn close_spec(self, r: Result<u32, ErrorCode>) -> PrintSession {
        if self.shared || self.subscribed {
            PrintSession { phase: PrintPhase::Closing(r), ..self }
        } else {
            PrintSession { phase: PrintPhase::Finished(r), ..self }
        }
    }

    /// The session after `ev`. An event that does not answer the pending step
    /// is ignored.
    pub open spec fn next_spec(self, ev: KernelEvent) -> PrintSession {
        match (self.phase, ev) {
            (PrintPhase::Probing, KernelEvent::Returned(Ok(()))) => PrintSession { phase: PrintPhase::Sharing, ..self },
            (PrintPhase::Sharing, KernelEvent::Returned(Ok(()))) => PrintSession {
                phase: PrintPhase::Subscribing,
                shared: true,
                ..self
            },
            (PrintPhase::Subscribing, KernelEvent::Returned(Ok(()))) => PrintSession {
                phase: PrintPhase::Writing,
                subscribed: true,
                ..self
            },
            (PrintPhase::Writing, KernelEvent::Returned(Ok(()))) => PrintSession { phase: PrintPhase::Waiting, ..self },
            (PrintPhase::Probing, KernelEvent::Returned(Err(e))) => self.close_spec(Err(e)),
            (PrintPhase::Sharing, KernelEvent::Returned(Err(e))) => self.close_spec(Err(e)),
            (PrintPhase::Subscribing, KernelEvent::Returned(Err(e))) => self.close_spec(Err(e)),
            (PrintPhase::Writing, KernelEvent::Returned(Err(e))) => self.close_spec(Err(e)),
            (PrintPhase::Waiting, KernelEvent::Upcall(bytes, _, _)) => self.close_spec(Ok(bytes)),
            (PrintPhase::Closing(r), KernelEvent::Returned(_)) => if self.subscribed {
                PrintSession { subscribed: false, ..self }.close_spec(r)
            } else {
                PrintSession { shared: false, ..self }.close_spec(r)
            },
            _ => self,
        }
    }

    /// What the caller is to do in the current phase.
    pub open spec fn pending_spec(self) -> Step {
        match self.phase {
            PrintPhase::Probing => Step::Issue(
                Syscall::Command { driver: DRIVER_NUM, command: DRIVER_CHECK, arg0: 0, arg1: 0 },
            ),
            PrintPhase::Sharing => Step::Issue(
                Syscall::AllowReadOnly { driver: DRIVER_NUM, buffer: WRITE_BUFFER, len: self.len },
            ),
            PrintPhase::Subscribing => Step::Issue(
                Syscall::Subscribe { driver: DRIVER_NUM, upcall: WRITE_CALLBACK },
            ),
            PrintPhase::Writing => Step::Issue(
                Syscall::Command { driver: DRIVER_NUM, command: CONSOLE_WRITE, arg0: self.len, arg1: 0 },
            ),
            PrintPhase::Waiting => Step::Issue(Syscall::YieldWait),
            PrintPhase::Closing(_) => if self.subscribed {
                Step::Issue(Syscall::Unsubscribe { driver: DRIVER_NUM, upcall: WRITE_CALLBACK })
            } else {
                Step::Issue(Syscall::Unallow { driver: DRIVER_NUM, buffer: WRITE_BUFFER })
            },
            PrintPhase::Finished(r) => Step::Done(r),
        }
    }

    /// The session that a write of `len` bytes opens with.
    pub open spec fn start_spec(len: u32) -> PrintSession {
        PrintSession {
            len,
            phase: if len == 0 { PrintPhase::Finished(Ok(0)) } else { PrintPhase::Probing },
            shared: false,
            subscribed: false,
        }
    }

    pub fn pending(&self) -> (r: Step)
        ensures
            r == self.pending_spec(),
    {
        match self.phase {
            PrintPhase::Probing => Step::Issue(
                Syscall::Command { driver: DRIVER_NUM, command: DRIVER_CHECK, arg0: 0, arg1: 0 },
            ),
            PrintPhase::Sharing => Step::Issue(
                Syscall::AllowReadOnly { driver: DRIVER_NUM, buffer: WRITE_BUFFER, len: self.len },
            ),
            PrintPhase::Subscribing => Step::Issue(
                Syscall::Subscribe { driver: DRIVER_NUM, upcall: WRITE_CALLBACK },
            ),
            PrintPhase::Writing => Step::Issue(
                Syscall::Command { driver: DRIVER_NUM, command: CONSOLE_WRITE, arg0: self.len, arg1: 0 },
            ),
            PrintPhase::Waiting => Step::Issue(Syscall::YieldWait),
            PrintPhase::Closing(_) => if self.subscribed {
                Step::Issue(Syscall::Unsubscribe { driver: DRIVER_NUM, upcall: WRITE_CALLBACK })
            } else {
                Step::Issue(Syscall::Unallow { driver: DRIVER_NUM, buffer: WRITE_BUFFER })
            },
            PrintPhase::Finished(r) => Step::Done(r),
        }
    }

    fn close(&mut self, r: Result<u32, ErrorCode>)
        ensures
            *final(self) == old(self).close_spec(r),
    {
        if self.shared || self.subscribed {
            self.phase = PrintPhase::Closing(r);
        } else {
            self.phase = PrintPhase::Finished(r);
        }
    }

    /// Feeds the kernel's answer to the pending step and returns the next step.
    pub fn on_event(&mut self, ev: KernelEvent) -> (r: Step)
        requires
            old(self).wf(),
        ensures
            *final(self) == old(self).next_spec(ev),
            final(self).wf(),
            r == final(self).pending_spec(),
    {
        match (self.phase, ev) {
            (PrintPhase::Probing, KernelEvent::Returned(Ok(()))) => self.phase = PrintPhase::Sharing,
            (PrintPhase::Sharing, KernelEvent::Returned(Ok(()))) => {
                self.phase = PrintPhase::Subscribing;
                self.shared = true;
            },
            (PrintPhase::Subscribing, KernelEvent::Returned(Ok(()))) => {
                self.phase = PrintPhase::Writing;
                self.subscribed = true;
            },
            (PrintPhase::Writing, KernelEvent::Returned(Ok(()))) => self.phase = PrintPhase::Waiting,
            (PrintPhase::Probing, KernelEvent::Returned(Err(e))) => self.close(Err(e)),
            (PrintPhase::Sharing, KernelEvent::Returned(Err(e))) => self.close(Err(e)),
            (PrintPhase::Subscribing, KernelEvent::Returned(Err(e))) => self.close(Err(e)),
            (PrintPhase::Writing, KernelEvent::Returned(Err(e))) => self.close(Err(e)),
            (PrintPhase::Waiting, KernelEvent::Upcall(bytes, _, _)) => self.close(Ok(bytes)),
            (PrintPhase::Closing(r), KernelEvent::Returned(_)) => {
                if self.subscribed {
                    self.subscribed = false;
                } else {
                    self.shared = false;
                }
                self.close(r);
            },
            _ => {},
        }
        self.pending()
    }
}

impl Console {
    /// Opens a blocking write of `text`. An empty text is done at once, with
    /// nothing asked of the kernel.
    pub fn print(text: &[u8]) -> (r: (PrintSession, Step))
        requires
            text@.len() <= u32::MAX,
        ensures
            r.0 == PrintSession::start_spec(text@.len() as u32),
            r.0.wf(),
            r.1 == r.0.pending_spec(),
            text@.len() == 0 ==> r.1 == Step::Done(Ok(0)),
    {
        let len: u32 = text.len() as u32;
        let s = PrintSession {
            len,
            phase: if len == 0 { PrintPhase::Finished(Ok(0)) } else { PrintPhase::Probing },
            shared: false,
            subscribed: false,
        };
        let step = s.pending();
        (s, step)
    }

    /// Where a write loop stands after the kernel took `written` more bytes of
    /// a `len`-byte text from `pos` on; `None` when it claims more than was left.
    pub fn advance(pos: usize, len: usize, written: u32) -> (r: Option<usize>)
        requires
            pos <= len,
        ensures
            r.is_some() <==> written <= len - pos,
            r matches Some(p) ==> p == pos + written,
    {
        if written as usize <= len - pos {
            Some(pos + written as usize)
        } else {
            None
        }
    }
}

} // verus!
