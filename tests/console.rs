use tock_startup::console::{
    Console, ErrorCode, KernelEvent, PrintSession, Step, Syscall, CONSOLE_WRITE, DRIVER_CHECK,
    DRIVER_NUM, WRITE_BUFFER, WRITE_CALLBACK,
};

/// A kernel that answers every syscall with success, but the one at
/// `fail_at` (counting from 0), and ends each wait with `upcall`.
struct FakeKernel {
    fail_at: Option<(usize, ErrorCode)>,
    upcall: (u32, u32, u32),
    calls: Vec<Syscall>,
}

impl FakeKernel {
    fn new(fail_at: Option<(usize, ErrorCode)>, upcall: (u32, u32, u32)) -> Self {
        FakeKernel { fail_at, upcall, calls: Vec::new() }
    }

    fn answer(&mut self, call: Syscall) -> KernelEvent {
        let n = self.calls.len();
        self.calls.push(call);
        if let Some((at, e)) = self.fail_at {
            if at == n {
                return KernelEvent::Returned(Err(e));
            }
        }
        match call {
            Syscall::YieldWait => KernelEvent::Upcall(self.upcall.0, self.upcall.1, self.upcall.2),
            _ => KernelEvent::Returned(Ok(())),
        }
    }

    fn print(&mut self, text: &[u8]) -> Result<u32, ErrorCode> {
        let (mut session, mut step) = Console::print(text);
        loop {
            match step {
                Step::Done(r) => return r,
                Step::Issue(call) => {
                    let ev = self.answer(call);
                    step = session.on_event(ev);
                }
            }
        }
    }
}

const PROBE: Syscall = Syscall::Command { driver: DRIVER_NUM, command: DRIVER_CHECK, arg0: 0, arg1: 0 };
const SUBSCRIBE: Syscall = Syscall::Subscribe { driver: DRIVER_NUM, upcall: WRITE_CALLBACK };
const UNSUBSCRIBE: Syscall = Syscall::Unsubscribe { driver: DRIVER_NUM, upcall: WRITE_CALLBACK };
const UNALLOW: Syscall = Syscall::Unallow { driver: DRIVER_NUM, buffer: WRITE_BUFFER };

fn allow(len: u32) -> Syscall {
    Syscall::AllowReadOnly { driver: DRIVER_NUM, buffer: WRITE_BUFFER, len }
}

fn write(len: u32) -> Syscall {
    Syscall::Command { driver: DRIVER_NUM, command: CONSOLE_WRITE, arg0: len, arg1: 0 }
}

#[test]
fn empty_text_makes_no_syscall() {
    let mut k = FakeKernel::new(None, (9, 0, 0));
    assert_eq!(k.print(b""), Ok(0));
    assert!(k.calls.is_empty());
    let (session, step) = Console::print(b"");
    assert_eq!(step, Step::Done(Ok(0)));
    assert_eq!(session.pending(), Step::Done(Ok(0)));
}

#[test]
fn probe_failure_stops_everything() {
    let mut k = FakeKernel::new(Some((0, ErrorCode::NoDevice)), (7, 0, 0));
    assert_eq!(k.print(b"hello"), Err(ErrorCode::NoDevice));
    assert_eq!(k.calls, vec![PROBE]);
}

#[test]
fn write_returns_upcall_value_seven() {
    let mut k = FakeKernel::new(None, (7, 1, 2));
    assert_eq!(k.print(b"hello world"), Ok(7));
    assert_eq!(k.calls, vec![PROBE, allow(11), SUBSCRIBE, write(11), Syscall::YieldWait, UNSUBSCRIBE, UNALLOW]);
}

#[test]
fn write_with_zero_argument_upcall() {
    let mut k = FakeKernel::new(None, (0, 0, 0));
    assert_eq!(k.print(b"x"), Ok(0));
    assert_eq!(k.calls.len(), 7);
}

#[test]
fn allow_failure_grants_nothing() {
    let mut k = FakeKernel::new(Some((1, ErrorCode::Invalid)), (7, 0, 0));
    assert_eq!(k.print(b"abc"), Err(ErrorCode::Invalid));
    assert_eq!(k.calls, vec![PROBE, allow(3)]);
}

#[test]
fn subscribe_failure_revokes_buffer() {
    let mut k = FakeKernel::new(Some((2, ErrorCode::NoMem)), (7, 0, 0));
    assert_eq!(k.print(b"abc"), Err(ErrorCode::NoMem));
    assert_eq!(k.calls, vec![PROBE, allow(3), SUBSCRIBE, UNALLOW]);
}

#[test]
fn command_failure_revokes_both() {
    let mut k = FakeKernel::new(Some((3, ErrorCode::Busy)), (7, 0, 0));
    assert_eq!(k.print(b"abc"), Err(ErrorCode::Busy));
    assert_eq!(k.calls, vec![PROBE, allow(3), SUBSCRIBE, write(3), UNSUBSCRIBE, UNALLOW]);
}

#[test]
fn upcall_before_wait_is_ignored() {
    let (mut s, step) = Console::print(b"ab");
    assert_eq!(step, Step::Issue(PROBE));
    let before: PrintSession = s;
    assert_eq!(s.on_event(KernelEvent::Upcall(5, 0, 0)), Step::Issue(PROBE));
    assert_eq!(s, before);
}

#[test]
fn advance_through_text() {
    assert_eq!(Console::advance(0, 10, 4), Some(4));
    assert_eq!(Console::advance(4, 10, 6), Some(10));
    assert_eq!(Console::advance(4, 10, 7), None);
    assert_eq!(Console::advance(10, 10, 0), Some(10));
}
