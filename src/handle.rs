use vstd::prelude::*;

verus! {

/// The operating-system call that reported a failure.
#[derive(Debug, Clone, Copy, PartialEq, Eq, Structural)]
pub enum OsFailure {
    /// Duplicating a descriptor failed.
    Dup,
    /// Creating a pipe failed.
    Pipe,
    /// Setting close-on-exec failed.
    Cloexec,
    /// Closing a descriptor failed.
    Close,
}

/// Owns one open descriptor number. The type is neither `Copy` nor `Clone`:
/// the number leaves it once, through `into_raw_fd`, to be closed or handed on.
#[derive(Debug)]
pub struct Handle {
    fd: i32,
}

impl Handle {
    #[verifier::type_invariant]
    spec fn wf(self) -> bool {
        self.fd >= 0
    }

    /// The descriptor number this handle owns.
    pub closed spec fn fd(self) -> i32 {
        self.fd
    }

    /// Takes ownership of `fd`. The caller holds that number alone and gives
    /// it up here.
    pub fn adopt(fd: i32) -> (h: Handle)
        requires
            fd >= 0,
        ensures
            h.fd() == fd,
    {
        Handle { fd }
    }

    /// Gives up ownership: the caller now holds the number and must close it
    /// once, or hand it on.
    pub fn into_raw_fd(self) -> (fd: i32)
        ensures
            fd == self.fd(),
            fd >= 0,
    {
        proof {
            use_type_invariant(&self);
        }
        self.fd
    }

    /// The descriptor number, still owned by this handle.
    pub fn as_raw_fd(&self) -> (fd: i32)
        ensures
            fd == self.fd(),
            fd >= 0,
    {
        proof {
            use_type_invariant(self);
        }
        self.fd
    }
}

/// Turns the value returned by a duplication call into the new descriptor,
/// or into the failure it reports (a negative value).
pub fn check_dup(ret: i32) -> (r: Result<i32, OsFailure>)
    ensures
        r == (if ret >= 0 { Ok::<i32, OsFailure>(ret) } else { Err(OsFailure::Dup) }),
{
    if ret >= 0 {
        Ok(ret)
    } else {
        Err(OsFailure::Dup)
    }
}

/// Reads the status of a call that returns zero on success (`pipe`, the
/// close-on-exec request, `close`); any other value is a failure of `call`.
pub fn check_status(status: i32, call: OsFailure) -> (r: Result<(), OsFailure>)
    ensures
        r == (if status == 0 { Ok::<(), OsFailure>(()) } else { Err(call) }),
{
    if status == 0 {
        Ok(())
    } else {
        Err(call)
    }
}

/// Reads what a pipe call returned: its status and the two numbers it wrote,
/// read end first. Success needs a zero status and two distinct valid
/// numbers.
pub fn check_pipe(status: i32, fds: [i32; 2]) -> (r: Result<(i32, i32), OsFailure>)
    ensures
        r == (if status == 0 && fds[0] >= 0 && fds[1] >= 0 && fds[0] != fds[1] {
            Ok::<(i32, i32), OsFailure>((fds[0], fds[1]))
        } else {
            Err(OsFailure::Pipe)
        }),
{
    let read = fds[0];
    let write = fds[1];
    if status == 0 && read >= 0 && write >= 0 && read != write {
        Ok((read, write))
    } else {
        Err(OsFailure::Pipe)
    }
}

} // verus!
