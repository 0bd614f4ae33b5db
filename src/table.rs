use crate::handle::{check_status, Handle, OsFailure};
use std::collections::HashMap;
use vstd::prelude::*;

verus! {

broadcast use vstd::std_specs::hash::group_hash_axioms;

/// Which end of a pipe a descriptor is, if it is a pipe end at all.
#[derive(Debug, Clone, Copy, PartialEq, Eq, Structural)]
pub enum End {
    /// The end a pipe is read from.
    Read,
    /// The end a pipe is written to.
    Write,
    /// Not a pipe end made here: a standard stream, a file, or a descriptor
    /// of unknown origin.
    Other,
}

/// What is known of one owned descriptor: the kernel object it refers to, if
/// known, which end of a pipe it is, and whether close-on-exec is set on it.
#[derive(Debug, Clone, Copy, PartialEq, Eq, Structural)]
pub struct Entry {
    /// Descriptors whose object is `Some` of the same number refer to one
    /// kernel object. `None` is a descriptor of unknown origin (taken over
    /// from a file or a raw number): it may refer to any object, a pipe
    /// made here included.
    pub object: Option<u64>,
    pub end: End,
    pub cloexec: bool,
}

/// The object numbers of the standard input, output and error streams are
/// their descriptor numbers 0, 1 and 2; pipes are numbered from here on.
pub const FIRST_PIPE_OBJECT: u64 = 3;

/// The entry a duplicate of a descriptor gets: the same object and end, with
/// close-on-exec set.
pub open spec fn dup_entry(e: Entry) -> Entry {
    Entry { object: e.object, end: e.end, cloexec: true }
}

/// The owned descriptors after `new_fd` is made a duplicate of `fd`.
pub open spec fn after_dup(m: Map<i32, Entry>, fd: i32, new_fd: i32) -> Map<i32, Entry> {
    m.insert(new_fd, dup_entry(m[fd]))
}

/// The owned descriptors after `new_fd` is made a duplicate of the standard
/// stream `stream` (0, 1 or 2), which refers to object `stream`.
pub open spec fn after_dup_stream(m: Map<i32, Entry>, stream: i32, new_fd: i32) -> Map<
    i32,
    Entry,
> {
    m.insert(new_fd, Entry { object: Some(stream as u64), end: End::Other, cloexec: true })
}

/// The owned descriptors after a pipe `object` is created with the ends
/// `read` and `write`.
pub open spec fn after_pipe(m: Map<i32, Entry>, read: i32, write: i32, object: u64) -> Map<
    i32,
    Entry,
> {
    m.insert(read, Entry { object: Some(object), end: End::Read, cloexec: true }).insert(
        write,
        Entry { object: Some(object), end: End::Write, cloexec: true },
    )
}

/// The owned descriptors after `fd`, a descriptor of unknown origin, is
/// taken over.
pub open spec fn after_adopt(m: Map<i32, Entry>, fd: i32) -> Map<i32, Entry> {
    m.insert(fd, Entry { object: None, end: End::Other, cloexec: true })
}

/// The owned descriptors known to write to the pipe `object`.
pub open spec fn writers(m: Map<i32, Entry>, object: u64) -> Set<i32> {
    Set::new(
        |fd: i32| m.contains_key(fd) && m[fd].object == Some(object) && m[fd].end == End::Write,
    )
}

/// The owned descriptors that may write to the pipe `object`: its known
/// writers and every descriptor of unknown origin.
pub open spec fn may_write(m: Map<i32, Entry>, object: u64) -> Set<i32> {
    Set::new(
        |fd: i32|
            m.contains_key(fd) && (m[fd].object is None || (m[fd].object == Some(object)
                && m[fd].end == End::Write)),
    )
}

/// A read from the pipe `object` returns end-of-stream, rather than blocking,
/// once no owned descriptor may write to it.
pub open spec fn at_end_of_stream(m: Map<i32, Entry>, object: u64) -> bool {
    forall|fd: i32| !#[trigger] may_write(m, object).contains(fd)
}

/// Whether a child spawned now sees `fd`: it was attached to one of the
/// child's streams, or it is owned here without close-on-exec.
pub open spec fn reaches_child(m: Map<i32, Entry>, attached: Set<i32>, fd: i32) -> bool {
    attached.contains(fd) || (m.contains_key(fd) && !m[fd].cloexec)
}

/// The owned descriptors after one cycle on the numbers `c = (read, write,
/// dup)`: a pipe `object` is created, its write end duplicated as `dup`, and
/// the read end, the write end and the duplicate released in turn.
pub open spec fn after_cycle(m: Map<i32, Entry>, c: (i32, i32, i32), object: u64) -> Map<
    i32,
    Entry,
> {
    after_dup(after_pipe(m, c.0, c.1, object), c.1, c.2).remove(c.0).remove(c.1).remove(c.2)
}

/// The owned descriptors after the cycles `cs` in turn, the first creating
/// the pipe `object`, each next one the pipe numbered one higher.
pub open spec fn after_cycles(m: Map<i32, Entry>, cs: Seq<(i32, i32, i32)>, object: u64) -> Map<
    i32,
    Entry,
>
    decreases cs.len(),
{
    if cs.len() == 0 {
        m
    } else {
        after_cycles(after_cycle(m, cs[0], object), cs.drop_first(), (object + 1) as u64)
    }
}

/// The numbers of a cycle are distinct and free in `m`, as the calls that
/// create and duplicate descriptors hand them out.
pub open spec fn fresh_cycle(m: Map<i32, Entry>, c: (i32, i32, i32)) -> bool {
    &&& c.0 != c.1 && c.0 != c.2 && c.1 != c.2
    &&& !m.contains_key(c.0) && !m.contains_key(c.1) && !m.contains_key(c.2)
}

/// In one cycle on `c` from `m`, the write end is owned when it is
/// duplicated, and each of the three numbers is owned when it is released.
pub open spec fn cycle_releases_owned(m: Map<i32, Entry>, c: (i32, i32, i32), object: u64) -> bool {
    let d = after_dup(after_pipe(m, c.0, c.1, object), c.1, c.2);
    &&& after_pipe(m, c.0, c.1, object).contains_key(c.1)
    &&& d.contains_key(c.0)
    &&& d.remove(c.0).contains_key(c.1)
    &&& d.remove(c.0).remove(c.1).contains_key(c.2)
}

/// The descriptors that live handles own, keyed by number: a number is owned
/// by one handle at most.
pub struct Descriptors {
    owned: HashMap<i32, Entry>,
    next_object: u64,
}

impl Descriptors {
    /// The owned descriptors and what is known of each.
    pub closed spec fn view(&self) -> Map<i32, Entry> {
        self.owned@
    }

    /// The object number the next new pipe receives.
    pub closed spec fn next_object(&self) -> u64 {
        self.next_object
    }

    /// Every owned number is valid and has close-on-exec set, and every known
    /// object is a standard stream or a pipe numbered below `next_object`.
    pub closed spec fn wf(&self) -> bool {
        &&& self.next_object >= FIRST_PIPE_OBJECT
        &&& forall|fd: i32| #[trigger]
            self.owned@.contains_key(fd) ==> fd >= 0 && self.owned@[fd].cloexec && match self.owned@[fd].object {
                Some(o) => o < self.next_object,
                None => true,
            }
    }

    /// An empty table.
    pub fn new() -> (t: Descriptors)
        ensures
            t.wf(),
            t@ == Map::<i32, Entry>::empty(),
            t.next_object() == FIRST_PIPE_OBJECT,
    {
        Descriptors { owned: HashMap::new(), next_object: FIRST_PIPE_OBJECT }
    }

    /// Whether a live handle owns `fd`.
    pub fn owns(&self, fd: i32) -> (r: bool)
        ensures
            r == self@.contains_key(fd),
    {
        self.owned.contains_key(&fd)
    }

    /// Whether a fresh object number is left for `open_pipe`.
    pub fn has_fresh_object(&self) -> (r: bool)
        ensures
            r == (self.next_object() < u64::MAX),
    {
        self.next_object < u64::MAX
    }

    /// What is known of `fd`, if a live handle owns it.
    pub fn entry(&self, fd: i32) -> (r: Option<Entry>)
        ensures
            r == (if self@.contains_key(fd) {
                Some(self@[fd])
            } else {
                None
            }),
    {
        match self.owned.get(&fd) {
            Some(e) => Some(*e),
            None => None,
        }
    }

    /// Records a new pipe whose ends `read` and `write` the operating system
    /// just created, once close-on-exec has been requested on each:
    /// `read_status` and `write_status` are what those requests returned.
    /// Only when both are zero is the pipe recorded, under a fresh object
    /// number, and its handles handed out as (read end, write end).
    pub fn open_pipe(&mut self, read: i32, write: i32, read_status: i32, write_status: i32) -> (r:
        Result<(Handle, Handle), OsFailure>)
        requires
            old(self).wf(),
            read >= 0,
            write >= 0,
            read != write,
            !old(self)@.contains_key(read),
            !old(self)@.contains_key(write),
            old(self).next_object() < u64::MAX,
        ensures
            final(self).wf(),
            r is Ok <==> read_status == 0 && write_status == 0,
            r matches Ok((rh, wh)) ==> {
                &&& final(self)@ == after_pipe(old(self)@, read, write, old(self).next_object())
                &&& final(self).next_object() == old(self).next_object() + 1
                &&& rh.fd() == read
                &&& wh.fd() == write
            },
            !(r is Ok) ==> r == Err::<(Handle, Handle), OsFailure>(OsFailure::Cloexec)
                && final(self)@ == old(self)@ && final(self).next_object() == old(
                self,
            ).next_object(),
            forall|g: i32| #[trigger]
                old(self)@.contains_key(g) ==> old(self)@[g].object != Some(old(self).next_object()),
    {
        if let Err(e) = check_status(read_status, OsFailure::Cloexec) {
            return Err(e);
        }
        if let Err(e) = check_status(write_status, OsFailure::Cloexec) {
            return Err(e);
        }
        let object = self.next_object;
        self.owned.insert(read, Entry { object: Some(object), end: End::Read, cloexec: true });
        self.owned.insert(write, Entry { object: Some(object), end: End::Write, cloexec: true });
        self.next_object = object + 1;
        Ok((Handle::adopt(read), Handle::adopt(write)))
    }

    /// Records `new_fd`, which the operating system just made a duplicate of
    /// the standard stream `stream` (0, 1 or 2), once the request for
    /// close-on-exec on it returned `status`. Only a zero status records it,
    /// as referring to the stream's object, and hands out its handle.
    pub fn dup_stream(&mut self, stream: i32, new_fd: i32, status: i32) -> (r: Result<
        Handle,
        OsFailure,
    >)
        requires
            old(self).wf(),
            0 <= stream <= 2,
            new_fd >= 0,
            !old(self)@.contains_key(new_fd),
        ensures
            final(self).wf(),
            final(self).next_object() == old(self).next_object(),
            r is Ok <==> status == 0,
            r matches Ok(h) ==> h.fd() == new_fd && final(self)@ == after_dup_stream(
                old(self)@,
                stream,
                new_fd,
            ),
            !(r is Ok) ==> r == Err::<Handle, OsFailure>(OsFailure::Cloexec) && final(self)@ == old(
                self,
            )@,
    {
        if let Err(e) = check_status(status, OsFailure::Cloexec) {
            return Err(e);
        }
        self.owned.insert(
            new_fd,
            Entry { object: Some(stream as u64), end: End::Other, cloexec: true },
        );
        Ok(Handle::adopt(new_fd))
    }

    /// Takes over `fd`, a descriptor of unknown origin (from a file, or a raw
    /// number), once the request for close-on-exec on it returned `status`.
    /// Only a zero status records it, with no object, and hands out its
    /// handle.
    pub fn adopt(&mut self, fd: i32, status: i32) -> (r: Result<Handle, OsFailure>)
        requires
            old(self).wf(),
            fd >= 0,
            !old(self)@.contains_key(fd),
        ensures
            final(self).wf(),
            final(self).next_object() == old(self).next_object(),
            r is Ok <==> status == 0,
            r matches Ok(h) ==> h.fd() == fd && final(self)@ == after_adopt(old(self)@, fd),
            !(r is Ok) ==> r == Err::<Handle, OsFailure>(OsFailure::Cloexec) && final(self)@ == old(
                self,
            )@,
    {
        if let Err(e) = check_status(status, OsFailure::Cloexec) {
            return Err(e);
        }
        self.owned.insert(fd, Entry { object: None, end: End::Other, cloexec: true });
        Ok(Handle::adopt(fd))
    }

    /// Records `new_fd`, which the operating system just made a duplicate of
    /// the descriptor `h` owns, once the request for close-on-exec on it
    /// returned `status`. Only a zero status records it and hands out its
    /// handle: both refer to the same object and are owned independently.
    pub fn duplicate(&mut self, h: &Handle, new_fd: i32, status: i32) -> (r: Result<
        Handle,
        OsFailure,
    >)
        requires
            old(self).wf(),
            old(self)@.contains_key(h.fd()),
            new_fd >= 0,
            !old(self)@.contains_key(new_fd),
        ensures
            final(self).wf(),
            final(self).next_object() == old(self).next_object(),
            r is Ok <==> status == 0,
            r matches Ok(d) ==> d.fd() == new_fd && final(self)@ == after_dup(
                old(self)@,
                h.fd(),
                new_fd,
            ),
            !(r is Ok) ==> r == Err::<Handle, OsFailure>(OsFailure::Cloexec) && final(self)@ == old(
                self,
            )@,
    {
        if let Err(e) = check_status(status, OsFailure::Cloexec) {
            return Err(e);
        }
        let fd = h.as_raw_fd();
        let e = *self.owned.get(&fd).unwrap();
        self.owned.insert(new_fd, Entry { object: e.object, end: e.end, cloexec: true });
        Ok(Handle::adopt(new_fd))
    }

    /// Ends the ownership of the descriptor `h` holds, whether it is then
    /// closed or handed on (to a file, to a child's stream), and returns its
    /// number. Nothing else about the table changes.
    pub fn release(&mut self, h: Handle) -> (fd: i32)
        requires
            old(self).wf(),
            old(self)@.contains_key(h.fd()),
        ensures
            final(self).wf(),
            final(self)@ == old(self)@.remove(h.fd()),
            final(self).next_object() == old(self).next_object(),
            fd == h.fd(),
    {
        let fd = h.into_raw_fd();
        self.owned.remove(&fd);
        fd
    }
}

/// Ending the ownership of `fd` (closing it, or handing it on) leaves the pipe
/// `object` at end-of-stream exactly when `fd` was the last owned descriptor
/// that may write to it: while another writer, a duplicate or a descriptor of
/// unknown origin included, is still owned, a read keeps waiting.
pub proof fn lemma_end_of_stream(m: Map<i32, Entry>, fd: i32, object: u64)
    ensures
        at_end_of_stream(m.remove(fd), object) <==> (forall|g: i32| #[trigger]
            may_write(m, object).contains(g) ==> g == fd),
{
    if at_end_of_stream(m.remove(fd), object) {
        assert forall|g: i32| #[trigger] may_write(m, object).contains(g) implies g == fd by {
            if g != fd {
                assert(may_write(m.remove(fd), object).contains(g));
            }
        }
    }
    if forall|g: i32| #[trigger] may_write(m, object).contains(g) ==> g == fd {
        assert forall|g: i32| !#[trigger] may_write(m.remove(fd), object).contains(g) by {
            if may_write(m.remove(fd), object).contains(g) {
                assert(may_write(m, object).contains(g));
            }
        }
    }
}

/// A pipe made by `open_pipe` under a fresh object number has its write end
/// as its one known writer; what may write to it is that end and the
/// descriptors of unknown origin that were already owned.
pub proof fn lemma_pipe_writers(m: Map<i32, Entry>, read: i32, write: i32, object: u64)
    requires
        read != write,
        !m.contains_key(read),
        !m.contains_key(write),
        forall|g: i32| #[trigger] m.contains_key(g) ==> m[g].object != Some(object),
    ensures
        writers(after_pipe(m, read, write, object), object) == set![write],
        may_write(after_pipe(m, read, write, object), object) == may_write(m, object).insert(write),
{
    assert(writers(after_pipe(m, read, write, object), object) =~= set![write]);
    assert(may_write(after_pipe(m, read, write, object), object) =~= may_write(m, object).insert(
        write,
    ));
}

/// A duplicate of a descriptor that may write to a pipe may write to it too;
/// a duplicate of any other descriptor leaves what may write to it as it was.
pub proof fn lemma_dup_writers(m: Map<i32, Entry>, fd: i32, new_fd: i32, object: u64)
    requires
        m.contains_key(fd),
        !m.contains_key(new_fd),
    ensures
        may_write(after_dup(m, fd, new_fd), object) == if may_write(m, object).contains(fd) {
            may_write(m, object).insert(new_fd)
        } else {
            may_write(m, object)
        },
{
    if may_write(m, object).contains(fd) {
        assert(may_write(after_dup(m, fd, new_fd), object) =~= may_write(m, object).insert(new_fd));
    } else {
        assert(may_write(after_dup(m, fd, new_fd), object) =~= may_write(m, object));
    }
}

/// Duplicates of one standard stream refer to one object, that of the stream,
/// and are never counted as writers of a pipe.
pub proof fn lemma_stream_duplicates(m: Map<i32, Entry>, stream: i32, a: i32, b: i32, object: u64)
    requires
        0 <= stream <= 2,
        a != b,
        !m.contains_key(a),
        !m.contains_key(b),
    ensures
        ({
            let m2 = after_dup_stream(after_dup_stream(m, stream, a), stream, b);
            &&& m2[a].object == Some(stream as u64)
            &&& m2[a].object == m2[b].object
            &&& may_write(m2, object) == may_write(m, object)
        }),
{
    let m2 = after_dup_stream(after_dup_stream(m, stream, a), stream, b);
    assert(may_write(m2, object) =~= may_write(m, object));
}

/// A duplicate and its original live independently: once the original is
/// released the duplicate is still owned and refers to the same object, as
/// the same end; releasing the duplicate instead leaves the original, and
/// everything else, as it was before the duplication.
pub proof fn lemma_independent_lifetime(m: Map<i32, Entry>, fd: i32, new_fd: i32)
    requires
        m.contains_key(fd),
        !m.contains_key(new_fd),
    ensures
        after_dup(m, fd, new_fd).remove(fd).contains_key(new_fd),
        after_dup(m, fd, new_fd).remove(fd)[new_fd].object == m[fd].object,
        after_dup(m, fd, new_fd).remove(fd)[new_fd].end == m[fd].end,
        after_dup(m, fd, new_fd).remove(new_fd) == m,
{
    assert(after_dup(m, fd, new_fd).remove(new_fd) =~= m);
}

/// No descriptor owned here reaches a spawned child unless it was attached to
/// one of the child's streams: every owned descriptor has close-on-exec set.
pub proof fn lemma_not_inherited(t: &Descriptors, attached: Set<i32>, fd: i32)
    requires
        t.wf(),
    ensures
        reaches_child(t@, attached, fd) <==> attached.contains(fd),
{
}

/// A released descriptor is owned no more, so `release` cannot be called for
/// it again until a new call hands out that number; every other descriptor
/// keeps its entry.
pub proof fn lemma_released_once(m: Map<i32, Entry>, fd: i32, g: i32)
    requires
        m.contains_key(fd),
    ensures
        !m.remove(fd).contains_key(fd),
        g != fd ==> (m.remove(fd).contains_key(g) <==> m.contains_key(g)),
        g != fd && m.contains_key(g) ==> m.remove(fd)[g] == m[g],
{
}

/// Any number of cycles, each creating a pipe on fresh numbers, duplicating
/// its write end and releasing all three descriptors, releases each number
/// exactly when it is owned and leaves the owned descriptors as they were:
/// nothing is released twice, nothing is leaked.
pub proof fn lemma_cycles(m: Map<i32, Entry>, cs: Seq<(i32, i32, i32)>, object: u64)
    requires
        forall|i: int| 0 <= i < cs.len() ==> #[trigger] fresh_cycle(m, cs[i]),
        object + cs.len() <= u64::MAX,
    ensures
        after_cycles(m, cs, object) == m,
        forall|i: int| 0 <= i < cs.len() ==> #[trigger] cycle_releases_owned(m, cs[i], (object + i) as u64),
    decreases cs.len(),
{
    if cs.len() > 0 {
        let c = cs[0];
        assert(fresh_cycle(m, c));
        let p = after_pipe(m, c.0, c.1, object);
        let d = after_dup(p, c.1, c.2);
        assert(p.contains_key(c.1) && !p.contains_key(c.2));
        assert(d.contains_key(c.0) && d.remove(c.0).contains_key(c.1));
        assert(d.remove(c.0).remove(c.1).contains_key(c.2));
        assert(after_cycle(m, c, object) =~= m);
        assert forall|i: int| 0 <= i < cs.drop_first().len() implies #[trigger] fresh_cycle(
            m,
            cs.drop_first()[i],
        ) by {
            assert(fresh_cycle(m, cs[i + 1]));
        }
        lemma_cycles(m, cs.drop_first(), (object + 1) as u64);
        assert forall|i: int| 0 <= i < cs.len() implies #[trigger] cycle_releases_owned(
            m,
            cs[i],
            (object + i) as u64,
        ) by {
            if i > 0 {
                assert(cs[i] == cs.drop_first()[i - 1]);
                assert(cycle_releases_owned(m, cs.drop_first()[i - 1], ((object + 1) as u64 + (i - 1)) as u64));
            }
        }
    }
}

} // verus!
