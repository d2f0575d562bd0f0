use vstd::prelude::*;

verus! {

/// The permission triple of a region: what the CPU may do with its bytes.
#[derive(Clone, Copy, Debug, PartialEq, Eq, Structural)]
pub struct Perm {
    pub read: bool,
    pub write: bool,
    pub execute: bool,
}

/// The POSIX protection word of a triple: the union of Read = 1, Write = 2, Exec = 4.
pub open spec fn posix_bits(p: Perm) -> int {
    (if p.read { 1int } else { 0 }) + (if p.write { 2int } else { 0 }) + (if p.execute {
        4int
    } else {
        0
    })
}

/// The protection classes that the Windows kernel can express for a page.
#[derive(Clone, Copy, Debug, PartialEq, Eq, Structural)]
pub enum WinProtect {
    NoAccess,
    ReadOnly,
    ReadWrite,
    Execute,
    ExecuteRead,
    ExecuteReadWrite,
}

/// The Windows protection class of a triple. Windows has no write-only page nor a
/// writable page that cannot be read: such triples are promoted to the class that also
/// allows reading.
pub open spec fn win_class(p: Perm) -> WinProtect {
    if p.execute {
        if p.write {
            WinProtect::ExecuteReadWrite
        } else if p.read {
            WinProtect::ExecuteRead
        } else {
            WinProtect::Execute
        }
    } else {
        if p.write {
            WinProtect::ReadWrite
        } else if p.read {
            WinProtect::ReadOnly
        } else {
            WinProtect::NoAccess
        }
    }
}

/// What a protection class lets the CPU do.
pub open spec fn win_allows(c: WinProtect) -> Perm {
    match c {
        WinProtect::NoAccess => Perm { read: false, write: false, execute: false },
        WinProtect::ReadOnly => Perm { read: true, write: false, execute: false },
        WinProtect::ReadWrite => Perm { read: true, write: true, execute: false },
        WinProtect::Execute => Perm { read: false, write: false, execute: true },
        WinProtect::ExecuteRead => Perm { read: true, write: false, execute: true },
        WinProtect::ExecuteReadWrite => Perm { read: true, write: true, execute: true },
    }
}

/// `a` allows everything that `b` allows.
pub open spec fn covers(a: Perm, b: Perm) -> bool {
    &&& b.read ==> a.read
    &&& b.write ==> a.write
    &&& b.execute ==> a.execute
}

impl Perm {
    /// The POSIX protection word of this triple.
    pub fn posix_mask(self) -> (m: i32)
        ensures
            m == posix_bits(self),
    {
        let r: i32 = if self.read { 1 } else { 0 };
        let w: i32 = if self.write { 2 } else { 0 };
        let x: i32 = if self.execute { 4 } else { 0 };
        assert((r | w | x) == r + w + x) by (bit_vector)
            requires
                r == 0 || r == 1,
                w == 0 || w == 2,
                x == 0 || x == 4,
        ;
        r | w | x
    }

    /// The Windows protection class of this triple, promoted where Windows has no exact one.
    pub fn windows_protect(self) -> (c: WinProtect)
        ensures
            c == win_class(self),
            covers(win_allows(c), self),
    {
        if self.execute {
            if self.write {
                WinProtect::ExecuteReadWrite
            } else if self.read {
                WinProtect::ExecuteRead
            } else {
                WinProtect::Execute
            }
        } else {
            if self.write {
                WinProtect::ReadWrite
            } else if self.read {
                WinProtect::ReadOnly
            } else {
                WinProtect::NoAccess
            }
        }
    }

    /// Whether the triple holds both Write and Execute.
    pub fn is_write_exec(self) -> (r: bool)
        ensures
            r == (self.write && self.execute),
    {
        self.write && self.execute
    }
}

/// The Windows promotion is the least class that allows a triple: any class that
/// allows `p` allows all that `win_class(p)` allows, and it is exact for every triple
/// that Windows can express.
pub proof fn lemma_win_class_least(p: Perm, c: WinProtect)
    requires
        covers(win_allows(c), p),
    ensures
        covers(win_allows(c), win_allows(win_class(p))),
        covers(win_allows(win_class(p)), p),
        win_allows(c) == p ==> win_class(p) == c,
{
}

/// Distinct triples have distinct POSIX protection words.
pub proof fn lemma_posix_bits_injective(p: Perm, q: Perm)
    ensures
        posix_bits(p) == posix_bits(q) <==> p == q,
{
}

/// The named transitions between permission triples.
#[derive(Clone, Copy, Debug, PartialEq, Eq, Structural)]
pub enum Transition {
    AllowRead,
    DenyRead,
    AllowWrite,
    DenyWrite,
    AllowWriteNoExec,
    AllowExec,
    DenyExec,
    SetProtectedExec,
}

/// The triple that a transition yields from `p`.
pub open spec fn apply(t: Transition, p: Perm) -> Perm {
    match t {
        Transition::AllowRead => Perm { read: true, ..p },
        Transition::DenyRead => Perm { read: false, ..p },
        Transition::AllowWrite => Perm { write: true, ..p },
        Transition::DenyWrite => Perm { write: false, ..p },
        Transition::AllowWriteNoExec => Perm { write: true, execute: false, ..p },
        Transition::AllowExec => Perm { execute: true, ..p },
        Transition::DenyExec => Perm { execute: false, ..p },
        Transition::SetProtectedExec => Perm { write: false, execute: true, ..p },
    }
}

/// Whether a region in `p` offers the transition while Write and Execute are kept
/// apart: `allow_exec` only where writes are denied, `allow_write` only where
/// execution is denied.
pub open spec fn offered(t: Transition, p: Perm) -> bool {
    match t {
        Transition::AllowExec => !p.write,
        Transition::AllowWrite => !p.execute,
        _ => true,
    }
}

impl Transition {
    /// The triple this transition yields from `p`.
    pub fn target(self, p: Perm) -> (r: Perm)
        ensures
            r == apply(self, p),
    {
        match self {
            Transition::AllowRead => Perm { read: true, ..p },
            Transition::DenyRead => Perm { read: false, ..p },
            Transition::AllowWrite => Perm { write: true, ..p },
            Transition::DenyWrite => Perm { write: false, ..p },
            Transition::AllowWriteNoExec => Perm { write: true, execute: false, ..p },
            Transition::AllowExec => Perm { execute: true, ..p },
            Transition::DenyExec => Perm { execute: false, ..p },
            Transition::SetProtectedExec => Perm { write: false, execute: true, ..p },
        }
    }

    /// Whether a region in `p` offers this transition while Write and Execute are
    /// kept apart.
    pub fn is_offered(self, p: Perm) -> (r: bool)
        ensures
            r == offered(self, p),
    {
        match self {
            Transition::AllowExec => !p.write,
            Transition::AllowWrite => !p.execute,
            _ => true,
        }
    }
}

/// While Write and Execute are kept apart, no transition that a region offers yields
/// a triple with both, from a triple without both.
pub proof fn lemma_offered_keeps_write_xor_exec(t: Transition, p: Perm)
    requires
        !(p.write && p.execute),
        offered(t, p),
    ensures
        !(apply(t, p).write && apply(t, p).execute),
{
}

/// Marks whether a region can be read.
pub trait ReadPremisionMarker {
    /// Whether the marked region can be read.
    spec fn readable() -> bool;

    /// Whether the marked region can be read.
    fn allow_read() -> (r: bool)
        ensures
            r == Self::readable(),
    ;

    /// This axis' part of the POSIX protection word.
    fn bitmask() -> (m: i32)
        ensures
            m == (if Self::readable() { 1i32 } else { 0i32 }),
    ;
}

/// Marks whether a region can be written into.
pub trait WritePremisionMarker {
    /// Whether the marked region can be written into.
    spec fn writable() -> bool;

    /// Whether the marked region can be written into.
    fn allow_write() -> (r: bool)
        ensures
            r == Self::writable(),
    ;

    /// This axis' part of the POSIX protection word.
    fn bitmask() -> (m: i32)
        ensures
            m == (if Self::writable() { 2i32 } else { 0i32 }),
    ;
}

/// Marks whether native instructions in a region can be executed.
pub trait ExecPremisionMarker {
    /// Whether the marked region can be executed.
    spec fn executable() -> bool;

    /// Whether the marked region can be executed.
    fn allow_exec() -> (r: bool)
        ensures
            r == Self::executable(),
    ;

    /// This axis' part of the POSIX protection word.
    fn bitmask() -> (m: i32)
        ensures
            m == (if Self::executable() { 4i32 } else { 0i32 }),
    ;
}

/// A region that can be read.
pub struct AllowRead;

/// A region whose reads fault.
pub struct DenyRead;

/// A region that can be written into.
pub struct AllowWrite;

/// A region whose writes fault.
pub struct DenyWrite;

/// A region whose bytes can be executed as native instructions.
pub struct AllowExec;

/// A region whose bytes can never be executed.
pub struct DenyExec;

impl ReadPremisionMarker for AllowRead {
    open spec fn readable() -> bool {
        true
    }

    fn allow_read() -> (r: bool) {
        true
    }

    fn bitmask() -> (m: i32) {
        1
    }
}

impl ReadPremisionMarker for DenyRead {
    open spec fn readable() -> bool {
        false
    }

    fn allow_read() -> (r: bool) {
        false
    }

    fn bitmask() -> (m: i32) {
        0
    }
}

impl WritePremisionMarker for AllowWrite {
    open spec fn writable() -> bool {
        true
    }

    fn allow_write() -> (r: bool) {
        true
    }

    fn bitmask() -> (m: i32) {
        2
    }
}

impl WritePremisionMarker for DenyWrite {
    open spec fn writable() -> bool {
        false
    }

    fn allow_write() -> (r: bool) {
        false
    }

    fn bitmask() -> (m: i32) {
        0
    }
}

impl ExecPremisionMarker for AllowExec {
    open spec fn executable() -> bool {
        true
    }

    fn allow_exec() -> (r: bool) {
        true
    }

    fn bitmask() -> (m: i32) {
        4
    }
}

impl ExecPremisionMarker for DenyExec {
    open spec fn executable() -> bool {
        false
    }

    fn allow_exec() -> (r: bool) {
        false
    }

    fn bitmask() -> (m: i32) {
        0
    }
}

/// The triple that three markers stand for.
pub open spec fn marked<R: ReadPremisionMarker, W: WritePremisionMarker, E: ExecPremisionMarker>() -> Perm {
    Perm { read: R::readable(), write: W::writable(), execute: E::executable() }
}

/// The triple of a region typed with the markers `R`, `W`, `E`.
pub fn perm_of<R: ReadPremisionMarker, W: WritePremisionMarker, E: ExecPremisionMarker>() -> (p:
    Perm)
    ensures
        p == marked::<R, W, E>(),
{
    Perm { read: R::allow_read(), write: W::allow_write(), execute: E::allow_exec() }
}

/// The POSIX protection word of a region typed with the markers `R`, `W`, `E`: the
/// union of each axis' bit.
pub fn posix_mask_of<R: ReadPremisionMarker, W: WritePremisionMarker, E: ExecPremisionMarker>() -> (m:
    i32)
    ensures
        m == posix_bits(marked::<R, W, E>()),
{
    let r = R::bitmask();
    let w = W::bitmask();
    let x = E::bitmask();
    assert((r | w | x) == r + w + x) by (bit_vector)
        requires
            r == 0 || r == 1,
            w == 0 || w == 2,
            x == 0 || x == 4,
    ;
    r | w | x
}

} // verus!
