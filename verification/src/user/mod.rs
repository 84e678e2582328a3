//! User processes: who they run as, where their memory lies, how they are loaded.

use vstd::prelude::*;

pub mod elf;
pub mod fs;
pub mod loader;

verus! {

pub type Uid = u32;

pub type Gid = u32;

pub const ROOT_UID: Uid = 0;

pub const ROOT_GID: Gid = 0;

/// Where user memory ends: the top of the user stack.
pub const USER_ADDR_LIMIT: u64 = 0x0000_8000_0000;

/// Pages of a user stack, unless asked otherwise.
pub const DEFAULT_STACK_PAGES: usize = 8;

pub const PAGE_SIZE: usize = 4096;

/// Bytes of a default user stack.
pub fn default_stack_size() -> (size: usize)
    ensures
        size == DEFAULT_STACK_PAGES * PAGE_SIZE,
{
    DEFAULT_STACK_PAGES * PAGE_SIZE
}

/// The address just above every user stack.
pub fn stack_top() -> (top: u64)
    ensures
        top == USER_ADDR_LIMIT,
{
    USER_ADDR_LIMIT
}

/// The real and effective user and group of a process.
#[derive(Clone, Copy, Debug, PartialEq, Eq, Structural)]
pub struct Credentials {
    pub real_uid: Uid,
    pub effective_uid: Uid,
    pub real_gid: Gid,
    pub effective_gid: Gid,
}

impl Credentials {
    /// Credentials whose real and effective ids are the same.
    pub fn new(uid: Uid, gid: Gid) -> (c: Credentials)
        ensures
            c == (Credentials { real_uid: uid, effective_uid: uid, real_gid: gid, effective_gid: gid }),
    {
        Credentials { real_uid: uid, effective_uid: uid, real_gid: gid, effective_gid: gid }
    }

    /// The credentials of the superuser.
    pub fn root() -> (c: Credentials)
        ensures
            c == Self::spec_root(),
    {
        Self::new(ROOT_UID, ROOT_GID)
    }

    pub open spec fn spec_root() -> Credentials {
        Credentials {
            real_uid: ROOT_UID,
            effective_uid: ROOT_UID,
            real_gid: ROOT_GID,
            effective_gid: ROOT_GID,
        }
    }

    pub fn real_uid(&self) -> (uid: Uid)
        ensures
            uid == self.real_uid,
    {
        self.real_uid
    }

    pub fn effective_uid(&self) -> (uid: Uid)
        ensures
            uid == self.effective_uid,
    {
        self.effective_uid
    }

    pub fn real_gid(&self) -> (gid: Gid)
        ensures
            gid == self.real_gid,
    {
        self.real_gid
    }

    pub fn effective_gid(&self) -> (gid: Gid)
        ensures
            gid == self.effective_gid,
    {
        self.effective_gid
    }

    pub fn set_effective_uid(&mut self, uid: Uid)
        ensures
            *final(self) == (Credentials { effective_uid: uid, ..*old(self) }),
    {
        self.effective_uid = uid;
    }

    pub fn set_effective_gid(&mut self, gid: Gid)
        ensures
            *final(self) == (Credentials { effective_gid: gid, ..*old(self) }),
    {
        self.effective_gid = gid;
    }

    pub fn set_real_uid(&mut self, uid: Uid)
        ensures
            *final(self) == (Credentials { real_uid: uid, ..*old(self) }),
    {
        self.real_uid = uid;
    }

    pub fn set_real_gid(&mut self, gid: Gid)
        ensures
            *final(self) == (Credentials { real_gid: gid, ..*old(self) }),
    {
        self.real_gid = gid;
    }

    /// The same credentials with other effective ids.
    pub fn with_effective(self, uid: Uid, gid: Gid) -> (c: Credentials)
        ensures
            c == (Credentials { effective_uid: uid, effective_gid: gid, ..self }),
    {
        let mut changed = self;
        changed.effective_uid = uid;
        changed.effective_gid = gid;
        changed
    }

    /// A process is privileged when it runs as the superuser.
    pub fn is_privileged(&self) -> (yes: bool)
        ensures
            yes <==> self.effective_uid == ROOT_UID,
    {
        self.effective_uid == ROOT_UID
    }
}

} // verus!
