use vstd::prelude::*;
use vstd::string::*;
use crate::error::{Capability, Error};

verus! {

/// A global interface that the capture core knows how to use.
#[derive(Clone, Copy, Debug, PartialEq, Eq, Structural)]
pub enum Interface {
    Shm,
    ToplevelExportManager,
    ScreencopyManager,
    Output,
}

impl Interface {
    pub open spec fn spec_from_name(name: Seq<char>) -> Option<Interface> {
        if name == "wl_shm"@ {
            Some(Interface::Shm)
        } else if name == "hyprland_toplevel_export_manager_v1"@ {
            Some(Interface::ToplevelExportManager)
        } else if name == "zwlr_screencopy_manager_v1"@ {
            Some(Interface::ScreencopyManager)
        } else if name == "wl_output"@ {
            Some(Interface::Output)
        } else {
            None
        }
    }

    /// The interface that an advertised global name stands for, if it is one the core uses.
    pub fn from_name(name: &str) -> (r: Option<Interface>)
        ensures
            r == Interface::spec_from_name(name@),
    {
        if same_text(name, "wl_shm") {
            Some(Interface::Shm)
        } else if same_text(name, "hyprland_toplevel_export_manager_v1") {
            Some(Interface::ToplevelExportManager)
        } else if same_text(name, "zwlr_screencopy_manager_v1") {
            Some(Interface::ScreencopyManager)
        } else if same_text(name, "wl_output") {
            Some(Interface::Output)
        } else {
            None
        }
    }
}

/// Character-wise equality of two strings.
pub fn same_text(a: &str, b: &str) -> (r: bool)
    ensures
        r == (a@ == b@),
{
    let n = a.unicode_len();
    let m = b.unicode_len();
    if n != m {
        return false;
    }
    let mut i: usize = 0;
    while i < n
        invariant
            n == a@.len(),
            m == b@.len(),
            n == m,
            i <= n,
            forall|j: int| 0 <= j < i ==> a@[j] == b@[j],
        decreases n - i,
    {
        if a.get_char(i) != b.get_char(i) {
            return false;
        }
        i = i + 1;
    }
    assert(a@ =~= b@);
    true
}

/// Which capture manager a registry is built for.
#[derive(Clone, Copy, Debug, PartialEq, Eq, Structural)]
pub enum ManagerKind {
    /// Window-targeted capture.
    Toplevel,
    /// Output-targeted capture; output advertisements are bound as well.
    Screencopy,
}

impl ManagerKind {
    pub open spec fn interface(self) -> Interface {
        match self {
            ManagerKind::Toplevel => Interface::ToplevelExportManager,
            ManagerKind::Screencopy => Interface::ScreencopyManager,
        }
    }

    pub open spec fn capability(self) -> Capability {
        match self {
            ManagerKind::Toplevel => Capability::ToplevelExportManager,
            ManagerKind::Screencopy => Capability::ScreencopyManager,
        }
    }
}

/// Which required capabilities the bootstrap round trip has resolved so far.
#[derive(Clone, Copy, Debug)]
pub struct Registry {
    pub wanted: ManagerKind,
    pub shm: bool,
    pub manager: bool,
}

impl Registry {
    /// What `on_global` binds for a global named `name`.
    pub open spec fn spec_binding(self, name: Seq<char>) -> Option<Interface> {
        match Interface::spec_from_name(name) {
            Some(Interface::Shm) => Some(Interface::Shm),
            Some(Interface::Output) => if self.wanted == ManagerKind::Screencopy {
                Some(Interface::Output)
            } else {
                None
            },
            Some(i) => if i == self.wanted.interface() {
                Some(i)
            } else {
                None
            },
            None => None,
        }
    }

    pub open spec fn spec_finish(self) -> Result<(), Error> {
        if !self.manager {
            Err(Error::CapabilityUnavailable(self.wanted.capability()))
        } else if !self.shm {
            Err(Error::CapabilityUnavailable(Capability::Shm))
        } else {
            Ok(())
        }
    }

    pub fn new(wanted: ManagerKind) -> (r: Registry)
        ensures
            r == (Registry { wanted, shm: false, manager: false }),
    {
        Registry { wanted, shm: false, manager: false }
    }

    /// Note one advertised global and say what to bind for it; unknown globals, and the
    /// manager of the other kind, are ignored.
    pub fn on_global(&mut self, name: &str) -> (r: Option<Interface>)
        ensures
            r == old(self).spec_binding(name@),
            final(self).wanted == old(self).wanted,
            final(self).shm == (old(self).shm || r == Some(Interface::Shm)),
            final(self).manager == (old(self).manager || r == Some(old(self).wanted.interface())),
    {
        let bind = match Interface::from_name(name) {
            Some(Interface::Shm) => Some(Interface::Shm),
            Some(Interface::Output) => match self.wanted {
                ManagerKind::Screencopy => Some(Interface::Output),
                ManagerKind::Toplevel => None,
            },
            Some(Interface::ToplevelExportManager) => match self.wanted {
                ManagerKind::Toplevel => Some(Interface::ToplevelExportManager),
                ManagerKind::Screencopy => None,
            },
            Some(Interface::ScreencopyManager) => match self.wanted {
                ManagerKind::Screencopy => Some(Interface::ScreencopyManager),
                ManagerKind::Toplevel => None,
            },
            None => None,
        };
        match bind {
            Some(Interface::Shm) => self.shm = true,
            Some(Interface::ToplevelExportManager) | Some(Interface::ScreencopyManager) => self.manager = true,
            _ => {},
        }
        bind
    }

    /// After the round trip: usable only when both the shared-memory factory and the wanted
    /// manager were resolved; the missing one is named otherwise.
    pub fn finish(&self) -> (r: Result<(), Error>)
        ensures
            r == self.spec_finish(),
    {
        if !self.manager {
            Err(Error::CapabilityUnavailable(
                match self.wanted {
                    ManagerKind::Toplevel => Capability::ToplevelExportManager,
                    ManagerKind::Screencopy => Capability::ScreencopyManager,
                },
            ))
        } else if !self.shm {
            Err(Error::CapabilityUnavailable(Capability::Shm))
        } else {
            Ok(())
        }
    }
}

} // verus!
