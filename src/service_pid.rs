use vstd::prelude::*;
use crate::errors::UnitActionError;

verus! {

/// The main and control processes of a service.
pub struct ServicePid {
    pub main: Option<i32>,
    /// Whether the main pid has ever been known.
    pub main_known: bool,
    pub control: Option<i32>,
}

impl ServicePid {
    /// No processes known.
    pub fn new() -> (p: ServicePid)
        ensures
            p.main is None,
            !p.main_known,
            p.control is None,
    {
        ServicePid { main: None, main_known: false, control: None }
    }

    /// Sets the main pid. A pid below 1 is refused with `EInval` and
    /// nothing changes; the current main pid again changes nothing; another
    /// one replaces the current main pid, which is returned so that its
    /// watch is dropped.
    pub fn set_main(&mut self, pid: i32) -> (r: Result<Option<i32>, UnitActionError>)
        ensures
            pid < 1 ==> r == Err::<Option<i32>, UnitActionError>(UnitActionError::EInval)
                && *final(self) == *old(self),
            pid >= 1 && old(self).main == Some(pid) ==> r == Ok::<Option<i32>, UnitActionError>(None)
                && *final(self) == *old(self),
            pid >= 1 && old(self).main != Some(pid) ==> r == Ok::<Option<i32>, UnitActionError>(old(self).main)
                && final(self).main == Some(pid) && final(self).main_known && final(self).control
                == old(self).control,
    {
        if pid < 1 {
            return Err(UnitActionError::EInval);
        }
        match self.main {
            Some(p) => {
                if p == pid {
                    return Ok(None);
                }
            },
            None => {},
        }
        let old_main = self.main;
        self.main = Some(pid);
        self.main_known = true;
        Ok(old_main)
    }

    /// Forgets the main pid, returning it so that its watch is dropped.
    pub fn unwatch_main(&mut self) -> (r: Option<i32>)
        ensures
            r == old(self).main,
            final(self).main is None,
            final(self).main_known == old(self).main_known,
            final(self).control == old(self).control,
    {
        let m = self.main;
        self.main = None;
        m
    }

    /// Sets the control pid, returning the one it replaces.
    pub fn set_control(&mut self, pid: i32) -> (r: Option<i32>)
        ensures
            r == old(self).control,
            final(self).control == Some(pid),
            final(self).main == old(self).main,
            final(self).main_known == old(self).main_known,
    {
        let c = self.control;
        self.control = Some(pid);
        c
    }

    /// Forgets the control pid, returning it so that its watch is dropped.
    pub fn unwatch_control(&mut self) -> (r: Option<i32>)
        ensures
            r == old(self).control,
            final(self).control is None,
            final(self).main == old(self).main,
            final(self).main_known == old(self).main_known,
    {
        let c = self.control;
        self.control = None;
        c
    }

    /// Whether the main process lives, given whether the process with the
    /// main pid exists: `EAgain` while no main pid was ever known, false
    /// once it was forgotten.
    pub fn main_alive(&self, exists: bool) -> (r: Result<bool, UnitActionError>)
        ensures
            !self.main_known ==> r == Err::<bool, UnitActionError>(UnitActionError::EAgain),
            self.main_known && self.main is None ==> r == Ok::<bool, UnitActionError>(false),
            self.main_known && self.main is Some ==> r == Ok::<bool, UnitActionError>(exists),
    {
        if !self.main_known {
            return Err(UnitActionError::EAgain);
        }
        match self.main {
            None => Ok(false),
            Some(_) => Ok(exists),
        }
    }
}

} // verus!
