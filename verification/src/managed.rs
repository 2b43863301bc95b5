//! Displays that callers hold on to, whatever kind they are.
use crate::error::{err, Error, ErrorKind};
use vstd::prelude::*;

verus! {

/// A display for imported frames or for raw ones.
pub enum ManagedDisplay<P, R> {
    Prime(P),
    Raw(R),
}

/// A display until it is closed or fails.
pub struct DisplayRes<P, R> {
    pub display: Option<ManagedDisplay<P, R>>,
}

impl<P, R> DisplayRes<P, R> {
    pub fn new(display: ManagedDisplay<P, R>) -> (r: DisplayRes<P, R>)
        ensures
            r.display == Some(display),
    {
        DisplayRes { display: Some(display) }
    }

    /// The display for imported frames, if it is one.
    pub open spec fn spec_prime(self) -> Option<P> {
        match self.display {
            Some(ManagedDisplay::Prime(display)) => Some(display),
            _ => None,
        }
    }

    /// The display for raw frames, if it is one.
    pub open spec fn spec_raw(self) -> Option<R> {
        match self.display {
            Some(ManagedDisplay::Raw(display)) => Some(display),
            _ => None,
        }
    }

    /// What closing hands out, and what is left.
    pub open spec fn spec_close(self) -> (Option<ManagedDisplay<P, R>>, DisplayRes<P, R>) {
        (self.display, DisplayRes { display: None })
    }

    /// The display that an imported frame goes to.
    pub fn prime(&self) -> (r: Result<&P, Error>)
        ensures
            self.spec_prime() == (match r {
                Ok(display) => Some(*display),
                Err(_) => None,
            }),
            match r {
                Ok(display) => self.display == Some(ManagedDisplay::<P, R>::Prime(*display)),
                Err(e) => match self.display {
                    None => e.says(ErrorKind::Other, "display closed"@),
                    Some(ManagedDisplay::Raw(_)) => e.says(
                        ErrorKind::Other,
                        "display kind mismatch"@,
                    ),
                    Some(ManagedDisplay::Prime(_)) => false,
                },
            },
    {
        match &self.display {
            Some(ManagedDisplay::Prime(display)) => Ok(display),
            Some(ManagedDisplay::Raw(_)) => Err(err("display kind mismatch")),
            None => Err(err("display closed")),
        }
    }

    /// The display that a raw frame goes to.
    pub fn raw(&self) -> (r: Result<&R, Error>)
        ensures
            self.spec_raw() == (match r {
                Ok(display) => Some(*display),
                Err(_) => None,
            }),
            match r {
                Ok(display) => self.display == Some(ManagedDisplay::<P, R>::Raw(*display)),
                Err(e) => match self.display {
                    None => e.says(ErrorKind::Other, "display closed"@),
                    Some(ManagedDisplay::Prime(_)) => e.says(
                        ErrorKind::Other,
                        "display kind mismatch"@,
                    ),
                    Some(ManagedDisplay::Raw(_)) => false,
                },
            },
    {
        match &self.display {
            Some(ManagedDisplay::Raw(display)) => Ok(display),
            Some(ManagedDisplay::Prime(_)) => Err(err("display kind mismatch")),
            None => Err(err("display closed")),
        }
    }

    /// Drops the display, when it is closed or did not take a frame.
    pub fn close(&mut self) -> (r: Option<ManagedDisplay<P, R>>)
        ensures
            (r, *final(self)) == old(self).spec_close(),
            r == old(self).display,
            final(self).display is None,
    {
        self.display.take()
    }
}

/// A display takes frames of its own kind and no others, and none once it is closed.
pub proof fn displays_take_frames_of_their_kind<P, R>(res: DisplayRes<P, R>, p: P, r: R)
    ensures
        res.spec_prime() == Some(p) <==> res.display == Some(ManagedDisplay::<P, R>::Prime(p)),
        res.spec_raw() == Some(r) <==> res.display == Some(ManagedDisplay::<P, R>::Raw(r)),
        res.spec_prime() is None || res.spec_raw() is None,
        res.spec_close().1.spec_prime() is None && res.spec_close().1.spec_raw() is None,
{
}

/// A display is handed out once: the first time it is closed.
pub proof fn displays_are_closed_once<P, R>(res: DisplayRes<P, R>)
    ensures
        res.spec_close().0 == res.display,
        res.spec_close().1.spec_close().0 is None,
{
}

} // verus!
