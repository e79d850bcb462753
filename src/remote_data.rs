//! A value fetched from a remote source, which may not have arrived yet.
use vstd::prelude::*;

verus! {

/// Not requested, requested and awaited, or present.
pub enum RemoteData<T> {
    NotAsked,
    Loading,
    Loaded(T),
}

impl<T> RemoteData<T> {
    /// The data, present only once it has loaded.
    pub fn loaded(&self) -> (r: Option<&T>)
        ensures
            match self {
                RemoteData::Loaded(d) => r == Some(d),
                _ => r is None,
            },
    {
        if let RemoteData::Loaded(data) = self {
            Some(data)
        } else {
            None
        }
    }

    /// The data for editing in place, present only once it has loaded.
    pub fn loaded_mut(&mut self) -> (r: Option<&mut T>)
        ensures
            match *old(self) {
                RemoteData::Loaded(d) => r matches Some(m) && *m == d && *final(self)
                    == RemoteData::Loaded(*final(m)),
                _ => r is None && *final(self) == *old(self),
            },
    {
        if let RemoteData::Loaded(data) = self {
            Some(data)
        } else {
            None
        }
    }
}

} // verus!
