//! The disc-backend trait and the session over an opened disc.
use vstd::prelude::*;
use crate::detect::DiscType;
use crate::error::DiscError;
use crate::model::TitleCollection;
use crate::selection::{title_applied, Selection};

verus! {

/// A format backend: reports its type and lists a disc's titles.
pub trait DiscBackend {
    /// The type that [`DiscBackend::disc_type`] reports.
    spec fn type_of_disc(&self) -> DiscType;

    /// The path that [`DiscBackend::path`] reports.
    spec fn path_of_disc(&self) -> Seq<char>;

    /// `r` is an outcome of listing this disc.
    spec fn lists(&self, r: Result<TitleCollection, DiscError>) -> bool;

    /// The kind of disc that this backend handles.
    fn disc_type(&self) -> (t: DiscType)
        ensures
            t == self.type_of_disc(),
    ;

    /// The path that the backend was opened from.
    fn path(&self) -> (p: &str)
        ensures
            p@ == self.path_of_disc(),
    ;

    /// Lists the titles and tracks of the disc.
    fn enumerate(&self) -> (r: Result<TitleCollection, DiscError>)
        ensures
            self.lists(r),
    ;
}

/// An opened disc: the backend, its titles and the current selection.
pub struct Session<B: DiscBackend> {
    pub backend: B,
    pub collection: TitleCollection,
}

impl<B: DiscBackend> Session<B> {
    /// Opens a session over a backend, listing its titles at once.
    pub fn new(backend: B) -> (r: Result<Self, DiscError>)
        ensures
            match r {
                Ok(s) => s.backend == backend && backend.lists(Ok(s.collection)),
                Err(e) => backend.lists(Err(e)),
            },
    {
        match backend.enumerate() {
            Ok(collection) => Ok(Session { backend, collection }),
            Err(e) => Err(e),
        }
    }

    /// The disc type.
    pub fn disc_type(&self) -> (t: DiscType)
        ensures
            t == self.backend.type_of_disc(),
    {
        self.backend.disc_type()
    }

    /// The path that the session was opened from.
    pub fn path(&self) -> (p: &str)
        ensures
            p@ == self.backend.path_of_disc(),
    {
        self.backend.path()
    }

    /// The backend.
    pub fn backend(&self) -> (b: &B)
        ensures
            *b == self.backend,
    {
        &self.backend
    }

    /// The titles, with their current `enabled` flags.
    pub fn collection(&self) -> (c: &TitleCollection)
        ensures
            *c == self.collection,
    {
        &self.collection
    }

    /// Mutable access to the titles.
    pub fn collection_mut(&mut self) -> (c: &mut TitleCollection)
        ensures
            *c == old(self).collection,
            final(self).collection == *final(c),
            final(self).backend == old(self).backend,
    {
        &mut self.collection
    }

    /// Applies a selection to the titles.
    pub fn select(&mut self, selection: &Selection)
        ensures
            final(self).backend == old(self).backend,
            final(self).collection.titles@.len() == old(self).collection.titles@.len(),
            forall|i: int|
                0 <= i < old(self).collection.titles@.len() ==> title_applied(
                    *selection,
                    old(self).collection.titles@[i],
                    #[trigger] final(self).collection.titles@[i],
                ),
    {
        selection.apply(&mut self.collection);
    }
}

} // verus!
