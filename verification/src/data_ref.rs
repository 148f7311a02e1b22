use vstd::prelude::*;

verus! {

/// A capability for reaching the underlying raw byte storage of a data
/// container, so that a buffer can be handed off or refilled without a copy.
///
/// An equal container can be rebuilt from these bytes together with the
/// container's remaining metadata (its dimensions or bit length).
pub trait DataRef {
    /// The raw bytes the container currently stores.
    spec fn data_spec(&self) -> Seq<u8>;

    /// The two containers agree on everything but the stored bytes.
    spec fn shape_eq(&self, other: &Self) -> bool;

    /// The container's internal invariant.
    spec fn data_wf(&self) -> bool;

    /// Get the underlying bytes read-only.
    fn data_ref(&self) -> (r: &[u8])
        ensures
            r@ == self.data_spec(),
    ;

    /// Get the underlying bytes writable. Writing through the returned slice
    /// replaces the container's stored bytes; a slice cannot change length,
    /// so the container's invariant survives any such write.
    fn data_ref_mut(&mut self) -> (r: &mut [u8])
        requires
            old(self).data_wf(),
        ensures
            r@ == old(self).data_spec(),
            final(self).data_spec() == final(r)@,
            final(self).shape_eq(old(self)),
            final(r)@.len() == old(self).data_spec().len() ==> final(self).data_wf(),
    ;
}

} // verus!
