use vstd::prelude::*;

verus! {

/// The application-supplied storage aggregate: one dense column per declared
/// component type, all columns always the same length as the entity id
/// space.
///
/// The world is verified against the contracts below; an implementation
/// meets them whenever it gives every column one default slot per call to
/// `extend` and lets `slots` count those slots, which is exactly what a
/// straightforward struct of parallel `Vec`s does.
pub trait Components: Sized {
    /// How many entity slots every column holds. An implementation returns
    /// the length of one of its columns.
    spec fn slots(&self) -> usize;

    /// An aggregate with empty columns.
    fn new() -> (r: Self)
        ensures
            r.slots() == 0,
    ;

    /// Appends one default-initialized slot to every column.
    fn extend(&mut self)
        ensures
            final(self).slots() == old(self).slots() + 1,
    ;
}

/// The capability a component type grants over an aggregate `T`: its
/// reserved mask bit and access to its storage column.
///
/// The schema must hand every component type a distinct nonzero bit and
/// must never assign bit 0, which the runtime reserves as the alive flag;
/// the world does not police that constraint, and colliding bits silently
/// alias unrelated types, exactly as the mask arithmetic in the contracts
/// describes.
pub trait ComponentAccess<T: Components>: Sized {
    /// The mask bit reserved for this component type; `mask` returns it.
    /// An implementation returns the same constant from both.
    spec fn spec_mask() -> u32;

    /// This type's storage column inside the aggregate; `get_data` returns
    /// it. An implementation returns the same field from both.
    spec fn column(data: &T) -> &Vec<Self>;

    /// The aggregate after overwriting one entry of this type's column and
    /// touching nothing else; `entry_mut` leaves the aggregate in this
    /// state. An implementation assigns the column entry and returns the
    /// aggregate.
    spec fn store_at(data: T, index: usize, value: Self) -> T;

    /// The mask bit, as a runtime value. It must not vary across calls.
    fn mask() -> (m: u32)
        ensures
            m == Self::spec_mask(),
    ;

    /// Read access to the column. The column is as long as the entity id
    /// space, so a valid entity's id always lands in bounds.
    fn get_data(data: &T) -> (v: &Vec<Self>)
        ensures
            v == Self::column(data),
            v@.len() == data.slots(),
    ;

    /// Mutable access to the column. Whatever the caller writes through the
    /// returned vector is what the column then holds; a caller that leaves
    /// the column's length alone also leaves every other column, and so the
    /// slot count, untouched.
    fn get_data_mut(data: &mut T) -> (v: &mut Vec<Self>)
        ensures
            *v == *Self::column(old(data)),
            v@.len() == old(data).slots(),
            Self::column(final(data))@ == final(v)@,
            final(v)@.len() == old(data).slots() ==> final(data).slots() == old(data).slots(),
    ;

    /// Mutable access to one entry of the column. The aggregate it leaves
    /// behind is `store_at` of the old aggregate, the index and whatever
    /// value the caller left in the entry — a function of those three alone
    /// — and an entry left holding the value it already held leaves the
    /// whole aggregate as it was. An implementation returns a reference
    /// into the column's vector.
    fn entry_mut(data: &mut T, index: usize) -> (r: &mut Self)
        requires
            index < old(data).slots(),
        ensures
            Self::column(old(data))@.len() == old(data).slots(),
            *r == Self::column(old(data))@[index as int],
            Self::column(final(data))@ == Self::column(old(data))@.update(
                index as int,
                *final(r),
            ),
            *final(data) == Self::store_at(*old(data), index, *final(r)),
            final(data).slots() == old(data).slots(),
            *final(r) == Self::column(old(data))@[index as int] ==> *final(data) == *old(data),
    ;
}

} // verus!
