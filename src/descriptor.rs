use vstd::prelude::*;
use crate::status::OsError;

verus! {

/// A descriptor number of the process's descriptor table.
pub type Descriptor = i32;

/// A native handle value, as the Windows handle table hands it out.
pub type Handle = isize;

/// The descriptor number of standard output.
pub const STDOUT_DESCRIPTOR: Descriptor = 1;

/// The descriptor number of standard error.
pub const STDERR_DESCRIPTOR: Descriptor = 2;

/// A stream-like entity that exposes the raw descriptor it currently writes through.
pub trait Descriptable {
    /// The descriptor this entity writes through.
    spec fn descriptor(&self) -> Descriptor;

    fn raw_descriptor(&self) -> (d: Descriptor)
        ensures
            d == self.descriptor(),
    ;
}

/// A descriptor number is its own descriptor.
impl Descriptable for Descriptor {
    open spec fn descriptor(&self) -> Descriptor {
        *self
    }

    fn raw_descriptor(&self) -> (d: Descriptor) {
        *self
    }
}

/// An entity whose I/O can be redirected to a destination of type `T`: after a
/// successful call, everything written through the entity lands in the destination.
pub trait Redirectable<T: ?Sized> {
    /// Redirects this entity to `destination`, or returns the error that the operating
    /// system reported, unchanged.
    fn redirect(&mut self, destination: &T) -> Result<(), OsError>;
}

} // verus!
