use vstd::prelude::*;

verus! {

/// Settles a value read back from non-volatile storage: a stored value is
/// used as it is; when none was stored, `make` is called once for a fresh
/// value, and the second part of the result says that this value is to be
/// written back under the same key.
pub fn loaded_or_else<T, F: FnOnce() -> T>(stored: Option<T>, make: F) -> (r: (T, bool))
    requires
        stored is None ==> make.requires(()),
    ensures
        stored matches Some(x) ==> r.0 == x && !r.1,
        stored is None ==> make.ensures((), r.0) && r.1,
{
    match stored {
        Some(x) => (x, false),
        None => (make(), true),
    }
}

} // verus!
