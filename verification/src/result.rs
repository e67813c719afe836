use vstd::prelude::*;

verus! {

/// Extra methods for the fallible-result container.
///
/// The two spec functions give the abstract reading of the container that
/// the method contracts are stated over: whether it is a success, and
/// which value a success holds.
pub trait ResultExt<T, E>: Sized {
    /// True when the container is the success variant.
    spec fn is_success(&self) -> bool;

    /// The held success value, meaningful only for a success.
    spec fn success_value(&self) -> T;

    /// True exactly when the container is a success and `predicate`
    /// accepts the held value. On a failure the answer is `false` and the
    /// predicate is left untouched.
    fn satisfies<P: FnOnce(&T) -> bool>(&self, predicate: P) -> (r: bool)
        requires
            self.is_success() ==> call_requires(predicate, (&self.success_value(),)),
        ensures
            !self.is_success() ==> r == false,
            self.is_success() ==> call_ensures(predicate, (&self.success_value(),), r),
    ;

    /// Applies `f` to the held success value in place and returns the
    /// possibly mutated value, still wrapped as a success. A failure
    /// comes back unchanged, with `f` left untouched.
    fn update<F: FnOnce(&mut T)>(self, f: F) -> (r: Self)
        requires
            self.is_success() ==> forall|m: &mut T| *m == self.success_value() ==> call_requires(f, (m,)),
        ensures
            !self.is_success() ==> r == self,
            self.is_success() ==> r.is_success() && exists|m: &mut T|
                *m == self.success_value() && call_ensures(f, (m,), ()) && r.success_value() == *final(m),
    ;
}

impl<T, E> ResultExt<T, E> for Result<T, E> {
    open spec fn is_success(&self) -> bool {
        (*self) is Ok
    }

    open spec fn success_value(&self) -> T {
        (*self)->Ok_0
    }

    fn satisfies<P: FnOnce(&T) -> bool>(&self, predicate: P) -> (r: bool) {
        match self {
            Result::Ok(x) => predicate(x),
            Result::Err(_) => false,
        }
    }

    fn update<F: FnOnce(&mut T)>(self, f: F) -> (r: Self) {
        match self {
            Result::Ok(mut x) => {
                f(&mut x);
                Result::Ok(x)
            }
            Result::Err(e) => Result::Err(e),
        }
    }
}

} // verus!
