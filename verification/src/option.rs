use vstd::prelude::*;

verus! {

/// Extra methods for the optional-value container.
///
/// The two spec functions give the abstract reading of the container that
/// the method contracts are stated over: whether a value is present, and
/// which value that is.
pub trait OptionExt<T>: Sized {
    /// True when the container holds a value.
    spec fn is_present(&self) -> bool;

    /// The held value, meaningful only when one is present.
    spec fn inner(&self) -> T;

    /// Like a zip of two optional values, except that the second one is
    /// obtained from the producer `f`, which is consulted only when `self`
    /// already holds a value. If `self` is empty, or `f` yields nothing,
    /// the result is empty; otherwise it holds the pair of both values.
    fn zip_lazy<U, F: FnOnce() -> Option<U>>(self, f: F) -> (r: Option<(T, U)>)
        requires
            self.is_present() ==> call_requires(f, ()),
        ensures
            !self.is_present() ==> r is None,
            self.is_present() ==> match r {
                Option::Some(p) => p.0 == self.inner() && call_ensures(f, (), Option::Some(p.1)),
                Option::None => call_ensures(f, (), Option::None::<U>),
            },
    ;

    /// True exactly when a value is present and `predicate` accepts it.
    /// On an empty container the answer is `false` and the predicate is
    /// left untouched.
    fn satisfies<P: FnOnce(&T) -> bool>(&self, predicate: P) -> (r: bool)
        requires
            self.is_present() ==> call_requires(predicate, (&self.inner(),)),
        ensures
            !self.is_present() ==> r == false,
            self.is_present() ==> call_ensures(predicate, (&self.inner(),), r),
    ;

    /// Ensure that no value is present. A present value is a programmer
    /// error and aborts the process, so callers must pass an empty
    /// container.
    fn unwrap_none(self)
        requires
            !self.is_present(),
    ;

    /// Ensure that no value is present, aborting with the caller's own
    /// message when one is. Callers must pass an empty container.
    fn expect_none(self, msg: &str)
        requires
            !self.is_present(),
    ;
}

impl<T> OptionExt<T> for Option<T> {
    open spec fn is_present(&self) -> bool {
        *self is Some
    }

    open spec fn inner(&self) -> T {
        (*self)->0
    }

    fn zip_lazy<U, F: FnOnce() -> Option<U>>(self, f: F) -> (r: Option<(T, U)>) {
        match self {
            Option::Some(a) => match f() {
                Option::Some(b) => Option::Some((a, b)),
                Option::None => Option::None,
            },
            Option::None => Option::None,
        }
    }

    fn satisfies<P: FnOnce(&T) -> bool>(&self, predicate: P) -> (r: bool) {
        match self {
            Option::Some(x) => predicate(x),
            Option::None => false,
        }
    }

    fn unwrap_none(self) {
        if self.is_some() {
            // Unreachable under the contract; an unverified caller that
            // passes a present value still gets the promised abort, with
            // this message as the failure text.
            let nothing: Option<()> = Option::None;
            nothing.expect("called `OptionExt::unwrap_none` on a `Some` value");
        }
    }

    fn expect_none(self, msg: &str) {
        if self.is_some() {
            // Unreachable under the contract; an unverified caller that
            // passes a present value still gets the promised abort, with
            // exactly `msg` as the failure text.
            let nothing: Option<()> = Option::None;
            nothing.expect(msg);
        }
    }
}

} // verus!
