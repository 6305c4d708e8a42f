use std::cell::UnsafeCell;
use std::sync::atomic::{AtomicBool, Ordering};
use std::sync::Arc;
use vstd::prelude::*;

verus! {

#[verifier::external_type_specification]
#[verifier::external_body]
#[verifier::reject_recursive_types(T)]
pub struct ExUnsafeCell<T: ?Sized>(UnsafeCell<T>);

/// Relies on `UnsafeCell::new`: a cell holding the value.
pub assume_specification<T>[ UnsafeCell::<T>::new ](value: T) -> UnsafeCell<T>;

/// A value shared by an owner and a borrower, with a flag that says which
/// side holds it.
#[verifier::reject_recursive_types(T)]
pub struct Package<T> {
    is_owner: AtomicBool,
    data: UnsafeCell<T>,
    content: Ghost<T>,
    owned: Ghost<bool>,
}

impl<T> Package<T> {
    /// The value in the package.
    pub closed spec fn content(&self) -> T {
        self.content@
    }

    /// What the ownership flag holds: the value it was created with, as
    /// nothing in this library stores to it afterwards.
    pub closed spec fn owned(&self) -> bool {
        self.owned@
    }
}

/// Relies on std's `AtomicBool::load`: the flag's value, which only
/// `package` ever sets.
#[verifier::external_body]
fn load_owner_flag<T>(p: &Package<T>) -> (r: bool)
    ensures
        r == p.owned(),
{
    p.is_owner.load(Ordering::Acquire)
}

/// The owning side of a package.
#[verifier::reject_recursive_types(T)]
pub struct PackageOwner<T> {
    package: Arc<Package<T>>,
}

/// The borrowing side of a package.
#[verifier::reject_recursive_types(T)]
pub struct PackageBorrower<T> {
    package: Arc<Package<T>>,
}

impl<T> PackageOwner<T> {
    /// The package this side holds.
    pub closed spec fn shared(&self) -> Package<T> {
        *self.package
    }
}

impl<T> PackageBorrower<T> {
    /// The package this side holds.
    pub closed spec fn shared(&self) -> Package<T> {
        *self.package
    }
}

/// Wraps `initial` in a package held by its owner, and hands out both sides,
/// which hold the same package.
pub fn package<T>(initial: T) -> (r: (PackageOwner<T>, PackageBorrower<T>))
    ensures
        r.0.shared() == r.1.shared(),
        r.0.shared().content() == initial,
        r.0.shared().owned(),
{
    let ghost content = initial;
    let package = Arc::new(
        Package {
            is_owner: AtomicBool::new(true),
            data: UnsafeCell::new(initial),
            content: Ghost(content),
            owned: Ghost(true),
        },
    );
    (PackageOwner { package: package.clone() }, PackageBorrower { package })
}

impl<T> PackageOwner<T> {
    /// Whether the owner holds the package at the moment of the call.
    pub fn is_owned(&self) -> (r: bool)
        ensures
            r == self.shared().owned(),
    {
        load_owner_flag(&*self.package)
    }

    /// Hands the package over; the hand-over protocol is not defined yet,
    /// so nothing changes.
    pub fn turnover(&self) {
    }
}

impl<T> PackageBorrower<T> {
    /// Whether the owner holds the package at the moment of the call.
    pub fn is_owned(&self) -> (r: bool)
        ensures
            r == self.shared().owned(),
    {
        load_owner_flag(&*self.package)
    }
}

} // verus!
