//! A custom option type and its combinators.

use vstd::prelude::*;

verus! {

/// Custom option type.
#[derive(Debug, Clone, Copy, PartialEq, Eq)]
pub enum MyOption<T> {
    /// Some value of type `T`.
    MySome(T),
    /// No value.
    MyNone,
}

/// Maps a `MyOption<T>` to a `MyOption<U>` by applying a function to a
/// contained value: the function's postcondition holds of the result, and
/// `MyNone` stays `MyNone`.
pub fn my_map<T, U, F: FnOnce(T) -> U>(v: MyOption<T>, f: F) -> (r: MyOption<U>)
    requires
        forall|t: T| v == MyOption::MySome(t) ==> call_requires(f, (t,)),
    ensures
        match v {
            MyOption::MySome(t) => r matches MyOption::MySome(u) && call_ensures(f, (t,), u),
            MyOption::MyNone => r is MyNone,
        },
{
    match v {
        MyOption::MySome(value) => MyOption::MySome(f(value)),
        MyOption::MyNone => MyOption::MyNone,
    }
}

/// Returns `MyNone` if the option is `MyNone`, otherwise calls `f` with the
/// wrapped value and returns the result. Some languages call this flatmap.
pub fn my_and_then<T, U, F: FnOnce(T) -> MyOption<U>>(v: MyOption<T>, f: F) -> (r: MyOption<U>)
    requires
        forall|t: T| v == MyOption::MySome(t) ==> call_requires(f, (t,)),
    ensures
        match v {
            MyOption::MySome(t) => call_ensures(f, (t,), r),
            MyOption::MyNone => r is MyNone,
        },
{
    match v {
        MyOption::MySome(value) => f(value),
        MyOption::MyNone => MyOption::MyNone,
    }
}

} // verus!
