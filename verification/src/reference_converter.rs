//! Changing the string type a value is built from: by taking ownership of
//! converted strings, or by borrowing them.

use vstd::prelude::*;

verus! {

/// Turns owned strings of one type into another.
pub trait Converter<S> {
    type Output;

    /// Whether `output` is what this converter makes of `input`.
    spec fn converts(&self, input: S, output: Self::Output) -> bool;

    fn convert(&self, input: S) -> (r: Self::Output)
        ensures
            self.converts(input, r),
    ;
}

/// Makes borrowed strings from strings of one type.
pub trait Referencer<S> {
    type Output<'a> where S: 'a;

    /// Whether `output` is what this referencer makes of `input`.
    spec fn refers(&self, input: S, output: Self::Output<'_>) -> bool;

    fn convert<'a>(&self, input: &'a S) -> (r: Self::Output<'a>)
        ensures
            self.refers(*input, r),
    ;
}

/// Borrows a `String` as a string slice, and a byte vector as a slice.
#[derive(Copy, Clone, Debug, Default)]
pub struct AsReference;

impl Referencer<String> for AsReference {
    type Output<'a> = &'a str;

    open spec fn refers(&self, input: String, output: &str) -> bool {
        output@ == input@
    }

    fn convert<'a>(&self, input: &'a String) -> (r: &'a str) {
        input.as_str()
    }
}

impl Referencer<Vec<u8>> for AsReference {
    type Output<'a> = &'a [u8];

    open spec fn refers(&self, input: Vec<u8>, output: &[u8]) -> bool {
        output@ == input@
    }

    fn convert<'a>(&self, input: &'a Vec<u8>) -> (r: &'a [u8]) {
        input.as_slice()
    }
}

/// Copies borrowed strings and byte slices into owned ones.
#[derive(Copy, Clone, Debug, Default)]
pub struct IntoOwned;

impl<'b> Converter<&'b str> for IntoOwned {
    type Output = String;

    open spec fn converts(&self, input: &'b str, output: String) -> bool {
        output@ == input@
    }

    fn convert(&self, input: &'b str) -> (r: String) {
        input.to_owned()
    }
}

impl<'b> Converter<&'b [u8]> for IntoOwned {
    type Output = Vec<u8>;

    open spec fn converts(&self, input: &'b [u8], output: Vec<u8>) -> bool {
        output@ == input@
    }

    fn convert(&self, input: &'b [u8]) -> (r: Vec<u8>) {
        vstd::slice::slice_to_vec(input)
    }
}

} // verus!
