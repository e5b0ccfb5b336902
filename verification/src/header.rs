//! One header of a request or response.

use vstd::prelude::*;
use vstd::string::*;

verus! {

/// A header as it travels: a name and the bytes of its value.
///
/// Any text and any bytes can stand here. Whether they can be sent is asked
/// when a header is copied into an outgoing message.
#[derive(Debug, PartialEq, Eq)]
pub struct Header {
    pub name: String,
    pub value: Vec<u8>,
}

/// The mathematical content of a [`Header`].
pub struct HeaderView {
    pub name: Seq<char>,
    pub value: Seq<u8>,
}

impl DeepView for Header {
    type V = HeaderView;

    open spec fn deep_view(&self) -> HeaderView {
        HeaderView { name: self.name@, value: self.value@ }
    }
}

impl Header {
    /// A header with a copy of the given name and value.
    pub fn new(name: &str, value: &[u8]) -> (header: Header)
        ensures
            header.deep_view() == (HeaderView { name: name@, value: value@ }),
    {
        Header { name: name.to_owned(), value: vstd::slice::slice_to_vec(value) }
    }
}

impl Clone for Header {
    fn clone(&self) -> (copy: Header)
        ensures
            copy.deep_view() == self.deep_view(),
    {
        Header { name: self.name.clone(), value: self.value.clone() }
    }
}

} // verus!
