//! The values that cross the boundary to the host: owned strings, borrowed
//! views and sequences of them.
use crate::outside::text_of_bytes;
use vstd::prelude::*;
use vstd::slice::slice_to_vec;
use vstd::string::StrSliceExecFns;
use vstd::string::StringSliceAdditionalSpecFns;
use vstd::utf8::{decode_utf8, encode_utf8, valid_utf8};

verus! {

/// An owned string handed across the boundary. Whoever receives it owns its
/// bytes. The bytes are meant to be UTF-8 but need not be: a conversion to
/// text says so.
pub struct SpecString {
    data: Vec<u8>,
}

impl SpecString {
    /// The bytes of the string.
    pub closed spec fn bytes(&self) -> Seq<u8> {
        self.data@
    }

    /// Whether the bytes are text, that is valid UTF-8.
    pub open spec fn is_utf8(&self) -> bool {
        valid_utf8(self.bytes())
    }

    /// The text that the bytes encode, where they are text.
    pub open spec fn text(&self) -> Seq<char> {
        decode_utf8(self.bytes())
    }

    /// Takes over `data` as they are.
    pub fn from_bytes(data: Vec<u8>) -> (r: SpecString)
        ensures
            r.bytes() == data@,
    {
        SpecString { data }
    }

    /// Hands a native string over: the bytes are its UTF-8 encoding.
    pub fn from(s: String) -> (r: SpecString)
        ensures
            r.bytes() == encode_utf8(s@),
            r.is_utf8(),
            r.text() == s@,
    {
        proof {
            vstd::utf8::encode_utf8_valid_utf8(s@);
            vstd::utf8::encode_utf8_decode_utf8(s@);
        }
        SpecString { data: s.as_str().as_bytes_vec() }
    }

    /// The number of bytes.
    pub fn len(&self) -> (n: usize)
        ensures
            n == self.bytes().len(),
    {
        self.data.len()
    }

    /// The bytes, borrowed for as long as the string lives.
    pub fn as_bytes(&self) -> (r: &[u8])
        ensures
            r@ == self.bytes(),
    {
        self.data.as_slice()
    }

    /// The text of the string, borrowed; `None` where the bytes are not
    /// valid UTF-8.
    pub fn as_str(&self) -> (r: Option<&str>)
        ensures
            r is Some == self.is_utf8(),
            r matches Some(s) ==> s@ == self.text(),
    {
        let r = text_of_bytes(self.data.as_slice());
        proof {
            if let Some(s) = r {
                vstd::utf8::encode_utf8_decode_utf8(s@);
            }
        }
        r
    }

    /// The text of the string as an owned native value; `None` where the
    /// bytes are not valid UTF-8.
    pub fn into_string(self) -> (r: Option<String>)
        ensures
            r is Some == self.is_utf8(),
            r matches Some(s) ==> s@ == self.text(),
    {
        match self.as_str() {
            Some(s) => Some(s.to_owned()),
            None => None,
        }
    }
}

/// A borrowed view of bytes that someone else owns, or the null view, which
/// borrows nothing. It is good for as long as its source lives.
#[derive(Clone, Copy)]
pub struct SpecSlice<'a> {
    data: Option<&'a [u8]>,
}

impl<'a> SpecSlice<'a> {
    /// Whether this is the null view.
    pub closed spec fn is_null(&self) -> bool {
        self.data is None
    }

    /// The bytes in view; none for the null view.
    pub closed spec fn bytes(&self) -> Seq<u8> {
        match self.data {
            Some(b) => b@,
            None => Seq::empty(),
        }
    }

    /// The text that the bytes in view encode, where they are text.
    pub open spec fn text(&self) -> Seq<char> {
        decode_utf8(self.bytes())
    }

    /// Whether this is the view that `from` gives of `text`: its bytes are
    /// the UTF-8 encoding of `text`, and it is null where `text` is empty.
    pub open spec fn shows(&self, text: Seq<char>) -> bool {
        &&& self.bytes() == encode_utf8(text)
        &&& self.is_null() == (text.len() == 0)
    }

    /// A view that shows `text` holds valid UTF-8, and its text is `text`.
    pub proof fn lemma_shows(&self, text: Seq<char>)
        requires
            self.shows(text),
        ensures
            valid_utf8(self.bytes()),
            self.text() == text,
    {
        vstd::utf8::encode_utf8_valid_utf8(text);
        vstd::utf8::encode_utf8_decode_utf8(text);
    }

    /// A view of `data`; the null view for `None`.
    pub fn new(data: Option<&'a [u8]>) -> (r: SpecSlice<'a>)
        ensures
            r.is_null() == (data is None),
            data matches Some(b) ==> r.bytes() == b@,
    {
        SpecSlice { data }
    }

    /// A view of the text `s`. An empty text gives the null view: a view
    /// never borrows zero bytes of a text.
    pub fn from(s: &'a str) -> (r: SpecSlice<'a>)
        ensures
            r.shows(s@),
            valid_utf8(r.bytes()),
            r.text() == s@,
    {
        proof {
            vstd::utf8::encode_utf8_valid_utf8(s@);
            vstd::utf8::encode_utf8_decode_utf8(s@);
            if s@.len() == 0 {
                assert(encode_utf8(s@) =~= Seq::<u8>::empty());
            }
        }
        if s.is_empty() {
            SpecSlice { data: None }
        } else {
            SpecSlice { data: Some(s.as_bytes()) }
        }
    }

    /// Whether this is the null view.
    pub fn is_missing(&self) -> (r: bool)
        ensures
            r == self.is_null(),
    {
        self.data.is_none()
    }

    /// The number of bytes in view.
    pub fn len(&self) -> (n: usize)
        ensures
            n == self.bytes().len(),
    {
        match self.data {
            Some(b) => b.len(),
            None => 0,
        }
    }

    /// The bytes in view, for as long as the source lives.
    pub fn as_bytes(&self) -> (r: &'a [u8])
        ensures
            r@ == self.bytes(),
    {
        match self.data {
            Some(b) => b,
            None => &[],
        }
    }

    /// The text in view; `None` where the bytes are not valid UTF-8.
    pub fn as_str(&self) -> (r: Option<&'a str>)
        ensures
            r is Some == valid_utf8(self.bytes()),
            r matches Some(s) ==> s@ == self.text(),
    {
        let r = text_of_bytes(self.as_bytes());
        proof {
            if let Some(s) = r {
                vstd::utf8::encode_utf8_decode_utf8(s@);
            }
        }
        r
    }
}

/// A sequence that the caller owns and releases. Releasing it releases the
/// items themselves and nothing that they borrow.
pub struct CVec<T> {
    items: Vec<T>,
}

impl<T> CVec<T> {
    /// The items, in order.
    pub closed spec fn view(&self) -> Seq<T> {
        self.items@
    }

    /// Takes over the items of `items`.
    pub fn from_vec(items: Vec<T>) -> (r: CVec<T>)
        ensures
            r.view() == items@,
    {
        CVec { items }
    }

    /// The number of items.
    pub fn len(&self) -> (n: usize)
        ensures
            n == self.view().len(),
    {
        self.items.len()
    }

    /// The item at `index`, if there is one.
    pub fn get(&self, index: usize) -> (r: Option<&T>)
        ensures
            r is Some == (index < self.view().len()),
            r matches Some(x) ==> *x == self.view()[index as int],
    {
        if index < self.items.len() {
            Some(&self.items[index])
        } else {
            None
        }
    }

    /// Gives the items back as a native vector.
    pub fn into_vec(self) -> (r: Vec<T>)
        ensures
            r@ == self.view(),
    {
        self.items
    }
}

/// One step of a walk through a parameter list: a pair in view, or the word
/// that the walk is done.
#[derive(Clone, Copy)]
pub struct JSSearchParam<'a> {
    pub name: SpecSlice<'a>,
    pub value: SpecSlice<'a>,
    pub done: bool,
}

} // verus!
