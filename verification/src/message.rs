//! The message model: a header mapping plus an optional body, exactly what
//! one decoded frame of the wire format carries.

use vstd::prelude::*;

verus! {

/// The mathematical value of a [`Message`]: headers as a sequence of
/// key/value character sequences (earlier entries shadow later ones on
/// lookup), and the optional body.
pub struct MessageView {
    pub headers: Seq<(Seq<char>, Seq<char>)>,
    pub body: Option<Seq<char>>,
}

/// One decoded protocol message: a block of `Key: Value` headers and, where
/// a `Content-Length` header announced one, a body of exactly that many
/// bytes, held here as text.
pub struct Message {
    pub headers: Vec<(String, String)>,
    pub body: Option<String>,
}

/// The value of the first header named `key`, or `None` where no header
/// carries that name.
pub open spec fn header_lookup(headers: Seq<(Seq<char>, Seq<char>)>, key: Seq<char>) -> Option<
    Seq<char>,
>
    decreases headers.len(),
{
    if headers.len() == 0 {
        None
    } else if headers[0].0 == key {
        Some(headers[0].1)
    } else {
        header_lookup(headers.drop_first(), key)
    }
}

/// The view of a header vector: each pair taken to its character sequences.
pub open spec fn headers_view(headers: Seq<(String, String)>) -> Seq<(Seq<char>, Seq<char>)> {
    headers.map(|i: int, p: (String, String)| (p.0@, p.1@))
}

impl View for Message {
    type V = MessageView;

    open spec fn view(&self) -> MessageView {
        MessageView { headers: headers_view(self.headers@), body: match self.body {
            Some(ref b) => Some(b@),
            None => None,
        } }
    }
}

/// Character-for-character equality of two string slices.
pub fn str_eq(a: &str, b: &str) -> (r: bool)
    ensures
        r == (a@ == b@),
{
    let alen = a.unicode_len();
    let blen = b.unicode_len();
    if alen != blen {
        assert(a@ != b@) by {
            assert(a@.len() != b@.len());
        }
        return false;
    }
    let mut i: usize = 0;
    while i < alen
        invariant
            alen == a@.len(),
            alen == b@.len(),
            i <= alen,
            forall|j: int| 0 <= j < i ==> a@[j] == b@[j],
        decreases alen - i,
    {
        if a.get_char(i) != b.get_char(i) {
            return false;
        }
        i += 1;
    }
    assert(a@ =~= b@);
    true
}

impl Message {
    /// The value of the first header named `key`, if any.
    pub fn get_header(&self, key: &str) -> (r: Option<&String>)
        ensures
            match r {
                Some(v) => header_lookup(self@.headers, key@) == Some(v@),
                None => header_lookup(self@.headers, key@) is None,
            },
    {
        let n = self.headers.len();
        assert(self@.headers.skip(0) =~= self@.headers);
        let mut i: usize = 0;
        while i < n
            invariant
                n == self.headers.len(),
                i <= n,
                header_lookup(self@.headers, key@) == header_lookup(
                    self@.headers.skip(i as int),
                    key@,
                ),
            decreases n - i,
        {
            assert(self@.headers.skip(i as int).drop_first() =~= self@.headers.skip(i + 1));
            assert(self@.headers.skip(i as int)[0] == self@.headers[i as int]);
            if str_eq(self.headers[i].0.as_str(), key) {
                return Some(&self.headers[i].1);
            }
            i += 1;
        }
        assert(self@.headers.skip(n as int) =~= Seq::<(Seq<char>, Seq<char>)>::empty());
        None
    }

    /// The value of the `Content-Type` header, if any.
    pub fn content_type(&self) -> (r: Option<&String>)
        ensures
            match r {
                Some(v) => header_lookup(self@.headers, "Content-Type"@) == Some(v@),
                None => header_lookup(self@.headers, "Content-Type"@) is None,
            },
    {
        self.get_header("Content-Type")
    }

    /// The body, if the frame carried one.
    pub fn body(&self) -> (r: &Option<String>)
        ensures
            match r {
                Some(b) => self@.body == Some(b@),
                None => self@.body is None,
            },
    {
        &self.body
    }
}

} // verus!
