//! A single `Name: Value` header line.
use vstd::prelude::*;
use vstd::string::StringExecFns;

verus! {

/// One header of a request or a response.
#[derive(Debug)]
pub struct HttpHeader {
    pub name: String,
    pub value: String,
}

impl View for HttpHeader {
    type V = (Seq<char>, Seq<char>);

    open spec fn view(&self) -> (Seq<char>, Seq<char>) {
        (self.name@, self.value@)
    }
}

/// The header line `name: value`, without its line ending.
pub open spec fn header_line(h: (Seq<char>, Seq<char>)) -> Seq<char> {
    h.0 + ": "@ + h.1
}

/// The views of a sequence of headers.
pub open spec fn headers_view(hs: Seq<HttpHeader>) -> Seq<(Seq<char>, Seq<char>)> {
    hs.map_values(|h: HttpHeader| h@)
}

impl HttpHeader {
    pub fn new(name: &str, value: &str) -> (r: HttpHeader)
        ensures
            r@ == (name@, value@),
    {
        HttpHeader { name: String::from_str(name), value: String::from_str(value) }
    }

    /// The header as it stands on the wire, without its line ending.
    pub fn output(self) -> (r: String)
        ensures
            r@ == header_line(self@),
    {
        let mut line = self.name;
        line.append(": ");
        line.append(self.value.as_str());
        line
    }
}

} // verus!
