//! Decoded messages: headers, the envelope fields and a flat list of parts.

use crate::headers::{distinct_keys, entries, value_of};
use crate::text::{pair_views, text_view, Pair};
use vstd::prelude::*;

verus! {

/// One content unit of a message.
#[derive(Debug, PartialEq)]
pub struct Part {
    /// The MIME type of the part.
    pub content_type: String,
    /// The decoded text of a textual part, the base64 text of any other;
    /// absent where the content could not be decoded.
    pub body: Option<String>,
}

/// A part as character sequences.
pub struct PartView {
    pub content_type: Seq<char>,
    pub body: Option<Seq<char>>,
}

impl View for Part {
    type V = PartView;

    open spec fn view(&self) -> PartView {
        PartView { content_type: self.content_type@, body: text_view(self.body) }
    }
}

/// One decoded message.
#[derive(Debug, PartialEq)]
pub struct Message {
    /// Each header name once, with its value.
    pub headers: Vec<(String, String)>,
    pub subject: Option<String>,
    pub date: Option<String>,
    pub to: Option<String>,
    pub from: Option<String>,
    /// The parts in document order.
    pub body: Vec<Part>,
}

/// A message as character sequences.
pub struct MessageView {
    pub headers: Seq<Pair>,
    pub subject: Option<Seq<char>>,
    pub date: Option<Seq<char>>,
    pub to: Option<Seq<char>>,
    pub from: Option<Seq<char>>,
    pub body: Seq<PartView>,
}

/// The parts as character sequences.
pub open spec fn part_views(parts: Seq<Part>) -> Seq<PartView> {
    Seq::new(parts.len(), |i: int| parts[i]@)
}

impl View for Message {
    type V = MessageView;

    open spec fn view(&self) -> MessageView {
        MessageView {
            headers: pair_views(self.headers@),
            subject: text_view(self.subject),
            date: text_view(self.date),
            to: text_view(self.to),
            from: text_view(self.from),
            body: part_views(self.body@),
        }
    }
}

impl MessageView {
    /// The headers as a mapping from name to value.
    pub open spec fn header_map(self) -> Map<Seq<char>, Seq<char>> {
        entries(self.headers)
    }

    /// No header name occurs twice, and each envelope field is the value of
    /// the header of its name.
    pub open spec fn wf(self) -> bool {
        &&& distinct_keys(self.headers)
        &&& self.subject == value_of(self.headers, "Subject"@)
        &&& self.date == value_of(self.headers, "Date"@)
        &&& self.to == value_of(self.headers, "To"@)
        &&& self.from == value_of(self.headers, "From"@)
    }
}

impl Message {
    /// The value of the header named `name`.
    pub fn header(&self, name: &str) -> (value: Option<String>)
        ensures
            text_view(value) == value_of(self@.headers, name@),
    {
        crate::headers::get(&self.headers, name)
    }
}

} // verus!
