//! The decoder: from the raw bytes of one message to a `Message`.
//!
//! The MIME parser reads the bytes into a tree of entities. The decoder
//! takes the headers of the root, unwraps one level of `multipart/`, and
//! turns each part so found into text: the decoded text of a textual part,
//! the base64 text of any other.

use crate::encoding::{
    decoded as bytes_of, encodable, encode, encoded, encoded_len, lemma_decoded_encoded,
};
use crate::error::{parse_failure, Error, ErrorView};
use crate::headers::{
    collect, entries, get, insert, lemma_collect, lemma_every_field_has_an_entry, value_of,
};
use crate::message::{part_views, Message, MessageView, Part, PartView};
use crate::text::{pair_views, starts_with, text_view, Pair};
use mailparse::MailParseError;
use mailparse::ParsedMail;
use vstd::prelude::*;

verus! {

/// `mailparse::ParsedMail`: a message or one of its parts as the parser
/// read it. Nothing of its inside is known here; what it holds is named
/// by `entity`.
#[verifier::external_type_specification]
#[verifier::external_body]
pub struct ExParsedMail<'a>(ParsedMail<'a>);

/// One header field as the parser hands it out: name and value, each
/// absent where the parser could not decode it.
pub struct Field {
    pub key: Option<Seq<char>>,
    pub value: Option<Seq<char>>,
}

/// What the parser holds of a message or of one of its parts.
pub struct Entity {
    /// The header fields in the order in which they stand.
    pub fields: Seq<Field>,
    /// The declared type, without its parameters.
    pub mimetype: Seq<char>,
    /// The body as text, decoded by transfer encoding and character set.
    pub text: Option<Seq<char>>,
    /// The body as bytes, decoded by transfer encoding only.
    pub bytes: Option<Seq<u8>>,
    /// The immediate sub-parts in document order.
    pub parts: Seq<Entity>,
}

/// What a `mailparse::ParsedMail` holds: what its fields `headers`, `ctype`
/// and `subparts` and its methods `get_body` and `get_body_raw` hand out.
pub uninterp spec fn entity(mail: ParsedMail) -> Entity;

/// What `mailparse::parse_mail` makes of raw bytes: the entity it reads, or
/// the description of the error it stops with.
pub uninterp spec fn parsed(raw: Seq<u8>) -> Result<Entity, Seq<char>>;

/// `mailparse::parse_mail`: the message that the bytes hold, or the error
/// that keeps them from being read as headers and body. The same bytes
/// are always read in the same way. The parser calls itself once for each
/// level of nested parts.
#[verifier::external_body]
fn parse_mail<'a>(raw: &'a [u8]) -> (r: Result<ParsedMail<'a>, MailParseError>)
    ensures
        match r {
            Ok(mail) => parsed(raw@) == Ok::<Entity, Seq<char>>(entity(mail)),
            Err(error) => parsed(raw@) == Err::<Entity, Seq<char>>(parse_failure(error)),
        },
{
    mailparse::parse_mail(raw)
}

/// The number of header fields, the length of `ParsedMail::headers`.
#[verifier::external_body]
fn field_count(mail: &ParsedMail) -> (n: usize)
    ensures
        n == entity(*mail).fields.len(),
{
    mail.headers.len()
}

/// `MailHeader::get_key` of the field at `i`: its name.
#[verifier::external_body]
fn field_key(mail: &ParsedMail, i: usize) -> (key: Option<String>)
    requires
        i < entity(*mail).fields.len(),
    ensures
        text_view(key) == entity(*mail).fields[i as int].key,
{
    mail.headers[i].get_key().ok()
}

/// `MailHeader::get_value` of the field at `i`: its value, unfolded and
/// with encoded words decoded.
#[verifier::external_body]
fn field_value(mail: &ParsedMail, i: usize) -> (value: Option<String>)
    requires
        i < entity(*mail).fields.len(),
    ensures
        text_view(value) == entity(*mail).fields[i as int].value,
{
    mail.headers[i].get_value().ok()
}

/// The declared type, the field `mimetype` of `ParsedMail::ctype`.
#[verifier::external_body]
fn mimetype(mail: &ParsedMail) -> (name: String)
    ensures
        name@ == entity(*mail).mimetype,
{
    mail.ctype.mimetype.clone()
}

/// The number of sub-parts, the length of `ParsedMail::subparts`.
#[verifier::external_body]
fn part_count(mail: &ParsedMail) -> (n: usize)
    ensures
        n == entity(*mail).parts.len(),
{
    mail.subparts.len()
}

/// The sub-part at `i` of `ParsedMail::subparts`.
#[verifier::external_body]
fn part_at<'a, 'b>(mail: &'b ParsedMail<'a>, i: usize) -> (part: &'b ParsedMail<'a>)
    requires
        i < entity(*mail).parts.len(),
    ensures
        entity(*part) == entity(*mail).parts[i as int],
{
    &mail.subparts[i]
}

/// `ParsedMail::get_body`: the body with its transfer encoding undone and
/// its character set decoded; absent where either fails.
#[verifier::external_body]
fn body_text(mail: &ParsedMail) -> (text: Option<String>)
    ensures
        text_view(text) == entity(*mail).text,
{
    mail.get_body().ok()
}

/// `ParsedMail::get_body_raw`: the body with its transfer encoding undone;
/// absent where that fails.
#[verifier::external_body]
fn body_bytes(mail: &ParsedMail) -> (bytes: Option<Vec<u8>>)
    ensures
        match bytes {
            Some(b) => entity(*mail).bytes == Some(b@),
            None => entity(*mail).bytes is None,
        },
{
    mail.get_body_raw().ok()
}

/// The text, or the empty text where there is none.
pub open spec fn or_empty(text: Option<Seq<char>>) -> Seq<char> {
    match text {
        Some(s) => s,
        None => Seq::empty(),
    }
}

/// The fields as pairs: an undecoded name or value counts as empty.
pub open spec fn field_pairs(fields: Seq<Field>) -> Seq<Pair> {
    Seq::new(fields.len(), |i: int| (or_empty(fields[i].key), or_empty(fields[i].value)))
}

/// Whether the type names a container of parts.
pub open spec fn is_multipart(mimetype: Seq<char>) -> bool {
    "multipart/"@.is_prefix_of(mimetype)
}

/// Whether the type names text.
pub open spec fn is_text(mimetype: Seq<char>) -> bool {
    "text/"@.is_prefix_of(mimetype)
}

/// Bytes as base64 text; absent where the text would not fit in memory.
pub open spec fn binary_text(bytes: Seq<u8>) -> Option<Seq<char>> {
    if encoded_len(bytes.len()) <= usize::MAX {
        Some(encoded(bytes))
    } else {
        None
    }
}

/// The part that an entity becomes: its own type, and its body as text.
pub open spec fn part_of(e: Entity) -> PartView {
    PartView {
        content_type: e.mimetype,
        body: if is_text(e.mimetype) {
            e.text
        } else {
            match e.bytes {
                Some(bytes) => binary_text(bytes),
                None => None,
            }
        },
    }
}

/// The entities that become parts: the immediate sub-parts of a multipart
/// message, the message itself otherwise.
pub open spec fn leaves(e: Entity) -> Seq<Entity> {
    if is_multipart(e.mimetype) {
        e.parts
    } else {
        seq![e]
    }
}

/// The message that an entity becomes.
pub open spec fn message_of(e: Entity) -> MessageView {
    let headers = collect(field_pairs(e.fields));
    MessageView {
        headers,
        subject: value_of(headers, "Subject"@),
        date: value_of(headers, "Date"@),
        to: value_of(headers, "To"@),
        from: value_of(headers, "From"@),
        body: Seq::new(leaves(e).len(), |i: int| part_of(leaves(e)[i])),
    }
}

/// The result of decoding, from what the parser made of the bytes.
pub open spec fn decoded(outcome: Result<Entity, Seq<char>>) -> Result<MessageView, ErrorView> {
    match outcome {
        Ok(e) => Ok(message_of(e)),
        Err(text) => Err(ErrorView::Parse(text)),
    }
}

/// A result of decoding as character sequences.
pub open spec fn result_view(r: Result<Message, Error>) -> Result<MessageView, ErrorView> {
    match r {
        Ok(message) => Ok(message@),
        Err(error) => Err(error@),
    }
}

/// The base64 text of `bytes`, from which the bytes can be had again;
/// `None` where it would not fit in memory.
pub fn binary_body(bytes: &[u8]) -> (text: Option<String>)
    ensures
        text_view(text) == binary_text(bytes@),
        text matches Some(t) ==> bytes_of(t@) == Some(bytes@),
        bytes@.len() <= isize::MAX ==> text is Some,
{
    proof {
        lemma_decoded_encoded(bytes@);
    }
    if encodable(bytes.len()) {
        Some(encode(bytes))
    } else {
        None
    }
}

impl Part {
    /// The part that a parsed entity becomes: textual content as decoded
    /// text, any other content as base64 text.
    pub fn decode(mail: &ParsedMail) -> (part: Part)
        ensures
            part@ == part_of(entity(*mail)),
    {
        let content_type = mimetype(mail);
        let body = if starts_with(content_type.as_str(), "text/") {
            body_text(mail)
        } else {
            match body_bytes(mail) {
                Some(bytes) => binary_body(bytes.as_slice()),
                None => None,
            }
        };
        Part { content_type, body }
    }
}

impl<'a> From<ParsedMail<'a>> for Message {
    /// The message that a parsed entity becomes: its header fields as a
    /// header list, the envelope fields looked up there, and its parts
    /// after one level of `multipart/` is unwrapped.
    fn from(parsed: ParsedMail<'a>) -> (message: Message)
        ensures
            message@ == message_of(entity(parsed)),
            message@.wf(),
    {
        let ghost fields = field_pairs(entity(parsed).fields);
        let mut headers: Vec<(String, String)> = Vec::new();
        let count = field_count(&parsed);
        let mut i: usize = 0;
        assert(fields.take(0) =~= Seq::<Pair>::empty());
        while i < count
            invariant
                i <= count,
                count == entity(parsed).fields.len(),
                fields == field_pairs(entity(parsed).fields),
                pair_views(headers@) == collect(fields.take(i as int)),
            decreases count - i,
        {
            let key = match field_key(&parsed, i) {
                Some(key) => key,
                None => String::new(),
            };
            let value = match field_value(&parsed, i) {
                Some(value) => value,
                None => String::new(),
            };
            assert(fields.take(i + 1).drop_last() =~= fields.take(i as int));
            assert(fields.take(i + 1).last() == (key@, value@));
            insert(&mut headers, key, value);
            i += 1;
        }
        assert(fields.take(count as int) =~= fields);

        let ghost parts = leaves(entity(parsed));
        let mut body: Vec<Part> = Vec::new();
        if starts_with(mimetype(&parsed).as_str(), "multipart/") {
            let count = part_count(&parsed);
            let mut j: usize = 0;
            while j < count
                invariant
                    j <= count,
                    count == entity(parsed).parts.len(),
                    parts == entity(parsed).parts,
                    body@.len() == j,
                    forall|k: int| 0 <= k < j ==> body@[k]@ == part_of(parts[k]),
                decreases count - j,
            {
                let part = Part::decode(part_at(&parsed, j));
                body.push(part);
                j += 1;
            }
        } else {
            let part = Part::decode(&parsed);
            body.push(part);
        }
        assert(part_views(body@) =~= Seq::new(parts.len(), |i: int| part_of(parts[i])));

        let subject = get(&headers, "Subject");
        let date = get(&headers, "Date");
        let to = get(&headers, "To");
        let from = get(&headers, "From");
        proof {
            lemma_collect(fields);
        }
        Message { headers, subject, date, to, from, body }
    }
}

/// `from` states what it returns by the view of the message; of two
/// messages of one view neither is said to be the other.
impl<'a> vstd::std_specs::convert::FromSpecImpl<ParsedMail<'a>> for Message {
    open spec fn obeys_from_spec() -> bool {
        false
    }

    open spec fn from_spec(parsed: ParsedMail<'a>) -> Message {
        choose|message: Message| message@ == message_of(entity(parsed))
    }
}

/// Decodes the raw bytes of one message. It fails where the bytes cannot be
/// read as headers and body, and there only: a field or a part that cannot
/// be decoded is left empty or absent.
pub fn decode(raw: &[u8]) -> (r: Result<Message, Error>)
    ensures
        result_view(r) == decoded(parsed(raw@)),
        r matches Ok(message) ==> message@.wf(),
{
    match parse_mail(raw) {
        Ok(mail) => Ok(Message::from(mail)),
        Err(error) => Err(Error::from(error)),
    }
}

/// Decoding is a function of the bytes: two results of decoding the same
/// bytes are equal.
pub proof fn lemma_decoding_is_repeatable(
    raw: Seq<u8>,
    first: Result<MessageView, ErrorView>,
    second: Result<MessageView, ErrorView>,
)
    requires
        first == decoded(parsed(raw)),
        second == decoded(parsed(raw)),
    ensures
        first == second,
{
}

/// A decoded message is well formed: no header name twice, the envelope
/// fields as the headers have them, one part for each leaf entity and of
/// its type.
pub proof fn lemma_message_is_well_formed(e: Entity)
    ensures
        message_of(e).wf(),
        message_of(e).header_map() == entries(field_pairs(e.fields)),
        message_of(e).body.len() == leaves(e).len(),
        !is_multipart(e.mimetype) ==> message_of(e).body.len() == 1,
        forall|i: int|
            0 <= i < leaves(e).len() ==> (#[trigger] message_of(e).body[i]).content_type
                == leaves(e)[i].mimetype,
{
    lemma_collect(field_pairs(e.fields));
}

/// Every header field leaves an entry in the headers, under its name or,
/// where the name could not be decoded, under the empty name.
pub proof fn lemma_every_field_is_kept(e: Entity, i: int)
    requires
        0 <= i < e.fields.len(),
    ensures
        message_of(e).header_map().contains_key(or_empty(e.fields[i].key)),
        value_of(message_of(e).headers, or_empty(e.fields[i].key)) is Some,
{
    lemma_message_is_well_formed(e);
    lemma_every_field_has_an_entry(field_pairs(e.fields), i);
}

/// The body of a part that is not text is valid base64, and the bytes it
/// stands for are the bytes of the part. The part has a body unless its
/// base64 text would be longer than memory is, and so it has one for all
/// bytes that one allocation can hold.
pub proof fn lemma_binary_part_holds_its_bytes(e: Entity, bytes: Seq<u8>)
    requires
        !is_text(e.mimetype),
        e.bytes == Some(bytes),
    ensures
        part_of(e).body is Some <==> encoded_len(bytes.len()) <= usize::MAX,
        bytes.len() <= isize::MAX ==> part_of(e).body is Some,
        part_of(e).body is Some ==> bytes_of(part_of(e).body.unwrap()) == Some(bytes),
{
    lemma_decoded_encoded(bytes);
}

} // verus!
