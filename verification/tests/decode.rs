use mailbox::encoding::encodable;
use mailbox::mime::{binary_body, decode};
use mailbox::{Error, Message, Part};

const SAMPLE: &[u8] = b"Subject: This is a test email\n\
Content-Type: multipart/alternative; boundary=foobar\n\
Date: Sun, 02 Oct 2016 07:06:22 -0700 (PDT)\n\
\n\
--foobar\n\
Content-Type: text/plain\n\
Content-Transfer-Encoding: base64\n\
\n\
VGhpcyBpcyB0aGUgcGxhaW50ZXh0IHZlcnNpb24sIGluIHV0Zi04LiBQcm9vZiBi \n\
eSBFdXJvOiDigqw= \n\
--foobar\n\
Content-Type: text/html\n\
Content-Transfer-Encoding: base64\n\
\n\
PGh0bWw+PGJvZHk+VGhpcyBpcyB0aGUgPGI+SFRNTDwvYj4gdmVyc2lvbiwgaW4g \n\
dXMtYXNjaWkuIFByb29mIGJ5IEV1cm86ICZldXJvOzwvYm9keT48L2h0bWw+Cg== \n\
--foobar--\n\
After the final boundary stuff gets ignored.\n";

fn pair(key: &str, value: &str) -> (String, String) {
    (key.to_string(), value.to_string())
}

fn text_part(content_type: &str, body: &str) -> Part {
    Part { content_type: content_type.to_string(), body: Some(body.to_string()) }
}

#[test]
fn converts_messages() {
    let message = Message::from(
        mailparse::parse_mail(SAMPLE).expect("failed to parse mail message"),
    );

    assert_eq!(
        message,
        Message {
            headers: vec![
                pair("Subject", "This is a test email"),
                pair("Content-Type", "multipart/alternative; boundary=foobar"),
                pair("Date", "Sun, 02 Oct 2016 07:06:22 -0700 (PDT)"),
            ],
            subject: Some("This is a test email".into()),
            to: None,
            from: None,
            date: Some("Sun, 02 Oct 2016 07:06:22 -0700 (PDT)".into()),
            body: vec![
                Part {
                    content_type: "text/plain".into(),
                    body: Some(
                        "This is the plaintext version, in utf-8. Proof by Euro: \u{e2}\u{201a}\u{ac}".into()
                    )
                },
                Part {
                    content_type: "text/html".into(),
                    body: Some(
                        "<html><body>This is the <b>HTML</b> version, in us-ascii. Proof by Euro: &euro;</body></html>\n".into()
                    )
                }
            ]
        }
    )
}

#[test]
fn decodes_a_message_of_one_part() {
    let message = decode(b"Subject: Hi\nFrom: a@b.com\n\nHello").unwrap();
    assert_eq!(
        message,
        Message {
            headers: vec![pair("Subject", "Hi"), pair("From", "a@b.com")],
            subject: Some("Hi".to_string()),
            date: None,
            to: None,
            from: Some("a@b.com".to_string()),
            body: vec![text_part("text/plain", "Hello")],
        }
    );
}

#[test]
fn decodes_the_same_bytes_to_the_same_message() {
    assert_eq!(decode(SAMPLE), decode(SAMPLE));
    assert_eq!(decode(b" no header"), decode(b" no header"));
}

#[test]
fn flattens_the_parts_of_a_multipart_message() {
    let message = decode(
        b"Content-Type: multipart/alternative; boundary=xx\n\
\n\
--xx\n\
Content-Type: text/plain\n\
\n\
plain\n\
--xx\n\
Content-Type: text/html\n\
\n\
<p>html</p>\n\
--xx--\n",
    )
    .unwrap();
    assert_eq!(
        message.body,
        vec![text_part("text/plain", "plain\n"), text_part("text/html", "<p>html</p>\n")]
    );
}

#[test]
fn decodes_text_by_its_character_set() {
    let message = decode(
        b"Content-Type: text/plain; charset=utf-8\n\
Content-Transfer-Encoding: quoted-printable\n\
\n\
Euro: =E2=82=AC",
    )
    .unwrap();
    assert_eq!(message.body, vec![text_part("text/plain", "Euro: \u{20ac}")]);
}

#[test]
fn encodes_a_binary_part_as_base64() {
    let message = decode(
        b"Content-Type: multipart/mixed; boundary=xx\n\
\n\
--xx\n\
Content-Type: application/octet-stream\n\
Content-Transfer-Encoding: base64\n\
\n\
AAEC/f7/\n\
--xx--\n",
    )
    .unwrap();
    assert_eq!(message.body.len(), 1);
    assert_eq!(message.body[0].content_type, "application/octet-stream");
    let body = message.body[0].body.clone().unwrap();
    assert_eq!(body, "AAEC/f7/");
    assert_eq!(base64::decode(&body).unwrap(), vec![0u8, 1, 2, 253, 254, 255]);
}

#[test]
fn encodes_a_binary_message_of_one_part() {
    let message = decode(b"Content-Type: image/png\n\nhello").unwrap();
    assert_eq!(message.body, vec![text_part("image/png", "aGVsbG8=")]);
}

#[test]
fn encodes_bytes_with_padding() {
    assert_eq!(binary_body(b""), Some(String::new()));
    assert_eq!(binary_body(b"h"), Some("aA==".to_string()));
    assert_eq!(binary_body(b"he"), Some("aGU=".to_string()));
    assert_eq!(binary_body(b"hel"), Some("aGVs".to_string()));
    assert_eq!(binary_body(b"hello"), Some("aGVsbG8=".to_string()));
    assert_eq!(binary_body(&[0xfb, 0xff, 0xbf]), Some("+/+/".to_string()));
}

#[test]
fn tells_whether_base64_text_fits_in_memory() {
    assert!(encodable(0));
    assert!(encodable(1));
    assert!(encodable(usize::MAX / 4 * 3));
    assert!(!encodable(usize::MAX / 4 * 3 + 1));
    assert!(!encodable(usize::MAX));
}

#[test]
fn leaves_a_part_without_a_body_where_its_content_is_broken() {
    let message = decode(
        b"Content-Type: multipart/mixed; boundary=xx\n\
\n\
--xx\n\
Content-Type: application/pdf\n\
Content-Transfer-Encoding: base64\n\
\n\
!!!!\n\
--xx\n\
Content-Type: text/plain\n\
Content-Transfer-Encoding: base64\n\
\n\
!!!!\n\
--xx\n\
Content-Type: text/plain\n\
\n\
fine\n\
--xx--\n",
    )
    .unwrap();
    assert_eq!(
        message.body,
        vec![
            Part { content_type: "application/pdf".to_string(), body: None },
            Part { content_type: "text/plain".to_string(), body: None },
            text_part("text/plain", "fine\n"),
        ]
    );
}

#[test]
fn keeps_a_header_with_an_empty_value() {
    let message = decode(b"X-Empty:\nSubject: Hi\n\nHello").unwrap();
    assert_eq!(message.headers, vec![pair("X-Empty", ""), pair("Subject", "Hi")]);
    assert_eq!(message.header("X-Empty"), Some(String::new()));
}

#[test]
fn keeps_a_header_with_an_empty_name() {
    let message = decode(b": nameless\nSubject: Hi\n\nHello").unwrap();
    assert_eq!(message.headers, vec![pair("", "nameless"), pair("Subject", "Hi")]);
    assert_eq!(message.header(""), Some("nameless".to_string()));
}

#[test]
fn lets_the_last_of_repeated_headers_win() {
    let message = decode(b"To: first\nSubject: Hi\nTo: second\n\nHello").unwrap();
    assert_eq!(message.headers, vec![pair("To", "second"), pair("Subject", "Hi")]);
    assert_eq!(message.to, Some("second".to_string()));
}

#[test]
fn tells_header_names_apart_by_case() {
    let message = decode(b"subject: lower\nSubject: Upper\n\nHello").unwrap();
    assert_eq!(message.headers, vec![pair("subject", "lower"), pair("Subject", "Upper")]);
    assert_eq!(message.subject, Some("Upper".to_string()));
    assert_eq!(message.header("subject"), Some("lower".to_string()));
    assert_eq!(message.header("SUBJECT"), None);
}

#[test]
fn takes_the_envelope_from_the_headers() {
    let message = decode(
        b"From: a@b.com\n\
To: c@d.com\n\
Date: Sun, 02 Oct 2016 07:06:22 -0700\n\
Subject: =?utf-8?Q?Gr=C3=BC=C3=9Fe?=\n\
\n\
Hello",
    )
    .unwrap();
    assert_eq!(message.from, Some("a@b.com".to_string()));
    assert_eq!(message.to, Some("c@d.com".to_string()));
    assert_eq!(message.date, Some("Sun, 02 Oct 2016 07:06:22 -0700".to_string()));
    assert_eq!(message.subject, Some("Gr\u{fc}\u{df}e".to_string()));
    assert_eq!(message.subject, message.header("Subject"));
}

#[test]
fn unwraps_one_level_of_multipart_only() {
    let message = decode(
        b"Content-Type: multipart/mixed; boundary=outer\n\
\n\
--outer\n\
Content-Type: multipart/alternative; boundary=inner\n\
\n\
--inner\n\
Content-Type: text/plain\n\
\n\
deep\n\
--inner--\n\
--outer\n\
Content-Type: text/plain\n\
\n\
flat\n\
--outer--\n",
    )
    .unwrap();
    assert_eq!(message.body.len(), 2);
    assert_eq!(message.body[0].content_type, "multipart/alternative");
    assert_eq!(message.body[0].body, Some(String::new()));
    assert_eq!(message.body[1], text_part("text/plain", "flat\n"));
}

#[test]
fn gives_a_multipart_message_without_parts_no_body() {
    let message = decode(b"Content-Type: multipart/mixed\n\nno boundary").unwrap();
    assert_eq!(message.body, vec![]);
}

#[test]
fn decodes_empty_bytes_to_an_empty_text_part() {
    let message = decode(b"").unwrap();
    assert_eq!(
        message,
        Message {
            headers: vec![],
            subject: None,
            date: None,
            to: None,
            from: None,
            body: vec![text_part("text/plain", "")],
        }
    );
}

#[test]
fn fails_on_bytes_that_are_no_message() {
    assert_eq!(
        decode(b" no header"),
        Err(Error::Parse("An error occurred while attempting to parse the input".to_string()))
    );
    assert_eq!(
        decode(b"Subject\nno colon"),
        Err(Error::Parse("An error occurred while attempting to parse the input".to_string()))
    );
}

#[test]
fn shows_the_message_of_each_kind_of_error() {
    assert_eq!(Error::IMap("No Response".to_string()).to_string(), "No Response");
    assert_eq!(Error::Parse("invalid input".to_string()).to_string(), "invalid input");
    assert_eq!(Error::Tls("handshake failed".to_string()).to_string(), "handshake failed");
}

#[test]
fn makes_a_parse_error_of_the_parser_s_error() {
    let error = mailparse::parse_mail(b" no header").unwrap_err();
    assert_eq!(
        Error::from(error),
        Error::Parse("An error occurred while attempting to parse the input".to_string())
    );
}
