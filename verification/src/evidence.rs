//! The computable core of the HTTP instrumentation: how captured headers and
//! bodies become attachment payloads. Header lines are `name: value` with
//! the value decoded lossily; a body that parses as JSON is attached
//! pretty-printed as `application/json`, anything else lossily as
//! `text/plain`, and a missing body still yields an empty text attachment.

use vstd::prelude::*;

use crate::ids::Uuid;
use crate::models::Attachment;

verus! {

/// The two MIME types evidence is written with.
#[derive(Clone, Copy, Debug, PartialEq, Eq, Structural)]
pub enum Mime {
    ApplicationJson,
    Txt,
}

impl Mime {
    /// The MIME string written into an attachment record.
    pub open spec fn mime_str(self) -> Seq<char> {
        match self {
            Mime::ApplicationJson => "application/json"@,
            Mime::Txt => "text/plain"@,
        }
    }

    /// The file extension evidence of this type is stored under.
    pub open spec fn ext_str(self) -> Seq<char> {
        match self {
            Mime::ApplicationJson => "json"@,
            Mime::Txt => "txt"@,
        }
    }

    /// The file extension as text.
    pub fn as_ext(&self) -> (r: &'static str)
        ensures
            r@ == self.ext_str(),
    {
        match self {
            Mime::ApplicationJson => "json",
            Mime::Txt => "txt",
        }
    }

    /// The file extension as text, under the name the attachment writer
    /// uses.
    pub fn to_ext(&self) -> (r: &'static str)
        ensures
            r@ == self.ext_str(),
    {
        self.as_ext()
    }

    /// The MIME string as an owned value.
    pub fn as_mime(&self) -> (r: String)
        ensures
            r@ == self.mime_str(),
    {
        match self {
            Mime::ApplicationJson => String::from_str("application/json"),
            Mime::Txt => String::from_str("text/plain"),
        }
    }
}

/// The UTF-8 bytes that a byte string decodes to when invalid sequences are
/// replaced: a function of the bytes alone.
pub uninterp spec fn lossy_bytes(b: Seq<u8>) -> Seq<u8>;

/// Relies on `String::from_utf8_lossy` (with `Cow::into_owned` and
/// `String::into_bytes` to take the bytes out): decodes the bytes as UTF-8,
/// replacing invalid sequences, and hands the result back as bytes. The
/// result depends on the input bytes alone.
#[verifier::external_body]
fn utf8_lossy_bytes(b: &[u8]) -> (r: Vec<u8>)
    ensures
        r@ == lossy_bytes(b@),
{
    String::from_utf8_lossy(b).into_owned().into_bytes()
}

/// Whether the bytes are one well-formed JSON document, as the JSON parser
/// decides it: a function of the bytes alone.
pub uninterp spec fn json_document(b: Seq<u8>) -> bool;

/// The pretty-printed form of a JSON document: a function of the bytes
/// alone.
pub uninterp spec fn pretty_json(b: Seq<u8>) -> Seq<u8>;

/// Relies on `serde_json::from_slice::<serde_json::Value>` and
/// `serde_json::to_vec_pretty`: whether the bytes parse as one JSON
/// document, and if so its pretty-printed rendering. Both depend on the
/// bytes alone.
#[verifier::external_body]
fn try_pretty_json(b: &[u8]) -> (r: Option<Vec<u8>>)
    ensures
        r is Some <==> json_document(b@),
        r is Some ==> r->0@ == pretty_json(b@),
{
    match serde_json::from_slice::<serde_json::Value>(b) {
        Ok(v) => Some(serde_json::to_vec_pretty(&v).unwrap_or_default()),
        Err(_) => None,
    }
}

/// The header block: one `name: value` line per header, in order, the value
/// decoded lossily.
pub open spec fn header_lines(hs: Seq<(Seq<u8>, Seq<u8>)>) -> Seq<u8>
    decreases hs.len(),
{
    if hs.len() == 0 {
        Seq::empty()
    } else {
        hs[0].0 + seq![58u8, 32u8] + lossy_bytes(hs[0].1) + seq![10u8] + header_lines(
            hs.subrange(1, hs.len() as int),
        )
    }
}

pub open spec fn headers_view(hs: Seq<(Vec<u8>, Vec<u8>)>) -> Seq<(Seq<u8>, Seq<u8>)> {
    hs.map_values(|h: (Vec<u8>, Vec<u8>)| (h.0@, h.1@))
}

proof fn lemma_header_lines_push(p: Seq<(Seq<u8>, Seq<u8>)>, x: (Seq<u8>, Seq<u8>))
    ensures
        header_lines(p.push(x)) == header_lines(p) + x.0 + seq![58u8, 32u8] + lossy_bytes(x.1)
            + seq![10u8],
    decreases p.len(),
{
    let q = p.push(x);
    if p.len() == 0 {
        reveal_with_fuel(header_lines, 2);
        assert(q[0] == x);
        assert(q.subrange(1, q.len() as int) =~= Seq::<(Seq<u8>, Seq<u8>)>::empty());
        assert(x.0 + seq![58u8, 32u8] + lossy_bytes(x.1) + seq![10u8] + Seq::<u8>::empty() =~=
        Seq::<u8>::empty() + x.0 + seq![58u8, 32u8] + lossy_bytes(x.1) + seq![10u8]);
    } else {
        let t = p.subrange(1, p.len() as int);
        lemma_header_lines_push(t, x);
        assert(q.subrange(1, q.len() as int) =~= t.push(x));
        assert(q[0] == p[0]);
        assert(p[0].0 + seq![58u8, 32u8] + lossy_bytes(p[0].1) + seq![10u8] + (header_lines(t)
            + x.0 + seq![58u8, 32u8] + lossy_bytes(x.1) + seq![10u8]) =~= (p[0].0 + seq![
            58u8,
            32u8,
        ] + lossy_bytes(p[0].1) + seq![10u8] + header_lines(t)) + x.0 + seq![58u8, 32u8]
            + lossy_bytes(x.1) + seq![10u8]);
    }
}

fn push_bytes(out: &mut Vec<u8>, b: &[u8])
    ensures
        final(out)@ == old(out)@ + b@,
{
    out.extend_from_slice(b);
}

/// Render the captured headers as one text block of `name: value` lines.
pub fn render_header_lines(headers: &Vec<(Vec<u8>, Vec<u8>)>) -> (r: Vec<u8>)
    ensures
        r@ == header_lines(headers_view(headers@)),
{
    let ghost hv = headers_view(headers@);
    let mut out: Vec<u8> = Vec::new();
    proof {
        assert(hv.subrange(0, 0) =~= Seq::<(Seq<u8>, Seq<u8>)>::empty());
        assert(out@ =~= header_lines(hv.subrange(0, 0)));
    }
    let n = headers.len();
    for i in 0..n
        invariant
            n == headers@.len(),
            hv == headers_view(headers@),
            hv.len() == n,
            forall|j: int| 0 <= j < n ==> hv[j] == (#[trigger] headers@[j].0@, headers@[j].1@),
            out@ == header_lines(hv.subrange(0, i as int)),
    {
        let h = &headers[i];
        push_bytes(&mut out, h.0.as_slice());
        out.push(58);
        out.push(32);
        let mut lossy = utf8_lossy_bytes(h.1.as_slice());
        push_bytes(&mut out, lossy.as_slice());
        out.push(10);
        proof {
            lemma_header_lines_push(hv.subrange(0, i as int), hv[i as int]);
            assert(hv.subrange(0, i + 1) =~= hv.subrange(0, i as int).push(hv[i as int]));
            assert(out@ =~= header_lines(hv.subrange(0, i + 1)));
        }
    }
    proof {
        assert(hv.subrange(0, n as int) =~= hv);
    }
    out
}

/// The MIME type a captured body is attached with.
pub open spec fn body_mime(b: Option<Seq<u8>>) -> Mime {
    match b {
        Some(bytes) => if json_document(bytes) {
            Mime::ApplicationJson
        } else {
            Mime::Txt
        },
        None => Mime::Txt,
    }
}

/// The payload a captured body is attached as: pretty-printed when it is
/// JSON, lossy text otherwise, empty text when there was no body.
pub open spec fn body_payload(b: Option<Seq<u8>>) -> Seq<u8> {
    match b {
        Some(bytes) => if json_document(bytes) {
            pretty_json(bytes)
        } else {
            lossy_bytes(bytes)
        },
        None => Seq::empty(),
    }
}

/// Classify and render a captured body as attachment evidence.
pub fn body_evidence(body: Option<&Vec<u8>>) -> (r: (Mime, Vec<u8>))
    ensures
        body matches Some(b) ==> r.0 == body_mime(Some(b@)) && r.1@ == body_payload(Some(b@)),
        body is None ==> r.0 == Mime::Txt && r.1@ == Seq::<u8>::empty(),
{
    match body {
        Some(b) => match try_pretty_json(b.as_slice()) {
            Some(p) => (Mime::ApplicationJson, p),
            None => (Mime::Txt, utf8_lossy_bytes(b.as_slice())),
        },
        None => (Mime::Txt, Vec::new()),
    }
}

/// One attachment payload of the instrumentation layer, not yet written to
/// disk.
pub struct Evidence {
    pub name: String,
    pub mime: Mime,
    pub content: Vec<u8>,
}

fn call_evidence(
    headers: &Vec<(Vec<u8>, Vec<u8>)>,
    body: Option<&Vec<u8>>,
    headers_name: &str,
    body_name: &str,
) -> (r: Vec<Evidence>)
    ensures
        r@.len() == 2,
        r@[0].name@ == headers_name@,
        r@[0].mime == Mime::Txt,
        r@[0].content@ == header_lines(headers_view(headers@)),
        r@[1].name@ == body_name@,
        body matches Some(b) ==> r@[1].mime == body_mime(Some(b@)) && r@[1].content@
            == body_payload(Some(b@)),
        body is None ==> r@[1].mime == Mime::Txt && r@[1].content@ == Seq::<u8>::empty(),
{
    let lines = render_header_lines(headers);
    let (mime, payload) = body_evidence(body);
    let mut out: Vec<Evidence> = Vec::new();
    out.push(Evidence { name: headers_name.to_owned(), mime: Mime::Txt, content: lines });
    out.push(Evidence { name: body_name.to_owned(), mime, content: payload });
    out
}

/// The two attachments captured from an outbound request, in order: the
/// header block as text, then the body.
pub fn request_evidence(headers: &Vec<(Vec<u8>, Vec<u8>)>, body: Option<&Vec<u8>>) -> (r: Vec<
    Evidence,
>)
    ensures
        r@.len() == 2,
        r@[0].name@ == "Request Headers"@,
        r@[0].mime == Mime::Txt,
        r@[0].content@ == header_lines(headers_view(headers@)),
        r@[1].name@ == "Request Body"@,
        body matches Some(b) ==> r@[1].mime == body_mime(Some(b@)) && r@[1].content@
            == body_payload(Some(b@)),
        body is None ==> r@[1].mime == Mime::Txt && r@[1].content@ == Seq::<u8>::empty(),
{
    call_evidence(headers, body, "Request Headers", "Request Body")
}

/// The two attachments captured from the response, in order: the header
/// block as text, then the body, with the same JSON/text detection as the
/// request side.
pub fn response_evidence(headers: &Vec<(Vec<u8>, Vec<u8>)>, body: Option<&Vec<u8>>) -> (r: Vec<
    Evidence,
>)
    ensures
        r@.len() == 2,
        r@[0].name@ == "Response Headers"@,
        r@[0].mime == Mime::Txt,
        r@[0].content@ == header_lines(headers_view(headers@)),
        r@[1].name@ == "Response Body"@,
        body matches Some(b) ==> r@[1].mime == body_mime(Some(b@)) && r@[1].content@
            == body_payload(Some(b@)),
        body is None ==> r@[1].mime == Mime::Txt && r@[1].content@ == Seq::<u8>::empty(),
{
    call_evidence(headers, body, "Response Headers", "Response Body")
}

/// The file name evidence is stored under: the attachment's own identifier
/// and the extension of its MIME type.
pub fn attachment_file_name(id: &Uuid, mime: Mime) -> (r: String)
    ensures
        r@ == id.dashed_form() + "-attachment."@ + mime.ext_str(),
{
    let mut s = id.to_dashed_string();
    s.append("-attachment.");
    s.append(mime.as_ext());
    s
}

/// The attachment record for evidence already written to `file`.
pub fn attachment_record(name: &str, mime: Mime, file: String) -> (r: Attachment)
    ensures
        r@.name == name@,
        r@.source == file@,
        r@.mime == mime.mime_str(),
{
    Attachment { name: name.to_owned(), source: file, mime: mime.as_mime() }
}

} // verus!
