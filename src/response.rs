use vstd::prelude::*;
use vstd::utf8::encode_utf8;
use crate::text::{decimal, push_decimal, replace_all, replace_text, same_text};

verus! {

/// A named value: a header, or a placeholder of a template and its text.
pub struct Kvp {
    pub key: String,
    pub value: String,
}

/// A response: status code and reason, headers in the order added, and the
/// body. A binary body is held in base64; `length` is always the byte length
/// of the body as sent.
pub struct Response {
    pub code: u16,
    pub msg: String,
    pub headers: Vec<Kvp>,
    pub content: String,
    pub length: usize,
    pub binary: bool,
}

/// The base64 text of a byte sequence (standard alphabet, padded).
pub uninterp spec fn base64_text(b: Seq<u8>) -> Seq<char>;

/// Relies on base64::encode: the standard, padded encoding of the bytes.
#[verifier::external_body]
fn base64_encode(b: &[u8]) -> (r: String)
    ensures
        r@ == base64_text(b@),
{
    base64::encode(b)
}

/// What a decoder returns for the text of an encoder: the bytes encoded.
pub open spec fn undoes_base64(s: Seq<char>, r: Option<Vec<u8>>) -> bool {
    forall|b: Seq<u8>| #[trigger] base64_text(b) == s ==> (r matches Some(v) && v@ == b)
}

/// Relies on base64::decode: it inverts base64::encode.
#[verifier::external_body]
fn base64_decode(s: &str) -> (r: Option<Vec<u8>>)
    ensures
        undoes_base64(s@, r),
{
    base64::decode(s).ok()
}

/// The reason phrase that goes with a status code.
pub open spec fn reason(code: u16) -> Seq<char> {
    if 200 <= code <= 299 {
        "OK"@
    } else if 300 <= code <= 399 {
        "REDIRECT"@
    } else if code == 401 {
        "NOT AUTHORIZED"@
    } else if code == 403 {
        "FORBIDDEN"@
    } else if code == 404 {
        "NOT FOUND"@
    } else {
        "ERROR"@
    }
}

/// The placeholder that stands for `key` in a template.
pub open spec fn placeholder(key: Seq<char>) -> Seq<char> {
    "#"@ + key + "#"@
}

/// A template with each pair's placeholder replaced by its value, one pair
/// after the other in the order given.
pub open spec fn substitute(t: Seq<char>, keys: Seq<Kvp>) -> Seq<char>
    decreases keys.len(),
{
    if keys.len() == 0 {
        t
    } else {
        replace_all(
            substitute(t, keys.drop_last()),
            placeholder(keys.last().key@),
            keys.last().value@,
        )
    }
}

/// The name of the header that gives the media type of the body.
pub open spec fn content_type_name() -> Seq<char> {
    "Content-Type"@
}

/// Whether one of the headers is named `Content-Type`.
pub open spec fn has_content_type(hs: Seq<Kvp>) -> bool {
    exists|i: int| 0 <= i < hs.len() && (#[trigger] hs[i]).key@ == content_type_name()
}

/// One header as it stands on the wire.
pub open spec fn header_line(name: Seq<char>, value: Seq<char>) -> Seq<char> {
    name + ": "@ + value + "\r\n"@
}

/// The headers, one line each, in order.
pub open spec fn header_lines(hs: Seq<Kvp>) -> Seq<char>
    decreases hs.len(),
{
    if hs.len() == 0 {
        Seq::empty()
    } else {
        header_lines(hs.drop_last()) + header_line(hs.last().key@, hs.last().value@)
    }
}

/// `Content-Length` first, then the headers added, then `Content-Type:
/// text/html` where none of them names a media type.
pub open spec fn header_block(r: Response) -> Seq<char> {
    header_line("Content-Length"@, decimal(r.length as nat)) + header_lines(r.headers@) + if has_content_type(
        r.headers@,
    ) {
        Seq::empty()
    } else {
        header_line(content_type_name(), "text/html"@)
    }
}

/// The status line, without its line end.
pub open spec fn status_line(r: Response) -> Seq<char> {
    "HTTP/1.1 "@ + decimal(r.code as nat) + " "@ + reason(r.code)
}

/// Everything that precedes the body on the wire.
pub open spec fn head_text(r: Response) -> Seq<char> {
    status_line(r) + "\r\n"@ + header_block(r) + "\r\n"@
}

impl Response {
    /// The length field matches the body: its UTF-8 length for text, the
    /// length of the bytes that it encodes for a binary body.
    pub open spec fn wf(self) -> bool {
        &&& self.msg@ == reason(self.code)
        &&& if self.binary {
            exists|b: Seq<u8>| #[trigger] base64_text(b) == self.content@ && b.len() == self.length
        } else {
            self.length == encode_utf8(self.content@).len()
        }
    }

    pub fn get_code(&self) -> (r: u16)
        ensures
            r == self.code,
    {
        self.code
    }

    pub fn is_binary(&self) -> (r: bool)
        ensures
            r == self.binary,
    {
        self.binary
    }

    /// Appends a header; the headers keep the order in which they were added.
    pub fn add_header(&mut self, name: &str, value: &str)
        ensures
            final(self).headers@.len() == old(self).headers@.len() + 1,
            final(self).headers@.drop_last() == old(self).headers@,
            final(self).headers@.last().key@ == name@,
            final(self).headers@.last().value@ == value@,
            final(self).code == old(self).code,
            final(self).msg == old(self).msg,
            final(self).content == old(self).content,
            final(self).length == old(self).length,
            final(self).binary == old(self).binary,
    {
        self.headers.push(Kvp { key: String::from_str(name), value: String::from_str(value) });
        assert(self.headers@.drop_last() =~= old(self).headers@);
    }

    /// The reason phrase for a status code.
    pub fn get_msg_for_code(code: u16) -> (r: String)
        ensures
            r@ == reason(code),
    {
        let msg = if 200 <= code && code <= 299 {
            "OK"
        } else if 300 <= code && code <= 399 {
            "REDIRECT"
        } else if code == 401 {
            "NOT AUTHORIZED"
        } else if code == 403 {
            "FORBIDDEN"
        } else if code == 404 {
            "NOT FOUND"
        } else {
            "ERROR"
        };
        String::from_str(msg)
    }

    /// A text response: the template with each pair's placeholder `#key#`
    /// replaced by its value, pair after pair.
    pub fn build(code: u16, template: &str, replacement_keys: Vec<Kvp>) -> (r: Response)
        ensures
            r.wf(),
            r.code == code,
            !r.binary,
            r.content@ == substitute(template@, replacement_keys@),
            r.headers@.len() == 0,
    {
        let msg = Self::get_msg_for_code(code);
        let mut content = String::from_str(template);
        let mut i: usize = 0;
        while i < replacement_keys.len()
            invariant
                i <= replacement_keys@.len(),
                msg@ == reason(code),
                content@ == substitute(template@, replacement_keys@.subrange(0, i as int)),
            decreases replacement_keys@.len() - i,
        {
            let kvp = &replacement_keys[i];
            let mut pat = String::from_str("#");
            pat.append(kvp.key.as_str());
            pat.append("#");
            proof {
                reveal_strlit("#");
            }
            let next = replace_text(content.as_str(), pat.as_str(), kvp.value.as_str());
            proof {
                let ks = replacement_keys@.subrange(0, i + 1);
                assert(ks.drop_last() == replacement_keys@.subrange(0, i as int));
                assert(ks.last() == replacement_keys@[i as int]);
            }
            content = next;
            i = i + 1;
        }
        assert(replacement_keys@.subrange(0, replacement_keys@.len() as int) == replacement_keys@);
        let len = content.as_str().as_bytes().len();
        Response { binary: false, code, msg, content, length: len, headers: Vec::new() }
    }

    /// A binary response; the bytes are kept in base64 and come back
    /// unchanged from `to_header_and_binary`.
    pub fn build_binary(code: u16, contents: &[u8]) -> (r: Response)
        ensures
            r.wf(),
            r.code == code,
            r.binary,
            r.content@ == base64_text(contents@),
            r.length == contents@.len(),
            r.headers@.len() == 0,
    {
        let content = base64_encode(contents);
        Response {
            binary: true,
            code,
            msg: Self::get_msg_for_code(code),
            length: contents.len(),
            content,
            headers: Vec::new(),
        }
    }

    /// The status line and the header block, each as it goes on the wire.
    pub fn build_header_string(&self) -> (r: (String, String))
        requires
            self.wf(),
        ensures
            r.0@ == status_line(*self),
            r.1@ == header_block(*self),
    {
        let mut status = String::from_str("HTTP/1.1 ");
        push_decimal(&mut status, self.code as u64);
        status.append(" ");
        status.append(self.msg.as_str());
        let mut header_str = String::from_str("Content-Length");
        header_str.append(": ");
        push_decimal(&mut header_str, self.length as u64);
        header_str.append("\r\n");
        let ghost first = header_str@;
        assert(first == header_line("Content-Length"@, decimal(self.length as nat)));
        let mut content_type_set = false;
        let mut i: usize = 0;
        while i < self.headers.len()
            invariant
                i <= self.headers@.len(),
                header_str@ == first + header_lines(self.headers@.subrange(0, i as int)),
                content_type_set == has_content_type(self.headers@.subrange(0, i as int)),
            decreases self.headers@.len() - i,
        {
            let h = &self.headers[i];
            let is_ct = same_text(h.key.as_str(), "Content-Type");
            if is_ct {
                content_type_set = true;
            }
            header_str.append(h.key.as_str());
            header_str.append(": ");
            header_str.append(h.value.as_str());
            header_str.append("\r\n");
            proof {
                let hs = self.headers@.subrange(0, i + 1);
                let prev = self.headers@.subrange(0, i as int);
                assert(hs.drop_last() == prev);
                assert(hs.last() == self.headers@[i as int]);
                if is_ct {
                    assert(hs[i as int] == self.headers@[i as int]);
                }
                if has_content_type(hs) && !is_ct {
                    let j = choose|j: int| 0 <= j < hs.len() && (#[trigger] hs[j]).key@ == content_type_name();
                    assert(prev[j] == hs[j]);
                }
                if has_content_type(prev) {
                    let j = choose|j: int| 0 <= j < prev.len() && (#[trigger] prev[j]).key@ == content_type_name();
                    assert(hs[j] == prev[j]);
                }
            }
            i = i + 1;
        }
        assert(self.headers@.subrange(0, self.headers@.len() as int) == self.headers@);
        if !content_type_set {
            header_str.append("Content-Type");
            header_str.append(": ");
            header_str.append("text/html");
            header_str.append("\r\n");
        }
        (status, header_str)
    }

    /// The response as it goes on the wire: status line, headers, an empty
    /// line, then the body (for a binary response, its base64 text).
    pub fn to_string(&self) -> (r: String)
        requires
            self.wf(),
        ensures
            r@ == head_text(*self) + self.content@,
    {
        let (status_line, header_str) = self.build_header_string();
        let mut out = status_line;
        out.append("\r\n");
        out.append(header_str.as_str());
        out.append("\r\n");
        out.append(self.content.as_str());
        out
    }

    /// For a binary response: the head as it goes on the wire, and the raw
    /// bytes of the body, which are sent apart from it.
    pub fn to_header_and_binary(&self) -> (r: (String, Vec<u8>))
        requires
            self.wf(),
            self.binary,
        ensures
            r.0@ == head_text(*self),
            r.1@.len() == self.length,
            base64_text(r.1@) == self.content@,
            forall|b: Seq<u8>| #[trigger] base64_text(b) == self.content@ ==> r.1@ == b,
    {
        let (status_line, header_str) = self.build_header_string();
        let mut header = status_line;
        header.append("\r\n");
        header.append(header_str.as_str());
        header.append("\r\n");
        let contents = match base64_decode(self.content.as_str()) {
            Some(v) => v,
            None => {
                proof {
                    let b = choose|b: Seq<u8>| #[trigger] base64_text(b) == self.content@ && b.len() == self.length;
                }
                Vec::new()
            },
        };
        (header, contents)
    }
}

/// Headers as (name, value) pairs.
pub open spec fn header_pairs(hs: Seq<Kvp>) -> Seq<(Seq<char>, Seq<char>)> {
    hs.map_values(|h: Kvp| (h.key@, h.value@))
}

/// The headers that go on the wire, in order: `Content-Length`, those
/// added, and `Content-Type: text/html` where none was added.
pub open spec fn wire_headers(r: Response) -> Seq<(Seq<char>, Seq<char>)> {
    seq![("Content-Length"@, decimal(r.length as nat))] + header_pairs(r.headers@) + if has_content_type(
        r.headers@,
    ) {
        Seq::empty()
    } else {
        seq![(content_type_name(), "text/html"@)]
    }
}

/// Header pairs written one line each.
pub open spec fn pair_lines(ps: Seq<(Seq<char>, Seq<char>)>) -> Seq<char>
    decreases ps.len(),
{
    if ps.len() == 0 {
        Seq::empty()
    } else {
        pair_lines(ps.drop_last()) + header_line(ps.last().0, ps.last().1)
    }
}

/// The values of the pairs named `name`, in order.
pub open spec fn values_named(ps: Seq<(Seq<char>, Seq<char>)>, name: Seq<char>) -> Seq<Seq<char>>
    decreases ps.len(),
{
    if ps.len() == 0 {
        Seq::empty()
    } else {
        values_named(ps.drop_last(), name) + if ps.last().0 == name {
            seq![ps.last().1]
        } else {
            Seq::empty()
        }
    }
}

proof fn lemma_pair_lines_append(a: Seq<(Seq<char>, Seq<char>)>, b: Seq<(Seq<char>, Seq<char>)>)
    ensures
        pair_lines(a + b) == pair_lines(a) + pair_lines(b),
    decreases b.len(),
{
    if b.len() == 0 {
        assert(a + b == a);
    } else {
        assert((a + b).drop_last() == a + b.drop_last());
        lemma_pair_lines_append(a, b.drop_last());
    }
}

proof fn lemma_values_named_append(
    a: Seq<(Seq<char>, Seq<char>)>,
    b: Seq<(Seq<char>, Seq<char>)>,
    name: Seq<char>,
)
    ensures
        values_named(a + b, name) == values_named(a, name) + values_named(b, name),
    decreases b.len(),
{
    if b.len() == 0 {
        assert(a + b == a);
    } else {
        assert((a + b).drop_last() == a + b.drop_last());
        lemma_values_named_append(a, b.drop_last(), name);
    }
}

proof fn lemma_header_pairs(hs: Seq<Kvp>)
    ensures
        pair_lines(header_pairs(hs)) == header_lines(hs),
        !has_content_type(hs) ==> values_named(header_pairs(hs), content_type_name()).len() == 0,
    decreases hs.len(),
{
    if hs.len() > 0 {
        assert(header_pairs(hs).drop_last() == header_pairs(hs.drop_last()));
        lemma_header_pairs(hs.drop_last());
        if !has_content_type(hs) {
            assert(hs.last() == hs[hs.len() - 1]);
            if has_content_type(hs.drop_last()) {
                let j = choose|j: int|
                    0 <= j < hs.drop_last().len() && (#[trigger] hs.drop_last()[j]).key@
                        == content_type_name();
                assert(hs[j] == hs.drop_last()[j]);
            }
        }
    }
}

/// Once on the wire, a response carries exactly one `Content-Type`: the
/// `text/html` default where none was added, and otherwise only those that
/// were added, with no default beside them.
pub proof fn lemma_single_content_type(r: Response)
    ensures
        header_block(r) == pair_lines(wire_headers(r)),
        !has_content_type(r.headers@) ==> values_named(wire_headers(r), content_type_name())
            == seq!["text/html"@],
        has_content_type(r.headers@) ==> values_named(wire_headers(r), content_type_name())
            == values_named(header_pairs(r.headers@), content_type_name()),
{
    reveal_strlit("Content-Length");
    reveal_strlit("Content-Type");
    let first = seq![("Content-Length"@, decimal(r.length as nat))];
    let mid = header_pairs(r.headers@);
    let tail: Seq<(Seq<char>, Seq<char>)> = if has_content_type(r.headers@) {
        Seq::empty()
    } else {
        seq![(content_type_name(), "text/html"@)]
    };
    lemma_header_pairs(r.headers@);
    lemma_pair_lines_append(first + mid, tail);
    lemma_pair_lines_append(first, mid);
    lemma_values_named_append(first + mid, tail, content_type_name());
    lemma_values_named_append(first, mid, content_type_name());
    assert(first.drop_last() =~= Seq::empty());
    assert(first.last() == ("Content-Length"@, decimal(r.length as nat)));
    assert(pair_lines(first.drop_last()) == Seq::<char>::empty());
    assert(pair_lines(first) =~= header_line("Content-Length"@, decimal(r.length as nat)));
    assert("Content-Length"@ != content_type_name()) by {
        assert("Content-Length"@[8] != content_type_name()[8]);
    }
    assert(values_named(first.drop_last(), content_type_name()) == Seq::<Seq<char>>::empty());
    assert(values_named(first, content_type_name()) =~= Seq::<Seq<char>>::empty());
    if !has_content_type(r.headers@) {
        assert(tail.drop_last() =~= Seq::empty());
        assert(pair_lines(tail.drop_last()) == Seq::<char>::empty());
        assert(values_named(tail.drop_last(), content_type_name()) == Seq::<Seq<char>>::empty());
        assert(pair_lines(tail) =~= header_line(content_type_name(), "text/html"@));
        assert(values_named(tail, content_type_name()) =~= seq!["text/html"@]);
        assert(values_named(wire_headers(r), content_type_name()) =~= seq!["text/html"@]);
    } else {
        assert(values_named(wire_headers(r), content_type_name()) =~= values_named(mid, content_type_name()));
    }
}

} // verus!
