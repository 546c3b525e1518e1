use vstd::prelude::*;
use vstd::slice::*;
use vstd::string::*;
use vstd::utf8::*;

verus! {

/// The ASCII digit for `d`, which is below ten.
pub open spec fn decimal_digit(d: nat) -> char {
    (48 + d) as char
}

/// The decimal representation of `n`, most significant digit first,
/// without leading zeros (`0` is written `"0"`).
pub open spec fn decimal(n: nat) -> Seq<char>
    decreases n,
{
    if n < 10 {
        seq![decimal_digit(n)]
    } else {
        decimal(n / 10).push(decimal_digit(n % 10))
    }
}

/// Whether `c` is one of the ASCII digits `0` to `9`.
pub open spec fn is_digit(c: char) -> bool {
    '0' <= c <= '9'
}

/// The number that a string of ASCII digits stands for, read in base ten,
/// most significant digit first.
pub open spec fn digits_value(s: Seq<char>) -> nat
    decreases s.len(),
{
    if s.len() == 0 {
        0
    } else {
        digits_value(s.drop_last()) * 10 + ((s.last() as int - '0' as int) as nat)
    }
}

/// Law: the decimal text of `n` is a non-empty string of ASCII digits,
/// without a leading zero unless it is `0` itself, that reads back as `n`.
/// Those three facts leave only one possible text for each `n`.
pub proof fn lemma_decimal_value(n: nat)
    ensures
        decimal(n).len() >= 1,
        forall|i: int| 0 <= i < decimal(n).len() ==> is_digit(#[trigger] decimal(n)[i]),
        decimal(n).len() > 1 ==> decimal(n)[0] != '0',
        n == 0 <==> decimal(n) == seq!['0'],
        digits_value(decimal(n)) == n,
    decreases n,
{
    if n < 10 {
        let s = decimal(n);
        assert(s == seq![decimal_digit(n)]);
        assert(s.drop_last() =~= Seq::<char>::empty());
        assert(decimal_digit(n) as int == 48 + n);
        assert(digits_value(s) == digits_value(s.drop_last()) * 10 + ((s.last() as int - '0' as int) as nat));
        if n != 0 {
            assert(s[0] != '0');
        }
    } else {
        lemma_decimal_value(n / 10);
        let p = decimal(n / 10);
        let s = decimal(n);
        assert(s == p.push(decimal_digit(n % 10)));
        assert(s.drop_last() =~= p);
        assert(decimal_digit(n % 10) as int == 48 + n % 10);
        assert forall|i: int| 0 <= i < s.len() implies is_digit(#[trigger] s[i]) by {
            if i < p.len() {
                assert(s[i] == p[i]);
            }
        }
        assert(s[0] == p[0]);
        assert(n / 10 != 0);
        if p.len() == 1 {
            assert(p[0] != '0') by {
                if p[0] == '0' {
                    assert(p =~= seq!['0']);
                }
            }
        }
        assert(digits_value(s) == digits_value(p) * 10 + n % 10);
        assert((n / 10) * 10 + n % 10 == n);
        assert(s.len() == p.len() + 1);
    }
}

fn digit_str(d: usize) -> (s: &'static str)
    requires
        d < 10,
    ensures
        s@ == seq![decimal_digit(d as nat)],
{
    match d {
        0 => {
            proof { reveal_strlit("0"); }
            "0"
        },
        1 => {
            proof { reveal_strlit("1"); }
            "1"
        },
        2 => {
            proof { reveal_strlit("2"); }
            "2"
        },
        3 => {
            proof { reveal_strlit("3"); }
            "3"
        },
        4 => {
            proof { reveal_strlit("4"); }
            "4"
        },
        5 => {
            proof { reveal_strlit("5"); }
            "5"
        },
        6 => {
            proof { reveal_strlit("6"); }
            "6"
        },
        7 => {
            proof { reveal_strlit("7"); }
            "7"
        },
        8 => {
            proof { reveal_strlit("8"); }
            "8"
        },
        _ => {
            proof { reveal_strlit("9"); }
            "9"
        },
    }
}

/// Appends the decimal representation of `n` to `s`.
fn push_decimal(s: &mut String, n: usize)
    ensures
        final(s)@ == old(s)@ + decimal(n as nat),
    decreases n,
{
    if n >= 10 {
        push_decimal(s, n / 10);
    }
    s.append(digit_str(n % 10));
    proof {
        if n >= 10 {
            assert(old(s)@ + decimal(n as nat) =~= (old(s)@ + decimal((n / 10) as nat)) + seq![decimal_digit((n % 10) as nat)]);
        }
    }
}

/// The decimal text of `n`, as `format!("{}", n)` writes it.
pub fn decimal_string(n: usize) -> (s: String)
    ensures
        s@ == decimal(n as nat),
{
    let mut s = String::new();
    push_decimal(&mut s, n);
    s
}


/// The base of the ntfy.sh publishing endpoint; the topic follows it.
pub const NTFY_BASE_URL: &'static str = "https://ntfy.sh/";

/// The stack size, in bytes, of the task that serves HTTP requests.
pub const HTTP_SERVER_STACK_SIZE: usize = 10240;

/// The size of the buffer that the response body is read into, one chunk at a time.
pub const RESPONSE_CHUNK_LEN: usize = 1024;

/// A POST request ready to be sent: where, with which headers, carrying which bytes.
pub struct HttpRequest {
    pub url: String,
    pub headers: Vec<(String, String)>,
    pub body: Vec<u8>,
}

/// The mathematical content of an [`HttpRequest`].
pub struct HttpRequestView {
    pub url: Seq<char>,
    pub headers: Seq<(Seq<char>, Seq<char>)>,
    pub body: Seq<u8>,
}

/// The views of a list of (name, value) header pairs.
pub open spec fn header_views(headers: Seq<(String, String)>) -> Seq<(Seq<char>, Seq<char>)> {
    headers.map_values(|h: (String, String)| (h.0@, h.1@))
}

impl View for HttpRequest {
    type V = HttpRequestView;

    open spec fn view(&self) -> HttpRequestView {
        HttpRequestView { url: self.url@, headers: header_views(self.headers@), body: self.body@ }
    }
}

/// The request that posts `data` to `url`: a plain-text body with its
/// length in bytes, in decimal, as the content length.
pub open spec fn post_request(url: Seq<char>, data: Seq<u8>) -> HttpRequestView {
    HttpRequestView {
        url: url,
        headers: seq![
            ("content-type"@, "text/plain"@),
            ("content-length"@, decimal(data.len())),
        ],
        body: data,
    }
}

/// The URL under which a notification is published to `topic`.
pub open spec fn ntfy_url(topic: Seq<char>) -> Seq<char> {
    NTFY_BASE_URL@ + topic
}

/// Law: the notification URL is the ntfy.sh publishing endpoint followed by
/// exactly the topic, so different topics are published to different URLs.
pub proof fn lemma_ntfy_url(topic: Seq<char>)
    ensures
        ntfy_url(topic) == "https://ntfy.sh/"@ + topic,
        ntfy_url(topic).len() == 16 + topic.len(),
        ntfy_url(topic).subrange(16, ntfy_url(topic).len() as int) == topic,
{
    reveal_strlit("https://ntfy.sh/");
    assert(("https://ntfy.sh/"@ + topic).subrange(16, 16 + topic.len() as int) =~= topic);
}

/// Law: two topics share a notification URL only when they are the same
/// topic.
pub proof fn lemma_ntfy_url_injective(t1: Seq<char>, t2: Seq<char>)
    ensures
        ntfy_url(t1) == ntfy_url(t2) <==> t1 == t2,
{
    lemma_ntfy_url(t1);
    lemma_ntfy_url(t2);
}

/// Law: a POST request carries exactly the given bytes, as plain text, and
/// announces their count in decimal as its content length.
pub proof fn lemma_post_request_fields(url: Seq<char>, data: Seq<u8>)
    ensures
        post_request(url, data).url == url,
        post_request(url, data).body == data,
        post_request(url, data).headers.len() == 2,
        post_request(url, data).headers[0] == ("content-type"@, "text/plain"@),
        post_request(url, data).headers[1].0 == "content-length"@,
        post_request(url, data).headers[1].1 == decimal(data.len()),
        digits_value(post_request(url, data).headers[1].1) == data.len(),
{
    lemma_decimal_value(data.len());
}

/// Builds the POST request that sends `data` to `url`.
pub fn post(url: &str, data: &[u8]) -> (r: HttpRequest)
    ensures
        r@ == post_request(url@, data@),
        r.url@ == url@,
        r.body@ == data@,
        r@.headers.len() == 2,
        r@.headers[0] == ("content-type"@, "text/plain"@),
        r@.headers[1] == ("content-length"@, decimal(data@.len())),
        digits_value(r@.headers[1].1) == data@.len(),
{
    let mut headers: Vec<(String, String)> = Vec::new();
    headers.push((String::from_str("content-type"), String::from_str("text/plain")));
    headers.push((String::from_str("content-length"), decimal_string(data.len())));
    let r = HttpRequest { url: String::from_str(url), headers, body: slice_to_vec(data) };
    assert(r@.headers =~= post_request(url@, data@).headers);
    proof {
        lemma_decimal_value(data@.len());
    }
    r
}

/// Builds the request that publishes `notification` (its UTF-8 bytes) to
/// the ntfy.sh topic `topic`.
pub fn ntfy_send(topic: &str, notification: &str) -> (r: HttpRequest)
    ensures
        r@ == post_request(ntfy_url(topic@), notification.spec_bytes()),
        r.url@ == "https://ntfy.sh/"@ + topic@,
        r.body@ == notification.spec_bytes(),
        r@.headers.len() == 2,
        r@.headers[0] == ("content-type"@, "text/plain"@),
        r@.headers[1] == ("content-length"@, decimal(notification.spec_bytes().len())),
{
    let mut url = String::from_str(NTFY_BASE_URL);
    url.append(topic);
    proof {
        lemma_ntfy_url(topic@);
    }
    post(url.as_str(), notification.as_bytes())
}

/// `std::str::from_utf8`: std documents that it succeeds exactly when the
/// bytes are valid UTF-8, and that the string slice it returns is made of
/// those same bytes.
#[verifier::external_body]
fn utf8_str(bytes: &[u8]) -> (r: Option<&str>)
    ensures
        r is Some <==> valid_utf8(bytes@),
        r matches Some(s) ==> s.spec_bytes() == bytes@,
{
    std::str::from_utf8(bytes).ok()
}

/// What reading one chunk of a response body led to.
#[derive(PartialEq, Eq, Structural, Clone, Copy, Debug)]
pub enum ChunkOutcome {
    /// The read returned no bytes: the body is complete.
    End,
    /// The chunk was valid UTF-8 and its text was appended.
    Appended,
    /// The chunk was not valid UTF-8 and was left out.
    NotUtf8,
}

/// The text of a chunk as it enters the response: its decoding when it is
/// valid UTF-8, nothing otherwise.
pub open spec fn chunk_text(chunk: Seq<u8>) -> Seq<char> {
    if valid_utf8(chunk) {
        decode_utf8(chunk)
    } else {
        Seq::empty()
    }
}

/// The response text gathered from the chunks read in order, up to the first
/// empty read.
pub open spec fn response_text(chunks: Seq<Seq<u8>>) -> Seq<char>
    decreases chunks.len(),
{
    if chunks.len() == 0 || chunks[0].len() == 0 {
        Seq::empty()
    } else {
        chunk_text(chunks[0]) + response_text(chunks.drop_first())
    }
}

/// UTF-8 encoding maps concatenation to concatenation.
proof fn lemma_encode_utf8_concat(a: Seq<char>, b: Seq<char>)
    ensures
        encode_utf8(a + b) == encode_utf8(a) + encode_utf8(b),
    decreases a.len(),
{
    if a.len() == 0 {
        assert(a + b =~= b);
        assert(encode_utf8(a) + encode_utf8(b) =~= encode_utf8(b));
    } else {
        assert((a + b).drop_first() =~= a.drop_first() + b);
        assert((a + b)[0] == a[0]);
        lemma_encode_utf8_concat(a.drop_first(), b);
        assert(encode_utf8(a + b) =~= encode_scalar(a[0] as u32) + (encode_utf8(a.drop_first())
            + encode_utf8(b)));
    }
}

/// Two valid UTF-8 byte strings put end to end are valid UTF-8, and decode
/// to the two decodings put end to end.
proof fn lemma_decode_utf8_concat(a: Seq<u8>, b: Seq<u8>)
    requires
        valid_utf8(a),
        valid_utf8(b),
    ensures
        valid_utf8(a + b),
        decode_utf8(a + b) == decode_utf8(a) + decode_utf8(b),
{
    broadcast use decode_utf8_encode_utf8, encode_utf8_decode_utf8, encode_utf8_valid_utf8;

    let da = decode_utf8(a);
    let db = decode_utf8(b);
    lemma_encode_utf8_concat(da, db);
    assert(encode_utf8(da + db) == a + b);
}

/// Law: the text gathered from reads that each return valid UTF-8 is the
/// decoding of all the bytes read, in order; so splitting a valid body into
/// reads loses nothing.
pub proof fn lemma_valid_chunks_decode_whole(chunks: Seq<Seq<u8>>)
    requires
        forall|i: int| 0 <= i < chunks.len() ==> #[trigger] chunks[i].len() > 0 && valid_utf8(
            chunks[i],
        ),
    ensures
        valid_utf8(chunks.flatten()),
        response_text(chunks) == decode_utf8(chunks.flatten()),
    decreases chunks.len(),
{
    if chunks.len() == 0 {
        assert(valid_utf8(Seq::<u8>::empty()));
    } else {
        let rest = chunks.drop_first();
        assert forall|i: int| 0 <= i < rest.len() implies #[trigger] rest[i].len() > 0
            && valid_utf8(rest[i]) by {
            assert(rest[i] == chunks[i + 1]);
        }
        lemma_valid_chunks_decode_whole(rest);
        assert(chunks[0].len() > 0 && valid_utf8(chunks[0]));
        lemma_decode_utf8_concat(chunks[0], rest.flatten());
    }
}

/// Law: accepting one more non-empty chunk after non-empty chunks adds
/// exactly that chunk's text at the end, as [`ResponseBody::accept`] does; so
/// a body fed its reads in order holds [`response_text`] of those reads.
pub proof fn lemma_response_text_push(chunks: Seq<Seq<u8>>, chunk: Seq<u8>)
    requires
        forall|i: int| 0 <= i < chunks.len() ==> #[trigger] chunks[i].len() > 0,
        chunk.len() > 0,
    ensures
        response_text(chunks.push(chunk)) == response_text(chunks) + chunk_text(chunk),
    decreases chunks.len(),
{
    if chunks.len() == 0 {
        assert(chunks.push(chunk).drop_first() =~= Seq::<Seq<u8>>::empty());
        assert(response_text(Seq::<Seq<u8>>::empty()) =~= Seq::<char>::empty());
        assert(chunks.push(chunk)[0] == chunk);
        assert(response_text(chunks.push(chunk)) =~= chunk_text(chunk) + Seq::<char>::empty());
        assert(response_text(chunks) + chunk_text(chunk) =~= chunk_text(chunk));
    } else {
        let rest = chunks.drop_first();
        assert(chunks.push(chunk).drop_first() =~= rest.push(chunk));
        assert(chunks.push(chunk)[0] == chunks[0]);
        assert(chunks[0].len() > 0);
        assert forall|i: int| 0 <= i < rest.len() implies #[trigger] rest[i].len() > 0 by {
            assert(rest[i] == chunks[i + 1]);
        }
        lemma_response_text_push(rest, chunk);
        assert(response_text(chunks.push(chunk)) =~= chunk_text(chunks[0]) + (response_text(rest)
            + chunk_text(chunk)));
    }
}

/// The text of a response body read chunk by chunk.
pub struct ResponseBody {
    text: String,
}

impl View for ResponseBody {
    type V = Seq<char>;

    closed spec fn view(&self) -> Seq<char> {
        self.text@
    }
}

impl ResponseBody {
    /// An empty body, before the first read.
    pub fn new() -> (r: ResponseBody)
        ensures
            r@ == Seq::<char>::empty(),
    {
        ResponseBody { text: String::new() }
    }

    /// Takes in the bytes of one read: an empty read ends the body, a
    /// chunk of valid UTF-8 is decoded and appended, any other chunk is
    /// skipped.
    pub fn accept(&mut self, chunk: &[u8]) -> (outcome: ChunkOutcome)
        ensures
            outcome == (if chunk@.len() == 0 {
                ChunkOutcome::End
            } else if valid_utf8(chunk@) {
                ChunkOutcome::Appended
            } else {
                ChunkOutcome::NotUtf8
            }),
            final(self)@ == old(self)@ + (if chunk@.len() == 0 {
                Seq::<char>::empty()
            } else {
                chunk_text(chunk@)
            }),
            chunk@.len() > 0 && valid_utf8(chunk@) ==> final(self)@ == old(self)@ + decode_utf8(
                chunk@,
            ),
            encode_utf8(final(self)@) == encode_utf8(old(self)@) + (if valid_utf8(chunk@) {
                chunk@
            } else {
                Seq::<u8>::empty()
            }),
            !valid_utf8(chunk@) || chunk@.len() == 0 ==> final(self)@ == old(self)@,
    {
        proof {
            broadcast use decode_utf8_encode_utf8;

            lemma_encode_utf8_concat(self@, chunk_text(chunk@));
            lemma_encode_utf8_concat(self@, Seq::<char>::empty());
            assert(encode_utf8(Seq::<char>::empty()) =~= Seq::<u8>::empty());
            assert(encode_utf8(self@) + Seq::<u8>::empty() =~= encode_utf8(self@));
            if chunk@.len() == 0 {
                assert(valid_utf8(chunk@));
                assert(decode_utf8(chunk@) =~= Seq::<char>::empty());
                assert(chunk@ =~= Seq::<u8>::empty());
            }
        }
        if chunk.len() == 0 {
            assert(self@ =~= self@ + Seq::<char>::empty());
            return ChunkOutcome::End;
        }
        match utf8_str(chunk) {
            Some(s) => {
                proof {
                    broadcast use encode_utf8_decode_utf8;
                    assert(decode_utf8(s.spec_bytes()) == s@);
                }
                self.text.append(s);
                ChunkOutcome::Appended
            },
            None => {
                assert(self@ =~= self@ + Seq::<char>::empty());
                ChunkOutcome::NotUtf8
            },
        }
    }

    /// The text gathered so far.
    pub fn text(&self) -> (r: &str)
        ensures
            r@ == self@,
    {
        self.text.as_str()
    }

    /// The text gathered, giving up the body.
    pub fn into_text(self) -> (r: String)
        ensures
            r@ == self@,
    {
        self.text
    }
}

} // verus!
