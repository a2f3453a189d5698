//! The request for release information, as plain data: where it goes and
//! which headers it carries.

use reqwest::header::HeaderValue;
use url::Url;
use vstd::prelude::*;
use vstd::string::*;

verus! {

/// One header of a request.
pub struct Header {
    pub name: String,
    pub value: String,
    /// The value is a secret: it is kept out of logs and dumps.
    pub sensitive: bool,
}

/// What a [`Header`] holds.
pub struct HeaderView {
    pub name: Seq<char>,
    pub value: Seq<char>,
    pub sensitive: bool,
}

impl View for Header {
    type V = HeaderView;

    open spec fn view(&self) -> HeaderView {
        HeaderView { name: self.name@, value: self.value@, sensitive: self.sensitive }
    }
}

/// A `GET` request that has not been sent.
pub struct Request {
    pub url: Url,
    pub headers: Vec<Header>,
}

/// What a [`Request`] holds.
pub struct RequestView {
    pub url: Url,
    pub headers: Seq<HeaderView>,
}

impl View for Request {
    type V = RequestView;

    open spec fn view(&self) -> RequestView {
        RequestView { url: self.url, headers: self.headers@.map_values(|h: Header| h@) }
    }
}

/// A character that the value of a header may hold: a tab, or anything
/// from the space upwards but the delete character.
pub open spec fn is_header_value_char(c: char) -> bool {
    c == '\t' || (c as u32 >= 32 && c as u32 != 127)
}

/// `text` can be written as the value of a header.
pub open spec fn is_header_value(text: Seq<char>) -> bool {
    forall|i: int| 0 <= i < text.len() ==> is_header_value_char(#[trigger] text[i])
}

/// `name` is the name of the authorization header, in any case of letters.
pub open spec fn is_authorization(name: Seq<char>) -> bool {
    &&& name.len() == 13
    &&& forall|i: int|
        0 <= i < 13 ==> name[i] == "authorization"@[i] || name[i] == "AUTHORIZATION"@[i]
}

/// How many of `headers` are authorization headers.
pub open spec fn authorization_count(headers: Seq<HeaderView>) -> nat
    decreases headers.len(),
{
    if headers.len() == 0 {
        0
    } else {
        let earlier = authorization_count(headers.drop_last());
        if is_authorization(headers.last().name) {
            earlier + 1
        } else {
            earlier
        }
    }
}

/// One more header is one more authorization header where it is one, and
/// none more where it is not.
pub proof fn lemma_authorization_count_push(headers: Seq<HeaderView>, header: HeaderView)
    ensures
        authorization_count(headers.push(header)) == authorization_count(headers) + (if is_authorization(
            header.name,
        ) {
            1nat
        } else {
            0nat
        }),
{
    assert(headers.push(header).drop_last() =~= headers);
}

/// `headers` without the authorization headers, the others in their order.
pub open spec fn without_authorization(headers: Seq<HeaderView>) -> Seq<HeaderView>
    decreases headers.len(),
{
    if headers.len() == 0 {
        Seq::empty()
    } else {
        let earlier = without_authorization(headers.drop_last());
        if is_authorization(headers.last().name) {
            earlier
        } else {
            earlier.push(headers.last())
        }
    }
}

/// What is left without the authorization headers holds none of them.
pub proof fn lemma_without_authorization_count(headers: Seq<HeaderView>)
    ensures
        authorization_count(without_authorization(headers)) == 0,
    decreases headers.len(),
{
    if headers.len() > 0 {
        lemma_without_authorization_count(headers.drop_last());
        if !is_authorization(headers.last().name) {
            lemma_authorization_count_push(
                without_authorization(headers.drop_last()),
                headers.last(),
            );
        }
    }
}

/// Headers among which there is no authorization header are left as
/// they are.
pub proof fn lemma_without_authorization_keeps(headers: Seq<HeaderView>)
    requires
        authorization_count(headers) == 0,
    ensures
        without_authorization(headers) == headers,
    decreases headers.len(),
{
    if headers.len() > 0 {
        lemma_without_authorization_keeps(headers.drop_last());
        assert(headers.drop_last().push(headers.last()) =~= headers);
    }
}

/// The header name `Authorization` is the name of the authorization header.
pub proof fn lemma_authorization_name()
    ensures
        is_authorization("Authorization"@),
{
    reveal_strlit("Authorization");
    reveal_strlit("authorization");
    reveal_strlit("AUTHORIZATION");
}

/// Tells whether `name` is the name of the authorization header.
pub fn is_authorization_name(name: &str) -> (is: bool)
    ensures
        is == is_authorization(name@),
{
    let lower = "authorization";
    let upper = "AUTHORIZATION";
    proof {
        reveal_strlit("authorization");
        reveal_strlit("AUTHORIZATION");
    }
    if name.unicode_len() != 13 {
        return false;
    }
    let mut i: usize = 0;
    while i < 13
        invariant
            i <= 13,
            name@.len() == 13,
            lower@ == "authorization"@,
            upper@ == "AUTHORIZATION"@,
            lower@.len() == 13,
            upper@.len() == 13,
            forall|j: int| 0 <= j < i ==> name@[j] == lower@[j] || name@[j] == upper@[j],
        decreases 13 - i,
    {
        let c = name.get_char(i);
        if c != lower.get_char(i) && c != upper.get_char(i) {
            return false;
        }
        i += 1;
    }
    true
}

/// Calls `reqwest::header::HeaderValue::from_str` and tells whether it
/// accepted `value`. It accepts a string none of whose bytes is a control
/// character other than the tab; the bytes of a character beyond ASCII
/// are all above the control characters.
#[verifier::external_body]
pub(crate) fn header_value_accepted(value: &str) -> (accepted: bool)
    ensures
        accepted == is_header_value(value@),
{
    HeaderValue::from_str(value).is_ok()
}

impl Request {
    /// A request to `url` without headers.
    pub fn new(url: Url) -> (request: Request)
        ensures
            request@ == (RequestView { url, headers: Seq::empty() }),
    {
        let request = Request { url, headers: Vec::new() };
        proof {
            assert(request@.headers =~= Seq::empty());
        }
        request
    }

    /// The request without its authorization headers; the other headers
    /// keep their order.
    pub fn without_authorization(self) -> (request: Request)
        ensures
            request@ == (RequestView {
                url: self.url,
                headers: without_authorization(self@.headers),
            }),
    {
        let Request { url, headers } = self;
        let mut kept: Vec<Header> = Vec::new();
        let ghost all = headers@.map_values(|h: Header| h@);
        let mut i: usize = 0;
        while i < headers.len()
            invariant
                i <= headers.len(),
                all == headers@.map_values(|h: Header| h@),
                kept@.map_values(|h: Header| h@) =~= without_authorization(all.take(i as int)),
            decreases headers.len() - i,
        {
            let header = &headers[i];
            proof {
                assert(all.take(i + 1).drop_last() =~= all.take(i as int));
                assert(all.take(i + 1).last() == header@);
            }
            if !is_authorization_name(header.name.as_str()) {
                let copy = Header {
                    name: header.name.clone(),
                    value: header.value.clone(),
                    sensitive: header.sensitive,
                };
                assert(copy@ == header@);
                proof {
                    assert(kept@.push(copy).map_values(|h: Header| h@) =~= kept@.map_values(
                        |h: Header| h@,
                    ).push(copy@));
                }
                kept.push(copy);
            }
            i += 1;
        }
        proof {
            assert(all.take(i as int) =~= all);
        }
        Request { url, headers: kept }
    }

    /// Adds `header` behind the headers that the request has.
    pub fn with_header(self, header: Header) -> (request: Request)
        ensures
            request@ == (RequestView { url: self.url, headers: self@.headers.push(header@) }),
    {
        let mut request = self;
        request.headers.push(header);
        proof {
            assert(request@.headers =~= self@.headers.push(header@));
        }
        request
    }
}

} // verus!
