use vstd::prelude::*;

use crate::headers::{ResponseHeaderMap, ResponseHeaders};
use crate::status::HttpStatusCode;
use crate::store::{bad_request_document, index_document, not_found_document, AssetStore};
use crate::text::{head, lemma_head_stops, lemma_scan_append, lemma_scan_crlf_line, line_scan, lines, no_newline};

verus! {

pub open spec fn opt_view(o: Option<String>) -> Option<Seq<char>> {
    match o {
        Some(s) => Some(s@),
        None => None,
    }
}

/// The headers of every page this server builds.
pub open spec fn html_headers() -> Map<ResponseHeaders, Seq<char>> {
    Map::<ResponseHeaders, Seq<char>>::empty().insert(ResponseHeaders::ContentType, "text/html"@)
}

/// One header as written on the wire, without its line ending.
pub open spec fn header_line(k: ResponseHeaders, v: Seq<char>) -> Seq<char> {
    k.spec_name() + ": "@ + v
}

/// The header lines of a map, for the first `n` catalog entries, in catalog
/// order.
pub open spec fn header_lines(m: Map<ResponseHeaders, Seq<char>>, n: int) -> Seq<Seq<char>>
    decreases n,
{
    if n <= 0 {
        Seq::empty()
    } else {
        let k = ResponseHeaders::spec_headers()[n - 1];
        if m.contains_key(k) {
            header_lines(m, n - 1).push(header_line(k, m[k]))
        } else {
            header_lines(m, n - 1)
        }
    }
}

/// Lines joined, each followed by a carriage return and a line feed.
pub open spec fn crlf_lines(ls: Seq<Seq<char>>) -> Seq<char>
    decreases ls.len(),
{
    if ls.len() == 0 {
        Seq::empty()
    } else {
        crlf_lines(ls.drop_last()) + ls.last() + "\r\n"@
    }
}

/// A response, as built and serialized by this server.
#[derive(Debug)]
pub struct Response {
    pub version: String,
    pub status: HttpStatusCode,
    pub headers: ResponseHeaderMap,
    pub body: Option<String>,
}

impl Response {
    pub open spec fn wf(&self) -> bool {
        self.headers.wf()
    }

    /// An HTML page with the given status and body.
    pub open spec fn is_page(&self, status: HttpStatusCode, body: Seq<char>) -> bool {
        &&& self.wf()
        &&& self.version@ == "HTTP/1.1"@
        &&& self.status == status
        &&& self.headers.view() == html_headers()
        &&& opt_view(self.body) == Some(body)
    }

    pub open spec fn status_line(&self) -> Seq<char> {
        self.version@ + " "@ + self.status.spec_code_text()
    }

    /// The status line and the header lines, in the order they are sent.
    pub open spec fn head_lines(&self) -> Seq<Seq<char>> {
        seq![self.status_line()] + header_lines(self.headers.view(), 9)
    }

    /// The response as sent: the status line, one line per header, an empty
    /// line, then the body and a line ending when there is a body.
    pub open spec fn spec_wire(&self) -> Seq<char> {
        crlf_lines(self.head_lines().push(Seq::empty())) + match opt_view(self.body) {
            Some(b) => b + "\r\n"@,
            None => Seq::empty(),
        }
    }

    pub fn default() -> (r: Response)
        ensures
            r.wf(),
            r.version@ == "HTTP/1.1"@,
            r.status == HttpStatusCode::OK,
            r.headers.view() == Map::<ResponseHeaders, Seq<char>>::empty(),
            r.body is None,
    {
        Response {
            version: String::from_str("HTTP/1.1"),
            status: HttpStatusCode::OK,
            headers: ResponseHeaderMap::new(),
            body: None,
        }
    }

    /// An HTML page with the given status.
    fn page(status: HttpStatusCode, body: String) -> (r: Response)
        ensures
            r.is_page(status, body@),
    {
        let mut response = Response::default();
        response.status = status;
        response.headers.insert(ResponseHeaders::ContentType, String::from_str("text/html"));
        response.body = Some(body);
        response
    }

    /// The landing page.
    pub fn ok(store: &AssetStore) -> (r: Response)
        requires
            store.serves_documents(),
        ensures
            r.is_page(HttpStatusCode::OK, store.spec_read(index_document())->Some_0),
    {
        let body = store.read_text("index.html").unwrap();
        Self::page(HttpStatusCode::OK, body)
    }

    pub fn bad_request(store: &AssetStore) -> (r: Response)
        requires
            store.serves_documents(),
        ensures
            r.is_page(HttpStatusCode::BadRequest, store.spec_read(bad_request_document())->Some_0),
    {
        let body = store.read_text("badRequest.html").unwrap();
        Self::page(HttpStatusCode::BadRequest, body)
    }

    pub fn not_found(store: &AssetStore) -> (r: Response)
        requires
            store.serves_documents(),
        ensures
            r.is_page(HttpStatusCode::NotFound, store.spec_read(not_found_document())->Some_0),
    {
        let body = store.read_text("notFound.html").unwrap();
        Self::page(HttpStatusCode::NotFound, body)
    }

    /// Serves the file at `path`: its text with status OK when it can be
    /// read, the not-found page otherwise.
    pub fn send(path: String, store: &AssetStore) -> (r: Response)
        requires
            store.serves_documents(),
        ensures
            match store.spec_read(path@) {
                Some(c) => r.is_page(HttpStatusCode::OK, c),
                None => r.is_page(
                    HttpStatusCode::NotFound,
                    store.spec_read(not_found_document())->Some_0,
                ),
            },
    {
        match store.read_text(path.as_str()) {
            Some(body) => Self::page(HttpStatusCode::OK, body),
            None => Self::not_found(store),
        }
    }

    /// The response as it is sent.
    pub fn to_wire(&self) -> (r: String)
        requires
            self.wf(),
        ensures
            r@ == self.spec_wire(),
    {
        let mut out = self.version.clone();
        out.append(" ");
        out.append(self.status.code_text());
        out.append("\r\n");
        proof {
            assert(seq![self.status_line()].drop_last() =~= Seq::<Seq<char>>::empty());
            assert(crlf_lines(Seq::<Seq<char>>::empty()) == Seq::<char>::empty());
            assert(out@ =~= crlf_lines(seq![self.status_line()]));
            assert(seq![self.status_line()] + header_lines(self.headers.view(), 0) =~= seq![
                self.status_line(),
            ]);
        }
        let cat = ResponseHeaders::headers();
        let mut i: usize = 0;
        while i < cat.len()
            invariant
                self.wf(),
                cat@ == ResponseHeaders::spec_headers(),
                i <= 9,
                out@ == crlf_lines(seq![self.status_line()] + header_lines(self.headers.view(), i as int)),
            decreases 9 - i,
        {
            let k = cat[i];
            let ghost prev = seq![self.status_line()] + header_lines(self.headers.view(), i as int);
            match self.headers.get(k) {
                Some(v) => {
                    out.append(k.name());
                    out.append(": ");
                    out.append(v);
                    out.append("\r\n");
                    proof {
                        let l = header_line(k, v@);
                        assert(prev.push(l).drop_last() =~= prev);
                        assert(seq![self.status_line()] + header_lines(self.headers.view(), i + 1)
                            =~= prev.push(l));
                        assert(out@ =~= crlf_lines(prev) + l + "\r\n"@);
                    }
                },
                None => {
                    proof {
                        assert(seq![self.status_line()] + header_lines(self.headers.view(), i + 1)
                            =~= prev);
                    }
                },
            }
            i = i + 1;
        }
        let ghost hl = self.head_lines();
        out.append("\r\n");
        proof {
            assert(hl.push(Seq::empty()).drop_last() =~= hl);
            assert(out@ =~= crlf_lines(hl.push(Seq::empty())));
        }
        match &self.body {
            Some(b) => {
                out.append(b.as_str());
                out.append("\r\n");
            },
            None => {},
        }
        out
    }
}

proof fn lemma_name_no_newline(k: ResponseHeaders)
    ensures
        no_newline(k.spec_name()),
        k.spec_name().len() > 0,
{
    match k {
        ResponseHeaders::ContentType => reveal_strlit("Content-Type"),
        ResponseHeaders::CacheControl => reveal_strlit("Cache-Control"),
        ResponseHeaders::Location => reveal_strlit("Location"),
        ResponseHeaders::SetCookie => reveal_strlit("Set-Cookie"),
        ResponseHeaders::Server => reveal_strlit("Server"),
        ResponseHeaders::Expires => reveal_strlit("Expires"),
        ResponseHeaders::ContentLength => reveal_strlit("Content-Length"),
        ResponseHeaders::LastModified => reveal_strlit("Last-Modified"),
        ResponseHeaders::KeepAlive => reveal_strlit("Keep-Alive"),
    }
}

proof fn lemma_code_no_newline(c: HttpStatusCode)
    ensures
        no_newline(c.spec_code_text()),
{
    match c {
        HttpStatusCode::OK => reveal_strlit("200"),
        HttpStatusCode::BadRequest => reveal_strlit("400"),
        HttpStatusCode::NotFound => reveal_strlit("404"),
    }
}

proof fn lemma_concat_no_newline(a: Seq<char>, b: Seq<char>)
    requires
        no_newline(a),
        no_newline(b),
    ensures
        no_newline(a + b),
{
    assert forall|i: int| 0 <= i < (a + b).len() implies (a + b)[i] != '\n' by {
        if i < a.len() {
            assert((a + b)[i] == a[i]);
        } else {
            assert((a + b)[i] == b[i - a.len()]);
        }
    }
}

/// Every header line of a map whose values hold no line feed is a
/// non-empty line without line feeds.
proof fn lemma_header_lines_plain(m: Map<ResponseHeaders, Seq<char>>, n: int)
    requires
        forall|k: ResponseHeaders| #[trigger] m.contains_key(k) ==> no_newline(m[k]),
    ensures
        forall|i: int|
            0 <= i < header_lines(m, n).len() ==> no_newline(#[trigger] header_lines(m, n)[i])
                && header_lines(m, n)[i].len() > 0,
    decreases n,
{
    if n > 0 {
        lemma_header_lines_plain(m, n - 1);
        let k = ResponseHeaders::spec_headers()[n - 1];
        if m.contains_key(k) {
            reveal_strlit(": ");
            lemma_name_no_newline(k);
            lemma_concat_no_newline(k.spec_name(), ": "@);
            lemma_concat_no_newline(k.spec_name() + ": "@, m[k]);
            let hl = header_lines(m, n);
            assert forall|i: int| 0 <= i < hl.len() implies no_newline(#[trigger] hl[i])
                && hl[i].len() > 0 by {
                if i < hl.len() - 1 {
                    assert(hl[i] == header_lines(m, n - 1)[i]);
                } else {
                    assert(hl[i] == header_line(k, m[k]));
                }
            }
        } else {
            assert(header_lines(m, n) == header_lines(m, n - 1));
        }
    }
}

/// Lines without line feeds, each ended by a carriage return and a line
/// feed, split back into exactly those lines.
proof fn lemma_crlf_lines_scan(ls: Seq<Seq<char>>)
    requires
        forall|i: int| 0 <= i < ls.len() ==> no_newline(#[trigger] ls[i]),
    ensures
        line_scan(crlf_lines(ls)) == (ls, Seq::<char>::empty()),
    decreases ls.len(),
{
    if ls.len() == 0 {
        assert(line_scan(Seq::<char>::empty()) == (
            Seq::<Seq<char>>::empty(),
            Seq::<char>::empty(),
        ));
        assert(ls =~= Seq::<Seq<char>>::empty());
    } else {
        let init = ls.drop_last();
        assert forall|i: int| 0 <= i < init.len() implies no_newline(#[trigger] init[i]) by {
            assert(init[i] == ls[i]);
        }
        lemma_crlf_lines_scan(init);
        let x = ls.last();
        assert(no_newline(ls[ls.len() - 1]));
        lemma_scan_crlf_line(x);
        assert(crlf_lines(ls) =~= crlf_lines(init) + (x + "\r\n"@));
        lemma_scan_append(crlf_lines(init), x + "\r\n"@);
        assert(init + seq![x] =~= ls);
    }
}

impl Response {
    /// Serialization and the request parser's line splitting agree: the
    /// lines before the first empty line of a serialized response are its
    /// status line and its header lines, and the empty line comes right
    /// after them. This holds when no line feed hides in the version or in
    /// a header value.
    pub proof fn lemma_wire_round_trip(&self)
        requires
            self.wf(),
            no_newline(self.version@),
            forall|k: ResponseHeaders|
                #[trigger] self.headers.view().contains_key(k) ==> no_newline(
                    self.headers.view()[k],
                ),
        ensures
            head(lines(self.spec_wire())) == self.head_lines(),
    {
        let m = self.headers.view();
        let h = self.head_lines();
        lemma_header_lines_plain(m, 9);
        reveal_strlit(" ");
        lemma_code_no_newline(self.status);
        lemma_concat_no_newline(self.version@, " "@);
        lemma_concat_no_newline(self.version@ + " "@, self.status.spec_code_text());
        assert(self.status_line().len() > 0);
        assert forall|i: int| 0 <= i < h.len() implies no_newline(#[trigger] h[i]) && h[i].len()
            > 0 by {
            if i > 0 {
                assert(h[i] == header_lines(m, 9)[i - 1]);
            }
        }
        let hs = h.push(Seq::<char>::empty());
        assert forall|i: int| 0 <= i < hs.len() implies no_newline(#[trigger] hs[i]) by {
            if i < h.len() {
                assert(hs[i] == h[i]);
            }
        }
        lemma_crlf_lines_scan(hs);
        let bp = match opt_view(self.body) {
            Some(b) => b + "\r\n"@,
            None => Seq::empty(),
        };
        lemma_scan_append(crlf_lines(hs), bp);
        let (d, o) = line_scan(bp);
        let rest = if o.len() > 0 {
            d.push(o)
        } else {
            d
        };
        assert(lines(self.spec_wire()) =~= h + seq![Seq::<char>::empty()] + rest);
        lemma_head_stops(h, rest);
    }

    /// Two pages with the same status and body are sent as the same text,
    /// so a builder called twice on the same store answers the same bytes.
    pub proof fn lemma_pages_same_wire(&self, other: &Response, status: HttpStatusCode, body: Seq<char>)
        requires
            self.is_page(status, body),
            other.is_page(status, body),
        ensures
            self.spec_wire() == other.spec_wire(),
    {
    }
}

} // verus!
