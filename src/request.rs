use vstd::prelude::*;

use crate::headers::{lines_view, RequestHeaderMap, RequestHeaders};
use crate::methods::HttpMethod;
use crate::response::{crlf_lines, Response};
use crate::routes::{resolve, Route};
use crate::status::HttpStatusCode;
use crate::store::{bad_request_document, not_found_document, AssetStore};
use crate::text::{head, lines, split_lines, split_whitespace, strings_view, tokens};

verus! {

/// A parsed request.
#[derive(Debug)]
pub struct Request {
    pub method: HttpMethod,
    pub url: String,
    pub headers: RequestHeaderMap,
    pub body: Option<String>,
}

/// The header lines of a request header map, for the first `n` catalog
/// entries, in catalog order.
pub open spec fn request_header_lines(m: Map<RequestHeaders, Seq<char>>, n: int) -> Seq<Seq<char>>
    decreases n,
{
    if n <= 0 {
        Seq::empty()
    } else {
        let k = RequestHeaders::spec_headers()[n - 1];
        if m.contains_key(k) {
            request_header_lines(m, n - 1).push(k.spec_name() + ": "@ + m[k])
        } else {
            request_header_lines(m, n - 1)
        }
    }
}

/// The lines of a request that come before the first empty line.
pub open spec fn request_lines(text: Seq<char>) -> Seq<Seq<char>> {
    head(lines(text))
}

/// The tokens of the request line (empty when there is none).
pub open spec fn request_line(text: Seq<char>) -> Seq<Seq<char>> {
    let ls = request_lines(text);
    if ls.len() == 0 {
        Seq::empty()
    } else {
        tokens(ls[0])
    }
}

/// The tokens of each header line.
pub open spec fn header_token_lines(text: Seq<char>) -> Seq<Seq<Seq<char>>> {
    let ls = request_lines(text);
    if ls.len() == 0 {
        Seq::empty()
    } else {
        ls.skip(1).map_values(|l: Seq<char>| tokens(l))
    }
}

/// The status and body of the answer to a request: bad request unless the
/// request line has three tokens of which the first is a method, not found
/// unless the path resolves to a readable file, else that file's text.
pub open spec fn answer(store: &AssetStore, text: Seq<char>) -> (HttpStatusCode, Seq<char>) {
    let first = request_line(text);
    if first.len() != 3 || !HttpMethod::is_method_name(first[0]) {
        (HttpStatusCode::BadRequest, store.spec_read(bad_request_document())->Some_0)
    } else {
        match resolve(store, first[1]) {
            Some(p) => match store.spec_read(p) {
                Some(c) => (HttpStatusCode::OK, c),
                None => (HttpStatusCode::NotFound, store.spec_read(not_found_document())->Some_0),
            },
            None => (HttpStatusCode::NotFound, store.spec_read(not_found_document())->Some_0),
        }
    }
}

impl Request {
    /// The request line and the header lines, in the order they are sent.
    pub open spec fn head_lines(&self) -> Seq<Seq<char>> {
        seq![self.method.spec_name() + " "@ + self.url@ + " HTTP/1.1"@] + request_header_lines(
            self.headers.view(),
            8,
        )
    }

    /// The request as written on the wire, up to its last header line.
    pub fn to_wire(&self) -> (r: String)
        requires
            self.headers.wf(),
        ensures
            r@ == crlf_lines(self.head_lines()),
    {
        let ghost first = self.method.spec_name() + " "@ + self.url@ + " HTTP/1.1"@;
        let mut out = String::from_str(self.method.name());
        out.append(" ");
        out.append(self.url.as_str());
        out.append(" HTTP/1.1\r\n");
        proof {
            reveal_strlit(" HTTP/1.1\r\n");
            reveal_strlit(" HTTP/1.1");
            reveal_strlit("\r\n");
            assert(seq![first].drop_last() =~= Seq::<Seq<char>>::empty());
            assert(crlf_lines(Seq::<Seq<char>>::empty()) == Seq::<char>::empty());
            assert(out@ =~= crlf_lines(seq![first]));
            assert(seq![first] + request_header_lines(self.headers.view(), 0) =~= seq![first]);
        }
        let cat = RequestHeaders::headers();
        let mut i: usize = 0;
        while i < cat.len()
            invariant
                self.headers.wf(),
                cat@ == RequestHeaders::spec_headers(),
                i <= 8,
                out@ == crlf_lines(seq![first] + request_header_lines(self.headers.view(), i as int)),
            decreases 8 - i,
        {
            let k = cat[i];
            let ghost prev = seq![first] + request_header_lines(self.headers.view(), i as int);
            match self.headers.get(k) {
                Some(v) => {
                    out.append(k.name());
                    out.append(": ");
                    out.append(v);
                    out.append("\r\n");
                    proof {
                        let l = k.spec_name() + ": "@ + v@;
                        assert(prev.push(l).drop_last() =~= prev);
                        assert(seq![first] + request_header_lines(self.headers.view(), i + 1)
                            =~= prev.push(l));
                        assert(out@ =~= crlf_lines(prev) + l + "\r\n"@);
                    }
                },
                None => {
                    proof {
                        assert(seq![first] + request_header_lines(self.headers.view(), i + 1)
                            =~= prev);
                    }
                },
            }
            i = i + 1;
        }
        out
    }

    /// Splits request text into the tokens of its request line and of each
    /// header line, stopping at the first empty line.
    pub fn split_request(text: String) -> (r: (Vec<String>, Vec<Vec<String>>))
        ensures
            strings_view(r.0@) == request_line(text@),
            lines_view(r.1@) == header_token_lines(text@),
    {
        let all = split_lines(text.as_str());
        let ghost ls = strings_view(all@);
        let mut first_line: Vec<String> = Vec::new();
        let mut vec_headers: Vec<Vec<String>> = Vec::new();
        let mut i: usize = 0;
        assert(ls.skip(0) =~= ls);
        while i < all.len()
            invariant
                ls == strings_view(all@),
                ls == lines(text@),
                i <= ls.len(),
                head(ls) == ls.take(i as int) + head(ls.skip(i as int)),
                i == 0 ==> first_line@.len() == 0 && vec_headers@.len() == 0,
                i > 0 ==> strings_view(first_line@) == tokens(ls[0]),
                i > 0 ==> lines_view(vec_headers@) == ls.subrange(1, i as int).map_values(
                    |l: Seq<char>| tokens(l),
                ),
            ensures
                ls == strings_view(all@),
                ls == lines(text@),
                i <= ls.len(),
                i < ls.len() ==> ls[i as int].len() == 0,
                head(ls) == ls.take(i as int) + head(ls.skip(i as int)),
                i == 0 ==> first_line@.len() == 0 && vec_headers@.len() == 0,
                i > 0 ==> strings_view(first_line@) == tokens(ls[0]),
                i > 0 ==> lines_view(vec_headers@) == ls.subrange(1, i as int).map_values(
                    |l: Seq<char>| tokens(l),
                ),
            decreases ls.len() - i,
        {
            let line = all[i].as_str();
            assert(ls[i as int] == line@);
            assert(ls.skip(i as int)[0] == line@);
            if line.unicode_len() == 0 {
                break ;
            }
            proof {
                assert(ls.skip(i as int).drop_first() =~= ls.skip(i + 1));
                assert(ls.take(i + 1) =~= ls.take(i as int) + seq![ls[i as int]]);
            }
            let toks = split_whitespace(line);
            if i == 0 {
                first_line = toks;
            } else {
                let ghost before = vec_headers@;
                vec_headers.push(toks);
                proof {
                    assert(lines_view(vec_headers@) =~= lines_view(before).push(strings_view(toks@)));
                    assert(ls.subrange(1, i + 1).map_values(|l: Seq<char>| tokens(l))
                        =~= ls.subrange(1, i as int).map_values(|l: Seq<char>| tokens(l)).push(tokens(ls[i as int])));
                }
            }
            i = i + 1;
        }
        proof {
            if i < ls.len() {
                assert(head(ls.skip(i as int)) =~= Seq::<Seq<char>>::empty());
            } else {
                assert(ls.skip(i as int) =~= Seq::<Seq<char>>::empty());
            }
            assert(head(ls) =~= ls.take(i as int));
            if i > 0 {
                assert(head(ls).skip(1) =~= ls.subrange(1, i as int));
            } else {
                assert(lines_view(vec_headers@) =~= Seq::<Seq<Seq<char>>>::empty());
                assert(strings_view(first_line@) =~= Seq::<Seq<char>>::empty());
            }
        }
        (first_line, vec_headers)
    }

    /// Answers request text: the bad-request page unless the request line
    /// holds a method, a path and a version; the not-found page unless the
    /// path resolves to a readable file of the store; that file otherwise.
    pub fn validate(text: String, store: &AssetStore) -> (r: Response)
        requires
            store.serves_documents(),
        ensures
            r.is_page(answer(store, text@).0, answer(store, text@).1),
    {
        let (first_line, vec_headers) = Self::split_request(text);
        if first_line.len() != 3 {
            return Response::bad_request(store);
        }
        assert(strings_view(first_line@)[0] == first_line@[0]@);
        assert(strings_view(first_line@)[1] == first_line@[1]@);
        if HttpMethod::validate(first_line[0].as_str()).is_err() {
            return Response::bad_request(store);
        }
        let route = match Route::validate(first_line[1].as_str(), store) {
            Ok(route) => route,
            Err(response) => return response,
        };
        let _headers = RequestHeaders::validate(vec_headers);
        Response::send(route, store)
    }
}

} // verus!
