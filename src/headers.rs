use vstd::prelude::*;

use crate::text::str_eq;

verus! {

/// The request header names this server understands.
#[derive(Clone, Copy, Debug, PartialEq, Eq, Hash, Structural)]
pub enum RequestHeaders {
    Accept,
    AcceptEncoding,
    AcceptLanguage,
    UserAgent,
    Authorization,
    ContentType,
    Cookie,
    Connection,
}

/// The response header names this server may emit.
#[derive(Clone, Copy, Debug, PartialEq, Eq, Hash, Structural)]
pub enum ResponseHeaders {
    ContentType,
    CacheControl,
    Location,
    SetCookie,
    Server,
    Expires,
    ContentLength,
    LastModified,
    KeepAlive,
}

/// The concatenation of a sequence of strings, with no separator.
pub open spec fn concat(s: Seq<Seq<char>>) -> Seq<char>
    decreases s.len(),
{
    if s.len() == 0 {
        Seq::empty()
    } else {
        concat(s.drop_last()) + s.last()
    }
}

/// The value carried by a tokenized header line: every token after the
/// name, joined with nothing between them.
pub open spec fn header_value(line: Seq<Seq<char>>) -> Seq<char> {
    concat(line.skip(1))
}

/// The header a tokenized line names: its first token must end in a colon,
/// and what precedes the colon must be a catalog name.
pub open spec fn line_header(line: Seq<Seq<char>>) -> Option<RequestHeaders> {
    if line.len() > 0 && line[0].len() > 0 && line[0].last() == ':' {
        RequestHeaders::named(line[0].drop_last())
    } else {
        None
    }
}

/// The header map built from tokenized header lines: each recognised line
/// sets its header, a later line overriding an earlier one; other lines are
/// ignored.
pub open spec fn headers_of(lines: Seq<Seq<Seq<char>>>) -> Map<RequestHeaders, Seq<char>>
    decreases lines.len(),
{
    if lines.len() == 0 {
        Map::empty()
    } else {
        let m = headers_of(lines.drop_last());
        match line_header(lines.last()) {
            Some(k) => m.insert(k, header_value(lines.last())),
            None => m,
        }
    }
}

impl RequestHeaders {
    /// The canonical wire token of the header.
    pub open spec fn spec_name(self) -> Seq<char> {
        match self {
            RequestHeaders::Accept => "Accept"@,
            RequestHeaders::AcceptEncoding => "Accept-Encoding"@,
            RequestHeaders::AcceptLanguage => "Accept-Language"@,
            RequestHeaders::UserAgent => "User-Agent"@,
            RequestHeaders::Authorization => "Authorization"@,
            RequestHeaders::ContentType => "Content-Type"@,
            RequestHeaders::Cookie => "Cookie"@,
            RequestHeaders::Connection => "Connection"@,
        }
    }

    /// The first catalog entry, in catalog order, whose token is `s`.
    pub open spec fn named(s: Seq<char>) -> Option<RequestHeaders> {
        if s == RequestHeaders::Accept.spec_name() {
            Some(RequestHeaders::Accept)
        } else if s == RequestHeaders::AcceptEncoding.spec_name() {
            Some(RequestHeaders::AcceptEncoding)
        } else if s == RequestHeaders::AcceptLanguage.spec_name() {
            Some(RequestHeaders::AcceptLanguage)
        } else if s == RequestHeaders::UserAgent.spec_name() {
            Some(RequestHeaders::UserAgent)
        } else if s == RequestHeaders::Authorization.spec_name() {
            Some(RequestHeaders::Authorization)
        } else if s == RequestHeaders::ContentType.spec_name() {
            Some(RequestHeaders::ContentType)
        } else if s == RequestHeaders::Cookie.spec_name() {
            Some(RequestHeaders::Cookie)
        } else if s == RequestHeaders::Connection.spec_name() {
            Some(RequestHeaders::Connection)
        } else {
            None
        }
    }

    /// The position of the header in the catalog.
    pub open spec fn spec_index(self) -> int {
        match self {
            RequestHeaders::Accept => 0,
            RequestHeaders::AcceptEncoding => 1,
            RequestHeaders::AcceptLanguage => 2,
            RequestHeaders::UserAgent => 3,
            RequestHeaders::Authorization => 4,
            RequestHeaders::ContentType => 5,
            RequestHeaders::Cookie => 6,
            RequestHeaders::Connection => 7,
        }
    }

    pub open spec fn spec_headers() -> Seq<RequestHeaders> {
        seq![
            RequestHeaders::Accept,
            RequestHeaders::AcceptEncoding,
            RequestHeaders::AcceptLanguage,
            RequestHeaders::UserAgent,
            RequestHeaders::Authorization,
            RequestHeaders::ContentType,
            RequestHeaders::Cookie,
            RequestHeaders::Connection,
        ]
    }

    pub fn name(&self) -> (r: &'static str)
        ensures
            r@ == self.spec_name(),
    {
        match self {
            RequestHeaders::Accept => "Accept",
            RequestHeaders::AcceptEncoding => "Accept-Encoding",
            RequestHeaders::AcceptLanguage => "Accept-Language",
            RequestHeaders::UserAgent => "User-Agent",
            RequestHeaders::Authorization => "Authorization",
            RequestHeaders::ContentType => "Content-Type",
            RequestHeaders::Cookie => "Cookie",
            RequestHeaders::Connection => "Connection",
        }
    }

    pub fn index(&self) -> (r: usize)
        ensures
            r as int == self.spec_index(),
    {
        match self {
            RequestHeaders::Accept => 0,
            RequestHeaders::AcceptEncoding => 1,
            RequestHeaders::AcceptLanguage => 2,
            RequestHeaders::UserAgent => 3,
            RequestHeaders::Authorization => 4,
            RequestHeaders::ContentType => 5,
            RequestHeaders::Cookie => 6,
            RequestHeaders::Connection => 7,
        }
    }

    /// The catalog, in its fixed order.
    pub fn headers() -> (r: Vec<RequestHeaders>)
        ensures
            r@ == Self::spec_headers(),
    {
        let r = vec![
            RequestHeaders::Accept,
            RequestHeaders::AcceptEncoding,
            RequestHeaders::AcceptLanguage,
            RequestHeaders::UserAgent,
            RequestHeaders::Authorization,
            RequestHeaders::ContentType,
            RequestHeaders::Cookie,
            RequestHeaders::Connection,
        ];
        assert(r@ =~= Self::spec_headers());
        r
    }
}

impl ResponseHeaders {
    /// The canonical wire token of the header.
    pub open spec fn spec_name(self) -> Seq<char> {
        match self {
            ResponseHeaders::ContentType => "Content-Type"@,
            ResponseHeaders::CacheControl => "Cache-Control"@,
            ResponseHeaders::Location => "Location"@,
            ResponseHeaders::SetCookie => "Set-Cookie"@,
            ResponseHeaders::Server => "Server"@,
            ResponseHeaders::Expires => "Expires"@,
            ResponseHeaders::ContentLength => "Content-Length"@,
            ResponseHeaders::LastModified => "Last-Modified"@,
            ResponseHeaders::KeepAlive => "Keep-Alive"@,
        }
    }

    /// The position of the header in the catalog.
    pub open spec fn spec_index(self) -> int {
        match self {
            ResponseHeaders::ContentType => 0,
            ResponseHeaders::CacheControl => 1,
            ResponseHeaders::Location => 2,
            ResponseHeaders::SetCookie => 3,
            ResponseHeaders::Server => 4,
            ResponseHeaders::Expires => 5,
            ResponseHeaders::ContentLength => 6,
            ResponseHeaders::LastModified => 7,
            ResponseHeaders::KeepAlive => 8,
        }
    }

    pub open spec fn spec_headers() -> Seq<ResponseHeaders> {
        seq![
            ResponseHeaders::ContentType,
            ResponseHeaders::CacheControl,
            ResponseHeaders::Location,
            ResponseHeaders::SetCookie,
            ResponseHeaders::Server,
            ResponseHeaders::Expires,
            ResponseHeaders::ContentLength,
            ResponseHeaders::LastModified,
            ResponseHeaders::KeepAlive,
        ]
    }

    pub fn name(&self) -> (r: &'static str)
        ensures
            r@ == self.spec_name(),
    {
        match self {
            ResponseHeaders::ContentType => "Content-Type",
            ResponseHeaders::CacheControl => "Cache-Control",
            ResponseHeaders::Location => "Location",
            ResponseHeaders::SetCookie => "Set-Cookie",
            ResponseHeaders::Server => "Server",
            ResponseHeaders::Expires => "Expires",
            ResponseHeaders::ContentLength => "Content-Length",
            ResponseHeaders::LastModified => "Last-Modified",
            ResponseHeaders::KeepAlive => "Keep-Alive",
        }
    }

    /// The catalog, in its fixed order.
    pub fn headers() -> (r: Vec<ResponseHeaders>)
        ensures
            r@ == Self::spec_headers(),
    {
        let r = vec![
            ResponseHeaders::ContentType,
            ResponseHeaders::CacheControl,
            ResponseHeaders::Location,
            ResponseHeaders::SetCookie,
            ResponseHeaders::Server,
            ResponseHeaders::Expires,
            ResponseHeaders::ContentLength,
            ResponseHeaders::LastModified,
            ResponseHeaders::KeepAlive,
        ];
        assert(r@ =~= Self::spec_headers());
        r
    }

    pub fn index(&self) -> (r: usize)
        ensures
            r as int == self.spec_index(),
    {
        match self {
            ResponseHeaders::ContentType => 0,
            ResponseHeaders::CacheControl => 1,
            ResponseHeaders::Location => 2,
            ResponseHeaders::SetCookie => 3,
            ResponseHeaders::Server => 4,
            ResponseHeaders::Expires => 5,
            ResponseHeaders::ContentLength => 6,
            ResponseHeaders::LastModified => 7,
            ResponseHeaders::KeepAlive => 8,
        }
    }
}

/// A map from request header names to values, one slot per catalog entry.
#[derive(Debug)]
pub struct RequestHeaderMap {
    values: Vec<Option<String>>,
}

impl RequestHeaderMap {
    pub closed spec fn wf(&self) -> bool {
        self.values@.len() == 8
    }

    pub closed spec fn view(&self) -> Map<RequestHeaders, Seq<char>> {
        Map::new(
            |k: RequestHeaders| self.values@[k.spec_index()] is Some,
            |k: RequestHeaders| self.values@[k.spec_index()]->Some_0@,
        )
    }

    pub fn new() -> (r: RequestHeaderMap)
        ensures
            r.wf(),
            r.view() == Map::<RequestHeaders, Seq<char>>::empty(),
    {
        let r = RequestHeaderMap { values: vec![None, None, None, None, None, None, None, None] };
        assert(r.view() =~= Map::<RequestHeaders, Seq<char>>::empty());
        r
    }

    pub fn insert(&mut self, k: RequestHeaders, v: String)
        requires
            old(self).wf(),
        ensures
            final(self).wf(),
            final(self).view() == old(self).view().insert(k, v@),
    {
        let i = k.index();
        self.values.set(i, Some(v));
        assert(self.view() =~= old(self).view().insert(k, v@));
    }

    pub fn get(&self, k: RequestHeaders) -> (r: Option<&str>)
        requires
            self.wf(),
        ensures
            r is Some <==> self.view().contains_key(k),
            r matches Some(s) ==> s@ == self.view()[k],
    {
        match &self.values[k.index()] {
            Some(s) => Some(s.as_str()),
            None => None,
        }
    }
}

/// A map from response header names to values, one slot per catalog entry.
#[derive(Debug)]
pub struct ResponseHeaderMap {
    values: Vec<Option<String>>,
}

impl ResponseHeaderMap {
    pub closed spec fn wf(&self) -> bool {
        self.values@.len() == 9
    }

    pub closed spec fn view(&self) -> Map<ResponseHeaders, Seq<char>> {
        Map::new(
            |k: ResponseHeaders| self.values@[k.spec_index()] is Some,
            |k: ResponseHeaders| self.values@[k.spec_index()]->Some_0@,
        )
    }

    pub fn new() -> (r: ResponseHeaderMap)
        ensures
            r.wf(),
            r.view() == Map::<ResponseHeaders, Seq<char>>::empty(),
    {
        let r = ResponseHeaderMap { values: vec![None, None, None, None, None, None, None, None, None] };
        assert(r.view() =~= Map::<ResponseHeaders, Seq<char>>::empty());
        r
    }

    pub fn insert(&mut self, k: ResponseHeaders, v: String)
        requires
            old(self).wf(),
        ensures
            final(self).wf(),
            final(self).view() == old(self).view().insert(k, v@),
    {
        let i = k.index();
        self.values.set(i, Some(v));
        assert(self.view() =~= old(self).view().insert(k, v@));
    }

    pub fn get(&self, k: ResponseHeaders) -> (r: Option<&str>)
        requires
            self.wf(),
        ensures
            r is Some <==> self.view().contains_key(k),
            r matches Some(s) ==> s@ == self.view()[k],
    {
        match &self.values[k.index()] {
            Some(s) => Some(s.as_str()),
            None => None,
        }
    }
}

/// The character view of one tokenized line.
pub open spec fn tokens_view(line: Seq<String>) -> Seq<Seq<char>> {
    line.map_values(|t: String| t@)
}

/// The character view of a sequence of tokenized lines.
pub open spec fn lines_view(lines: Seq<Vec<String>>) -> Seq<Seq<Seq<char>>> {
    lines.map_values(|l: Vec<String>| tokens_view(l@))
}

impl RequestHeaders {
    proof fn lemma_named_first(s: Seq<char>, j: int)
        requires
            0 <= j < 8,
            Self::spec_headers()[j].spec_name() == s,
            forall|i: int| 0 <= i < j ==> Self::spec_headers()[i].spec_name() != s,
        ensures
            Self::named(s) == Some(Self::spec_headers()[j]),
    {
        let c = Self::spec_headers();
        assert(j > 0 ==> c[0].spec_name() != s);
        assert(j > 1 ==> c[1].spec_name() != s);
        assert(j > 2 ==> c[2].spec_name() != s);
        assert(j > 3 ==> c[3].spec_name() != s);
        assert(j > 4 ==> c[4].spec_name() != s);
        assert(j > 5 ==> c[5].spec_name() != s);
        assert(j > 6 ==> c[6].spec_name() != s);
    }

    /// The header named by a tokenized line, if any.
    fn line_name(line: &Vec<String>) -> (r: Option<RequestHeaders>)
        ensures
            r == line_header(tokens_view(line@)),
    {
        if line.len() == 0 {
            return None;
        }
        let first = line[0].as_str();
        let n = first.unicode_len();
        assert(tokens_view(line@)[0] == first@);
        if n == 0 || first.get_char(n - 1) != ':' {
            return None;
        }
        let name = first.substring_char(0, n - 1);
        assert(name@ =~= tokens_view(line@)[0].drop_last());
        let cat = Self::headers();
        let mut j: usize = 0;
        assert(line_header(tokens_view(line@)) == Self::named(name@));
        while j < cat.len()
            invariant
                line_header(tokens_view(line@)) == Self::named(name@),
                cat@ == Self::spec_headers(),
                j <= cat@.len(),
                forall|i: int| 0 <= i < j ==> cat@[i].spec_name() != name@,
            decreases cat@.len() - j,
        {
            if str_eq(cat[j].name(), name) {
                proof {
                    Self::lemma_named_first(name@, j as int);
                }
                return Some(cat[j]);
            }
            j = j + 1;
        }
        None
    }

    /// Every token of a line after the first, joined with no separator.
    fn line_value(line: &Vec<String>) -> (r: String)
        requires
            line@.len() > 0,
        ensures
            r@ == header_value(tokens_view(line@)),
    {
        let ghost toks = tokens_view(line@);
        let mut value = String::new();
        let mut j: usize = 1;
        while j < line.len()
            invariant
                toks == tokens_view(line@),
                1 <= j <= line@.len(),
                value@ == concat(toks.subrange(1, j as int)),
            decreases line@.len() - j,
        {
            value.append(line[j].as_str());
            proof {
                assert(toks.subrange(1, j + 1).drop_last() =~= toks.subrange(1, j as int));
            }
            j = j + 1;
        }
        assert(toks.skip(1) =~= toks.subrange(1, line@.len() as int));
        value
    }

    /// Builds the header map of a request from its tokenized header lines.
    /// A line sets the header that its first token names (the token without
    /// its trailing colon); its value is the remaining tokens joined without
    /// separators. Lines naming no supported header are dropped, and a later
    /// line for a header replaces an earlier one.
    pub fn validate(arr: Vec<Vec<String>>) -> (r: RequestHeaderMap)
        ensures
            r.wf(),
            r.view() == headers_of(lines_view(arr@)),
    {
        let ghost lines = lines_view(arr@);
        let mut map = RequestHeaderMap::new();
        let mut i: usize = 0;
        while i < arr.len()
            invariant
                lines == lines_view(arr@),
                i <= arr@.len(),
                map.wf(),
                map.view() == headers_of(lines.take(i as int)),
            decreases arr@.len() - i,
        {
            let line = &arr[i];
            proof {
                assert(lines.take(i + 1).drop_last() =~= lines.take(i as int));
                assert(lines.take(i + 1).last() == tokens_view(line@));
            }
            match Self::line_name(line) {
                Some(k) => {
                    let v = Self::line_value(line);
                    map.insert(k, v);
                },
                None => {},
            }
            i = i + 1;
        }
        assert(lines.take(arr@.len() as int) =~= lines);
        map
    }
}

/// A header line whose first token, without its colon, names a catalog
/// header sets that header to the rest of the line's tokens joined with no
/// separator, unless a later line sets the same header.
pub proof fn lemma_line_sets_header(lines: Seq<Seq<Seq<char>>>, i: int, k: RequestHeaders)
    requires
        0 <= i < lines.len(),
        line_header(lines[i]) == Some(k),
        forall|j: int| i < j < lines.len() ==> line_header(#[trigger] lines[j]) != Some(k),
    ensures
        headers_of(lines).contains_key(k),
        headers_of(lines)[k] == header_value(lines[i]),
    decreases lines.len(),
{
    if i < lines.len() - 1 {
        let init = lines.drop_last();
        assert forall|j: int| i < j < init.len() implies line_header(#[trigger] init[j]) != Some(
            k,
        ) by {
            assert(init[j] == lines[j]);
        }
        lemma_line_sets_header(init, i, k);
        assert(line_header(lines[lines.len() - 1]) != Some(k));
    }
}

} // verus!
