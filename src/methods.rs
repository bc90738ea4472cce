use vstd::prelude::*;

use crate::text::str_eq;

verus! {

/// The request methods this server accepts.
#[derive(Clone, Copy, Debug, Default, PartialEq, Eq, Hash, Structural)]
pub enum HttpMethod {
    #[default]
    GET,
    HEAD,
    POST,
    PUT,
    DELETE,
    CONNECT,
    OPTIONS,
    TRACE,
    PATCH,
}

/// A token that names no supported method.
#[derive(Clone, Copy, Debug, PartialEq, Eq, Structural)]
pub enum InvalidMethod {
    Invalid,
}

impl HttpMethod {
    /// The canonical wire token of the method.
    pub open spec fn spec_name(self) -> Seq<char> {
        match self {
            HttpMethod::GET => "GET"@,
            HttpMethod::HEAD => "HEAD"@,
            HttpMethod::POST => "POST"@,
            HttpMethod::PUT => "PUT"@,
            HttpMethod::DELETE => "DELETE"@,
            HttpMethod::CONNECT => "CONNECT"@,
            HttpMethod::OPTIONS => "OPTIONS"@,
            HttpMethod::TRACE => "TRACE"@,
            HttpMethod::PATCH => "PATCH"@,
        }
    }

    pub fn name(&self) -> (r: &'static str)
        ensures
            r@ == self.spec_name(),
    {
        match self {
            HttpMethod::GET => "GET",
            HttpMethod::HEAD => "HEAD",
            HttpMethod::POST => "POST",
            HttpMethod::PUT => "PUT",
            HttpMethod::DELETE => "DELETE",
            HttpMethod::CONNECT => "CONNECT",
            HttpMethod::OPTIONS => "OPTIONS",
            HttpMethod::TRACE => "TRACE",
            HttpMethod::PATCH => "PATCH",
        }
    }
    /// The catalog, in its fixed order.
    pub open spec fn spec_methods() -> Seq<HttpMethod> {
        seq![
            HttpMethod::GET,
            HttpMethod::HEAD,
            HttpMethod::POST,
            HttpMethod::PUT,
            HttpMethod::DELETE,
            HttpMethod::CONNECT,
            HttpMethod::OPTIONS,
            HttpMethod::TRACE,
            HttpMethod::PATCH,
        ]
    }

    /// Whether `s` is the wire token of some supported method.
    pub open spec fn is_method_name(s: Seq<char>) -> bool {
        exists|m: HttpMethod| #[trigger] m.spec_name() == s
    }

    pub proof fn lemma_catalog_complete(m: HttpMethod)
        ensures
            Self::spec_methods().contains(m),
    {
        let c = Self::spec_methods();
        match m {
            HttpMethod::GET => assert(c[0] == m),
            HttpMethod::HEAD => assert(c[1] == m),
            HttpMethod::POST => assert(c[2] == m),
            HttpMethod::PUT => assert(c[3] == m),
            HttpMethod::DELETE => assert(c[4] == m),
            HttpMethod::CONNECT => assert(c[5] == m),
            HttpMethod::OPTIONS => assert(c[6] == m),
            HttpMethod::TRACE => assert(c[7] == m),
            HttpMethod::PATCH => assert(c[8] == m),
        }
    }

    pub fn methods() -> (r: Vec<HttpMethod>)
        ensures
            r@ == Self::spec_methods(),
    {
        let r = vec![
            HttpMethod::GET,
            HttpMethod::HEAD,
            HttpMethod::POST,
            HttpMethod::PUT,
            HttpMethod::DELETE,
            HttpMethod::CONNECT,
            HttpMethod::OPTIONS,
            HttpMethod::TRACE,
            HttpMethod::PATCH,
        ];
        assert(r@ =~= Self::spec_methods());
        r
    }

    /// Accepts `value` unchanged when it is exactly (case included) the token of
    /// a supported method.
    pub fn validate(value: &str) -> (r: Result<String, InvalidMethod>)
        ensures
            r is Ok <==> Self::is_method_name(value@),
            r matches Ok(s) ==> s@ == value@,
    {
        let methods = Self::methods();
        let mut i: usize = 0;
        while i < methods.len()
            invariant
                methods@ == Self::spec_methods(),
                i <= methods@.len(),
                forall|j: int| 0 <= j < i ==> methods@[j].spec_name() != value@,
            decreases methods@.len() - i,
        {
            if str_eq(methods[i].name(), value) {
                return Ok(value.to_owned());
            }
            i = i + 1;
        }
        proof {
            assert forall|m: HttpMethod| m.spec_name() != value@ by {
                Self::lemma_catalog_complete(m);
            }
        }
        Err(InvalidMethod::Invalid)
    }
}

} // verus!
