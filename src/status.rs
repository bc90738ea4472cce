use vstd::prelude::*;

verus! {

/// The status codes a response can carry.
#[derive(Clone, Copy, Debug, Default, PartialEq, Eq, Hash, Structural)]
pub enum HttpStatusCode {
    #[default]
    OK,
    BadRequest,
    NotFound,
}

impl HttpStatusCode {
    pub open spec fn spec_code(self) -> u16 {
        match self {
            HttpStatusCode::OK => 200,
            HttpStatusCode::BadRequest => 400,
            HttpStatusCode::NotFound => 404,
        }
    }

    /// The decimal digits of the code, as written on the wire.
    pub open spec fn spec_code_text(self) -> Seq<char> {
        match self {
            HttpStatusCode::OK => "200"@,
            HttpStatusCode::BadRequest => "400"@,
            HttpStatusCode::NotFound => "404"@,
        }
    }

    /// The numeric wire code.
    pub fn code(&self) -> (r: u16)
        ensures
            r == self.spec_code(),
    {
        match self {
            HttpStatusCode::OK => 200,
            HttpStatusCode::BadRequest => 400,
            HttpStatusCode::NotFound => 404,
        }
    }

    pub fn code_text(&self) -> (r: &'static str)
        ensures
            r@ == self.spec_code_text(),
    {
        match self {
            HttpStatusCode::OK => "200",
            HttpStatusCode::BadRequest => "400",
            HttpStatusCode::NotFound => "404",
        }
    }
}

} // verus!
