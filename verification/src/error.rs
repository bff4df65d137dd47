//! Errors of the services and the HTTP status that answers each.
use vstd::prelude::*;
use crate::text::concat;

verus! {

/// An error of a service request. Where the cause is an error of another
/// library (database, I/O, encoding), the variant holds its message.
#[derive(Clone, Debug, PartialEq, Eq)]
pub enum Error {
    GeometryFormatError,
    DatasourceSetupError(String),
    DatasourceNotFound(String),
    DbError(String),
    QueryParams,
    InvalidCollection,
    HtmlTemplate,
    NodeNotFound,
    NoRouteFound,
    ArgumentError(String),
    IoError(String),
    BincodeError(String),
}

/// The HTTP status that answers an error: a malformed request is a bad
/// request, an unknown collection is not found, anything else is an
/// internal error.
pub open spec fn status_of(e: Error) -> u16 {
    match e {
        Error::QueryParams | Error::GeometryFormatError => 400,
        Error::InvalidCollection => 404,
        _ => 500,
    }
}

/// The message of an error.
pub open spec fn error_message(e: Error) -> Seq<char> {
    match e {
        Error::GeometryFormatError => "Geometry format error"@,
        Error::DatasourceSetupError(s) => "datasource setup error - "@ + s@,
        Error::DatasourceNotFound(s) => "datasource `"@ + s@ + "` not found"@,
        Error::DbError(s) => s@,
        Error::QueryParams => "Query parameters error"@,
        Error::InvalidCollection => "Invalid collection"@,
        Error::HtmlTemplate => "HTML Templating"@,
        Error::NodeNotFound => "No node found"@,
        Error::NoRouteFound => "No route found"@,
        Error::ArgumentError(s) => "Argument error `"@ + s@ + "`"@,
        Error::IoError(s) => s@,
        Error::BincodeError(_) => "Bincode error"@,
    }
}

/// Only a malformed query or geometry is a bad request (400), only an
/// unknown collection is not found (404), and every other error, an I/O or
/// database error among them, is an internal error (500).
pub proof fn law_status_classes(e: Error)
    ensures
        status_of(e) == 400 <==> (e is QueryParams || e is GeometryFormatError),
        status_of(e) == 404 <==> e is InvalidCollection,
        !(e is QueryParams || e is GeometryFormatError || e is InvalidCollection) ==> status_of(e) == 500,
{
}

impl Error {
    /// The HTTP status code that answers this error.
    pub fn status_code(&self) -> (r: u16)
        ensures
            r == status_of(*self),
            r == 400 <==> (*self is QueryParams || *self is GeometryFormatError),
            r == 404 <==> *self is InvalidCollection,
            r == 400 || r == 404 || r == 500,
    {
        match self {
            Error::QueryParams | Error::GeometryFormatError => 400,
            Error::InvalidCollection => 404,
            Error::HtmlTemplate => 500,
            _ => 500,
        }
    }

    /// The message of this error.
    pub fn message(&self) -> (r: String)
        ensures
            r@ == error_message(*self),
    {
        match self {
            Error::GeometryFormatError => "Geometry format error".to_owned(),
            Error::DatasourceSetupError(s) => concat("datasource setup error - ", s.as_str()),
            Error::DatasourceNotFound(s) => {
                let r = concat("datasource `", s.as_str());
                concat(r.as_str(), "` not found")
            },
            Error::DbError(s) => s.clone(),
            Error::QueryParams => "Query parameters error".to_owned(),
            Error::InvalidCollection => "Invalid collection".to_owned(),
            Error::HtmlTemplate => "HTML Templating".to_owned(),
            Error::NodeNotFound => "No node found".to_owned(),
            Error::NoRouteFound => "No route found".to_owned(),
            Error::ArgumentError(s) => {
                let r = concat("Argument error `", s.as_str());
                concat(r.as_str(), "`")
            },
            Error::IoError(s) => s.clone(),
            Error::BincodeError(_) => "Bincode error".to_owned(),
        }
    }
}

} // verus!
