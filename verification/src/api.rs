//! Decisions of the local HTTP API: how a request's account is found, and which
//! status each kind of failure is answered with.
use vstd::prelude::*;
use crate::account_store::{has_id, index_of, StoreError};
use crate::data_store::DataStore;
use crate::ids::{parse_uuid, uuid_parse};
use crate::model::Account;

verus! {

/// Default value of a boolean query flag that is on unless the caller turns it off.
pub fn default_true() -> (b: bool)
    ensures
        b,
{
    true
}

/// A failed API request, with the message for the response body.
#[derive(Debug)]
pub enum ApiError {
    NotFound(String),
    BadRequest(String),
    Internal(String),
}

impl ApiError {
    /// The HTTP status the failure is answered with: 404, 400 or 500.
    pub fn status_code(&self) -> (code: u16)
        ensures
            self is NotFound ==> code == 404,
            self is BadRequest ==> code == 400,
            self is Internal ==> code == 500,
    {
        match self {
            ApiError::NotFound(_) => 404,
            ApiError::BadRequest(_) => 400,
            ApiError::Internal(_) => 500,
        }
    }

    /// The message of the response body.
    pub fn message(&self) -> (m: &String)
        ensures
            self matches ApiError::NotFound(x) ==> m == x,
            self matches ApiError::BadRequest(x) ==> m == x,
            self matches ApiError::Internal(x) ==> m == x,
    {
        match self {
            ApiError::NotFound(m) => m,
            ApiError::BadRequest(m) => m,
            ApiError::Internal(m) => m,
        }
    }
}

/// Why the account of a request could not be found.
#[derive(Debug)]
pub enum LookupError {
    /// The path segment is not a UUID.
    InvalidUuid,
    /// No account has the UUID; the store's refusal is given.
    NotFound(StoreError),
}

impl LookupError {
    /// The kind of API failure it is answered with: a bad request for a text that is
    /// not a UUID, not found otherwise. `message` is the response body's text.
    pub fn into_api_error(self, message: String) -> (e: ApiError)
        ensures
            self is InvalidUuid ==> e == ApiError::BadRequest(message),
            self is NotFound ==> e == ApiError::NotFound(message),
    {
        match self {
            LookupError::InvalidUuid => ApiError::BadRequest(message),
            LookupError::NotFound(_) => ApiError::NotFound(message),
        }
    }
}

impl DataStore {
    /// The account a request names by the text `id`: refused when the text is not a
    /// UUID, or no account has that UUID.
    pub fn account_by_text_id(&self, id: &str) -> (r: Result<Account, LookupError>)
        requires
            self.wf(),
        ensures
            uuid_parse(id@) is None ==> (r matches Err(e) && e is InvalidUuid),
            uuid_parse(id@) matches Some(k) ==> {
                &&& r is Ok <==> has_id(self.account_store@, k)
                &&& r matches Ok(a) ==> a@ == self.account_store@[index_of(self.account_store@, k)]
                &&& r matches Err(e) ==> e is NotFound
            },
    {
        match parse_uuid(id) {
            None => Err(LookupError::InvalidUuid),
            Some(k) => match self.get_account(k) {
                Ok(a) => Ok(a),
                Err(e) => Err(LookupError::NotFound(e)),
            },
        }
    }
}

} // verus!
