use vstd::prelude::*;

verus! {

/// Paging information of a reply: the total count, the page, and the page
/// size.
#[derive(Debug, Clone)]
pub struct ResponseMeta {
    pub total: u64,
    pub page: u64,
    pub per_page: u64,
}

/// The envelope of a reply: a status ("success" or "error"), a message, the
/// data, and paging information if any.
#[derive(Debug, Clone)]
pub struct ApiResponse<T> {
    pub status: String,
    pub message: String,
    pub data: T,
    pub meta: Option<ResponseMeta>,
}

impl<T> ApiResponse<T> {
    pub fn new(status: String, message: String, data: T, meta: Option<ResponseMeta>) -> (r: Self)
        ensures
            r == (ApiResponse { status, message, data, meta }),
    {
        ApiResponse { status, message, data, meta }
    }

    /// A successful reply with a message.
    pub fn success(message: &str, data: T) -> (r: Self)
        ensures
            r.status@ == "success"@,
            r.message@ == message@,
            r.data == data,
            r.meta is None,
    {
        ApiResponse { status: String::from_str("success"), message: String::from_str(message), data, meta: None }
    }

    /// A successful reply with paging information, whose message is "Success".
    pub fn success_with_meta(data: T, meta: ResponseMeta) -> (r: Self)
        ensures
            r.status@ == "success"@,
            r.message@ == "Success"@,
            r.data == data,
            r.meta == Some(meta),
    {
        ApiResponse {
            status: String::from_str("success"),
            message: String::from_str("Success"),
            data,
            meta: Some(meta),
        }
    }

    /// An error reply with a message.
    pub fn error(message: &str, data: T) -> (r: Self)
        ensures
            r.status@ == "error"@,
            r.message@ == message@,
            r.data == data,
            r.meta is None,
    {
        ApiResponse { status: String::from_str("error"), message: String::from_str(message), data, meta: None }
    }

    /// The reply to a creation.
    pub fn created(message: &str, data: T) -> (r: Self)
        ensures
            r.status@ == "success"@,
            r.message@ == message@,
            r.data == data,
            r.meta is None,
    {
        ApiResponse { status: String::from_str("success"), message: String::from_str(message), data, meta: None }
    }

    /// A reply without content, whose message is "No content".
    pub fn no_content(data: T) -> (r: Self)
        ensures
            r.status@ == "success"@,
            r.message@ == "No content"@,
            r.data == data,
            r.meta is None,
    {
        ApiResponse {
            status: String::from_str("success"),
            message: String::from_str("No content"),
            data,
            meta: None,
        }
    }
}

/// A successful reply whose message is "Success".
pub fn ok<T>(data: T) -> (r: ApiResponse<T>)
    ensures
        r.status@ == "success"@,
        r.message@ == "Success"@,
        r.data == data,
        r.meta is None,
{
    ApiResponse::success("Success", data)
}

/// The reply to a creation, whose message is "Created successfully".
pub fn created<T>(data: T) -> (r: ApiResponse<T>)
    ensures
        r.status@ == "success"@,
        r.message@ == "Created successfully"@,
        r.data == data,
        r.meta is None,
{
    ApiResponse::created("Created successfully", data)
}

/// A successful page of a listing.
pub fn paginated<T>(data: T, page: u64, per_page: u64, total: u64) -> (r: ApiResponse<T>)
    ensures
        r.status@ == "success"@,
        r.message@ == "Success"@,
        r.data == data,
        r.meta == Some(ResponseMeta { total, page, per_page }),
{
    let meta = ResponseMeta { total, page, per_page };
    ApiResponse::success_with_meta(data, meta)
}

} // verus!
