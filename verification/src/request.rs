//! The request for the stages of an operation.
use vstd::prelude::*;

verus! {

/// Where the stages are asked for.
pub const STAGE_PROFILING_URL: &'static str = "https://data.turin.tac.build/stage-profiling";

/// The media type of the request and of the reply.
pub const JSON_MEDIA_TYPE: &'static str = "application/json";

/// The field of the request that lists the operations.
pub const OPERATION_IDS: &'static str = "operationIds";

/// A request, to be posted.
#[derive(Debug, PartialEq, Eq)]
pub struct StageProfilingRequest {
    pub url: String,
    /// The `accept` header.
    pub accept: String,
    /// The `Content-Type` header.
    pub content_type: String,
    pub body: String,
}

/// What a request says.
pub ghost struct RequestView {
    pub url: Seq<char>,
    pub accept: Seq<char>,
    pub content_type: Seq<char>,
    pub body: Seq<char>,
}

impl View for StageProfilingRequest {
    type V = RequestView;

    open spec fn view(&self) -> RequestView {
        RequestView {
            url: self.url@,
            accept: self.accept@,
            content_type: self.content_type@,
            body: self.body@,
        }
    }
}

/// The text that the `Display` of `serde_json::Value` writes for an object whose one field `key`
/// lists the one string `item`.
pub uninterp spec fn list_object_text(key: Seq<char>, item: Seq<char>) -> Seq<char>;

/// Calls the `Display` of `serde_json::Value` on an object whose one field `key` lists the one
/// string `item`. Claimed of it: the text depends on the two strings alone.
#[verifier::external_body]
fn write_list_object(key: &str, item: &str) -> (text: String)
    ensures
        text@ == list_object_text(key@, item@),
{
    let mut object = serde_json::Map::new();
    object.insert(key.to_string(), serde_json::Value::from(vec![item]));
    serde_json::Value::Object(object).to_string()
}

impl RequestView {
    /// The request for the stages of one operation.
    pub open spec fn for_operation(id: Seq<char>) -> RequestView {
        RequestView::with_body(list_object_text(OPERATION_IDS@, id))
    }

    /// The request with this body.
    pub open spec fn with_body(body: Seq<char>) -> RequestView {
        RequestView {
            url: STAGE_PROFILING_URL@,
            accept: JSON_MEDIA_TYPE@,
            content_type: JSON_MEDIA_TYPE@,
            body,
        }
    }
}

impl StageProfilingRequest {
    /// Builds the request with this body.
    pub fn with_body(body: String) -> (request: StageProfilingRequest)
        ensures
            request@ == RequestView::with_body(body@),
    {
        StageProfilingRequest {
            url: STAGE_PROFILING_URL.to_owned(),
            accept: JSON_MEDIA_TYPE.to_owned(),
            content_type: JSON_MEDIA_TYPE.to_owned(),
            body,
        }
    }

    /// Builds the request for the stages of one operation.
    pub fn for_operation(id: &str) -> (request: StageProfilingRequest)
        ensures
            request@ == RequestView::for_operation(id@),
    {
        StageProfilingRequest::with_body(write_list_object(OPERATION_IDS, id))
    }
}

/// Whether an HTTP status reports success: it lies in the two hundreds.
pub open spec fn reports_success(status: u16) -> bool {
    200 <= status < 300
}

/// Tells whether an HTTP status reports success.
pub fn is_success(status: u16) -> (r: bool)
    ensures
        r == reports_success(status),
{
    200 <= status && status < 300
}

/// A status reports success exactly if its first of three digits is a two.
pub proof fn law_success_is_told_by_the_first_digit(status: u16)
    ensures
        reports_success(status) <==> status / 100 == 2,
{
}

/// Whatever the operation, the request for its stages goes to the same place, in JSON both ways,
/// and its body lists the id of that operation.
pub proof fn law_request_lists_the_operation(id: Seq<char>)
    ensures
        ({
            let request = RequestView::for_operation(id);
            &&& request.url == "https://data.turin.tac.build/stage-profiling"@
            &&& request.accept == "application/json"@
            &&& request.content_type == "application/json"@
            &&& request.body == list_object_text("operationIds"@, id)
        }),
{
}

/// A request differs from another in its body alone.
pub proof fn law_requests_differ_in_their_bodies(one: Seq<char>, other: Seq<char>)
    ensures
        RequestView::with_body(one).body == one,
        RequestView::with_body(one) == (RequestView { body: one, ..RequestView::with_body(other) }),
{
}

/// What a request says is what stands in its fields.
pub proof fn law_request_is_read_field_by_field(request: StageProfilingRequest)
    ensures
        request@.url == request.url@,
        request@.accept == request.accept@,
        request@.content_type == request.content_type@,
        request@.body == request.body@,
{
}

} // verus!
