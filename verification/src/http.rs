//! The HTTP transport adapter: a GET decodes the raw query string under
//! URL-encoded-form rules; every other method takes the request from the
//! parsed body. Either failure is a `BadRequest` rejection.

use vstd::prelude::*;
use crate::args::string_of;

verus! {

broadcast use vstd::std_specs::vec::group_vec_axioms, vstd::seq::group_seq_axioms;

/// The key-value pairs a URL-encoded-form string decodes to, or nothing
/// when it is rejected.
pub uninterp spec fn form_decoded(s: Seq<char>) -> Option<Seq<(Seq<char>, Seq<char>)>>;

/// Relies on `serde_urlencoded::from_str` deserializing into a sequence of
/// string pairs: it decodes an `application/x-www-form-urlencoded` string
/// into its key-value pairs, and the result depends on the input
/// characters alone.
#[verifier::external_body]
fn decode_form_pairs(s: &str) -> (r: Option<Vec<(String, String)>>)
    ensures
        match r {
            Some(pairs) => form_decoded(s@) == Some(
                pairs@.map_values(|p: (String, String)| (p.0@, p.1@)),
            ),
            None => form_decoded(s@) is None,
        },
{
    serde_urlencoded::from_str::<Vec<(String, String)>>(s).ok()
}

/// A transport-level rejection: the request never reaches execution.
#[derive(Debug)]
pub struct BadRequest(pub String);

/// A GraphQL request as the transport hands it to execution: the query
/// document text, the optional operation name, and the raw variables text.
#[derive(Debug)]
pub struct Request {
    pub query: String,
    pub operation_name: Option<String>,
    pub variables: Option<String>,
}

/// The mathematical shape of a request.
pub struct RequestModel {
    pub query: Seq<char>,
    pub operation_name: Option<Seq<char>>,
    pub variables: Option<Seq<char>>,
}

/// The model of a request value.
pub open spec fn request_model(r: Request) -> RequestModel {
    RequestModel {
        query: r.query@,
        operation_name: match r.operation_name {
            Some(s) => Some(s@),
            None => None,
        },
        variables: match r.variables {
            Some(s) => Some(s@),
            None => None,
        },
    }
}

/// The first value recorded under a key, if any.
pub open spec fn pair_lookup(pairs: Seq<(Seq<char>, Seq<char>)>, key: Seq<char>) -> Option<
    Seq<char>,
>
    decreases pairs.len(),
{
    if pairs.len() == 0 {
        None
    } else if pairs[0].0 == key {
        Some(pairs[0].1)
    } else {
        pair_lookup(pairs.skip(1), key)
    }
}

/// The request the decoded pairs describe: the query text is required,
/// the operation name and the variables text are optional.
pub open spec fn request_of_pairs(pairs: Seq<(Seq<char>, Seq<char>)>) -> Option<RequestModel> {
    match pair_lookup(pairs, "query"@) {
        Some(q) => Some(
            RequestModel {
                query: q,
                operation_name: pair_lookup(pairs, "operationName"@),
                variables: pair_lookup(pairs, "variables"@),
            },
        ),
        None => None,
    }
}

/// What a GET's raw query string decodes to, if it is accepted.
pub open spec fn get_decoded_request(raw_query: Seq<char>) -> Option<RequestModel> {
    match form_decoded(raw_query) {
        Some(pairs) => request_of_pairs(pairs),
        None => None,
    }
}

/// Looks a decoded key up; the first pair wins.
#[verifier::loop_isolation(false)]
fn find_pair<'a>(pairs: &'a Vec<(String, String)>, key: &String) -> (r: Option<&'a String>)
    ensures
        match r {
            Some(v) => pair_lookup(
                pairs@.map_values(|p: (String, String)| (p.0@, p.1@)),
                key@,
            ) == Some(v@),
            None => pair_lookup(pairs@.map_values(|p: (String, String)| (p.0@, p.1@)), key@)
                is None,
        },
{
    let ghost m = pairs@.map_values(|p: (String, String)| (p.0@, p.1@));
    proof {
        assert(m.skip(0) =~= m);
    }
    let mut i: usize = 0;
    while i < pairs.len()
        invariant
            i <= pairs@.len(),
            pair_lookup(m, key@) == pair_lookup(m.skip(i as int), key@),
        decreases pairs@.len() - i,
    {
        if pairs[i].0 == *key {
            proof {
                assert(m.skip(i as int)[0] == m[i as int]);
            }
            return Some(&pairs[i].1);
        }
        proof {
            assert(m.skip(i as int)[0] == m[i as int]);
            assert(m.skip(i as int).skip(1) =~= m.skip(i as int + 1));
        }
        i = i + 1;
    }
    proof {
        assert(m.skip(i as int).len() == 0);
    }
    None
}

/// Decodes a GET's raw query string into a request. A string the form
/// decoder rejects, or one without a `query` key, is a `BadRequest`.
pub fn request_from_query_string(raw: &str) -> (r: Result<Request, BadRequest>)
    ensures
        match r {
            Ok(req) => get_decoded_request(raw@) == Some(request_model(req)),
            Err(_) => get_decoded_request(raw@) is None,
        },
{
    match decode_form_pairs(raw) {
        Some(pairs) => {
            let query_key: String = string_of("query");
            let op_key: String = string_of("operationName");
            let vars_key: String = string_of("variables");
            match find_pair(&pairs, &query_key) {
                Some(q) => {
                    let query = q.clone();
                    let operation_name = match find_pair(&pairs, &op_key) {
                        Some(v) => Some(v.clone()),
                        None => None,
                    };
                    let variables = match find_pair(&pairs, &vars_key) {
                        Some(v) => Some(v.clone()),
                        None => None,
                    };
                    Result::Ok(Request { query, operation_name, variables })
                },
                None => Result::Err(
                    BadRequest(string_of("the query string names no query document")),
                ),
            }
        },
        None => Result::Err(BadRequest(string_of("the query string is not a well-formed form"))),
    }
}

/// The request method, as far as transport dispatch cares: only GET
/// receives query-string treatment.
#[derive(PartialEq, Eq, Structural, Clone, Copy, Debug)]
pub enum HttpMethod {
    Get,
    Post,
    Other,
}

/// The binary transport branch: a GET's request comes from the query
/// string, any other method's from the parsed body.
pub open spec fn dispatch_model(
    method: HttpMethod,
    raw_query: Seq<char>,
    body: Option<RequestModel>,
) -> Option<RequestModel> {
    if method is Get {
        get_decoded_request(raw_query)
    } else {
        body
    }
}

/// Builds the request of one HTTP call. For a GET the raw query string is
/// decoded; for every other method the body parser's outcome is taken as
/// is, its failure text surfacing as a `BadRequest`. No method other than
/// GET receives query-string treatment.
pub fn http_dispatch(method: HttpMethod, raw_query: &str, body_outcome: Result<Request, String>)
    -> (r: Result<Request, BadRequest>)
    ensures
        match r {
            Ok(req) => dispatch_model(method, raw_query@, body_model(body_outcome)) == Some(
                request_model(req),
            ),
            Err(_) => dispatch_model(method, raw_query@, body_model(body_outcome)) is None,
        },
{
    match method {
        HttpMethod::Get => request_from_query_string(raw_query),
        _ => {
            match body_outcome {
                Result::Ok(req) => Result::Ok(req),
                Result::Err(msg) => Result::Err(BadRequest(msg)),
            }
        },
    }
}

/// The model of the body parser's outcome.
pub open spec fn body_model(body_outcome: Result<Request, String>) -> Option<RequestModel> {
    match body_outcome {
        Ok(req) => Some(request_model(req)),
        Err(_) => None,
    }
}

/// A GET whose query string decodes to the very request the POST body
/// parses to hands execution the identical request. Every later stage —
/// execution and response building — is a function of that request, so
/// the two transports' `{data, errors}` bodies coincide byte for byte.
pub proof fn lemma_get_post_equivalence(raw_query: Seq<char>, body: Option<RequestModel>)
    requires
        get_decoded_request(raw_query) == body,
    ensures
        dispatch_model(HttpMethod::Get, raw_query, body) == dispatch_model(
            HttpMethod::Post,
            raw_query,
            body,
        ),
{
}

} // verus!
