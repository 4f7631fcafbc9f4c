//! The response builder: wraps a completed execution result as a JSON
//! reply, attaching a `cache-control` header exactly when the result is
//! error-free and the merged per-field policy names a max-age.

use vstd::prelude::*;
use vstd::string::StringExecFns;
use crate::json::{dec_text, json_text, json_to_text, json_model, u64_to_string, Json, JsonModel};
use crate::error::{ErrorKind, GqlError};

verus! {

broadcast use vstd::std_specs::vec::group_vec_axioms, vstd::seq::group_seq_axioms;

/// The per-field cache-control policy; a `max_age` of zero means the field
/// states no policy.
#[derive(PartialEq, Eq, Structural, Clone, Copy, Debug)]
pub struct CacheControl {
    pub public: bool,
    pub max_age: u64,
}

/// The merge of two policies: the most constraining wins — a response is
/// private as soon as one field is, and cacheable no longer than its
/// shortest-lived field (a field without a policy does not constrain).
pub open spec fn merged_age(a: u64, b: u64) -> u64 {
    if a == 0 {
        b
    } else if b == 0 {
        a
    } else if a <= b {
        a
    } else {
        b
    }
}

/// The header value a policy asks for, if any.
pub open spec fn cache_header_value(cc: CacheControl) -> Option<Seq<char>> {
    if cc.max_age == 0 {
        None
    } else if cc.public {
        Some("max-age="@ + dec_text(cc.max_age as nat))
    } else {
        Some("max-age="@ + dec_text(cc.max_age as nat) + ", private"@)
    }
}

impl CacheControl {
    /// A field without a stated policy.
    pub fn unset() -> (r: CacheControl)
        ensures
            r.public == true,
            r.max_age == 0,
    {
        CacheControl { public: true, max_age: 0 }
    }

    /// Folds another field's policy into this one.
    pub fn merge(&mut self, other: &CacheControl)
        ensures
            final(self).public == (old(self).public && other.public),
            final(self).max_age == merged_age(old(self).max_age, other.max_age),
    {
        self.public = self.public && other.public;
        if self.max_age == 0 {
            self.max_age = other.max_age;
        } else if other.max_age != 0 && other.max_age < self.max_age {
            self.max_age = other.max_age;
        }
    }

    /// The `cache-control` header value, when the merged policy states one.
    pub fn value(&self) -> (r: Option<String>)
        ensures
            match r {
                Some(s) => cache_header_value(*self) == Some(s@),
                None => cache_header_value(*self) is None,
            },
    {
        if self.max_age == 0 {
            None
        } else {
            let mut s: String = "max-age=".to_owned();
            let digits = u64_to_string(self.max_age);
            s.append(digits.as_str());
            if !self.public {
                s.append(", private");
            }
            Some(s)
        }
    }
}

/// A completed, non-streaming execution result.
pub struct ExecutionResult {
    pub data: Json,
    pub errors: Vec<GqlError>,
    pub cache_control: CacheControl,
}

/// A result is ok when it carries no error.
pub open spec fn result_is_ok(r: ExecutionResult) -> bool {
    r.errors@.len() == 0
}

/// The message text of a failure kind.
pub open spec fn message_text(k: ErrorKind) -> Seq<char> {
    match k {
        ErrorKind::MissingArgument { name } => "Required argument \""@ + name@
            + "\" was not provided"@,
        ErrorKind::InvalidArgument { name, reason } => "Invalid value for argument \""@ + name@
            + "\": "@ + reason@,
        ErrorKind::GuardRejected { reason } => "Forbidden: "@ + reason@,
        ErrorKind::HandlerFailure { message } => message@,
        ErrorKind::FieldNotFound { field_name, object } => "Unknown field \""@ + field_name@
            + "\" on type \""@ + object@ + "\""@,
    }
}

/// The message text of a failure kind.
pub fn render_message(k: &ErrorKind) -> (s: String)
    ensures
        s@ == message_text(*k),
{
    match k {
        ErrorKind::MissingArgument { name } => {
            let mut s: String = "Required argument \"".to_owned();
            s.append(name.as_str());
            s.append("\" was not provided");
            s
        },
        ErrorKind::InvalidArgument { name, reason } => {
            let mut s: String = "Invalid value for argument \"".to_owned();
            s.append(name.as_str());
            s.append("\": ");
            s.append(reason.as_str());
            s
        },
        ErrorKind::GuardRejected { reason } => {
            let mut s: String = "Forbidden: ".to_owned();
            s.append(reason.as_str());
            s
        },
        ErrorKind::HandlerFailure { message } => message.clone(),
        ErrorKind::FieldNotFound { field_name, object } => {
            let mut s: String = "Unknown field \"".to_owned();
            s.append(field_name.as_str());
            s.append("\" on type \"");
            s.append(object.as_str());
            s.append("\"");
            s
        },
    }
}

/// The JSON shape of one delivered error.
pub open spec fn error_json_model(e: GqlError) -> JsonModel {
    JsonModel::Obj(
        seq![
            ("message"@, JsonModel::Str(message_text(e.kind))),
            ("line"@, JsonModel::Int(e.pos.line as int)),
            ("column"@, JsonModel::Int(e.pos.column as int)),
            (
                "path"@,
                JsonModel::Arr(e.path@.map_values(|s: String| JsonModel::Str(s@))),
            ),
        ],
    )
}

/// The JSON shape of one delivered error.
pub fn error_to_json(e: &GqlError) -> (j: Json)
    ensures
        json_model(j) == error_json_model(*e),
{
    let mut path_items: Vec<Json> = Vec::new();
    let mut i: usize = 0;
    while i < e.path.len()
        invariant
            i <= e.path@.len(),
            path_items@.len() == i as nat,
            forall|k: int| 0 <= k < i ==> #[trigger] json_model(path_items@[k]) == JsonModel::Str(
                e.path@[k]@,
            ),
        decreases e.path@.len() - i,
    {
        path_items.push(Json::Str(e.path[i].clone()));
        i = i + 1;
    }
    let path_arr = Json::Arr(path_items);
    proof {
        assert(json_model(path_arr)->Arr_0.len() == e.path@.len());
        assert forall|k: int| 0 <= k < e.path@.len() implies json_model(path_arr)->Arr_0[k]
            == e.path@.map_values(|s: String| JsonModel::Str(s@))[k] by {
            assert(json_model(path_arr)->Arr_0[k] == json_model(path_items@[k]));
            assert(json_model(path_items@[k]) == JsonModel::Str(e.path@[k]@));
            assert(e.path@.map_values(|s: String| JsonModel::Str(s@))[k] == JsonModel::Str(
                e.path@[k]@,
            ));
        }
        assert(json_model(path_arr)->Arr_0 =~~= e.path@.map_values(|s: String| JsonModel::Str(s@)));
        assert(json_model(path_arr) =~~= JsonModel::Arr(
            e.path@.map_values(|s: String| JsonModel::Str(s@)),
        ));
    }
    let msg = Json::Str(render_message(&e.kind));
    let line_v = Json::Int(e.pos.line as i64);
    let col_v = Json::Int(e.pos.column as i64);
    let mut entries: Vec<(String, Json)> = Vec::new();
    entries.push(("message".to_owned(), msg));
    entries.push(("line".to_owned(), line_v));
    entries.push(("column".to_owned(), col_v));
    entries.push(("path".to_owned(), path_arr));
    proof {
        assert(entries@[0].0@ == "message"@ && entries@[0].1 == msg);
        assert(entries@[1].0@ == "line"@ && entries@[1].1 == line_v);
        assert(entries@[2].0@ == "column"@ && entries@[2].1 == col_v);
        assert(entries@[3].0@ == "path"@ && entries@[3].1 == path_arr);
    }
    let j = Json::Obj(entries);
    proof {
        let m = json_model(j)->Obj_0;
        let w = error_json_model(*e)->Obj_0;
        assert(m.len() == 4 && w.len() == 4);
        assert forall|k: int| 0 <= k < 4 implies #[trigger] m[k] == (
            entries@[k].0@,
            json_model(entries@[k].1),
        ) by {}
        assert(m[0] == ("message"@, JsonModel::Str(message_text(e.kind))));
        assert(m[1] == ("line"@, JsonModel::Int(e.pos.line as int)));
        assert(m[2] == ("column"@, JsonModel::Int(e.pos.column as int)));
        assert(m[3] == ("path"@, json_model(path_arr)));
        assert(w[0] == ("message"@, JsonModel::Str(message_text(e.kind))));
        assert(w[1] == ("line"@, JsonModel::Int(e.pos.line as int)));
        assert(w[2] == ("column"@, JsonModel::Int(e.pos.column as int)));
        assert(w[3] == ("path"@, JsonModel::Arr(
            e.path@.map_values(|s: String| JsonModel::Str(s@)),
        )));
        assert(m =~~= w);
        assert(json_model(j) =~~= error_json_model(*e));
    }
    j
}

/// The `{data, errors}`-shaped body of a completed result.
pub open spec fn response_body_model(r: ExecutionResult) -> JsonModel {
    JsonModel::Obj(
        seq![
            ("data"@, json_model(r.data)),
            (
                "errors"@,
                JsonModel::Arr(r.errors@.map_values(|e: GqlError| error_json_model(e))),
            ),
        ],
    )
}

/// A wire reply: status, headers in order, and the JSON body.
pub struct HttpResponse {
    pub status: u16,
    pub headers: Vec<(String, String)>,
    pub body: Json,
}

/// Builds the wire reply of a completed result: status 200, a JSON body
/// shaped `{data, errors}` with content-type `application/json`, and a
/// `cache-control` header if and only if the result is error-free and its
/// merged policy states a max-age. An erroring result never carries one.
pub fn build_response(res: ExecutionResult) -> (r: HttpResponse)
    ensures
        r.status == 200,
        json_model(r.body) == response_body_model(res),
        r.headers@.len() >= 1,
        r.headers@[0].0@ == "content-type"@,
        r.headers@[0].1@ == "application/json"@,
        (result_is_ok(res) && cache_header_value(res.cache_control) is Some) ==> {
            &&& r.headers@.len() == 2
            &&& r.headers@[1].0@ == "cache-control"@
            &&& cache_header_value(res.cache_control) == Some(r.headers@[1].1@)
        },
        !(result_is_ok(res) && cache_header_value(res.cache_control) is Some) ==> r.headers@.len()
            == 1,
{
    let mut err_items: Vec<Json> = Vec::new();
    let mut i: usize = 0;
    while i < res.errors.len()
        invariant
            i <= res.errors@.len(),
            err_items@.len() == i as nat,
            forall|k: int| 0 <= k < i ==> #[trigger] json_model(err_items@[k]) == error_json_model(
                res.errors@[k],
            ),
        decreases res.errors@.len() - i,
    {
        err_items.push(error_to_json(&res.errors[i]));
        i = i + 1;
    }
    let no_errors = res.errors.len() == 0;
    let err_arr = Json::Arr(err_items);
    proof {
        assert(json_model(err_arr)->Arr_0.len() == res.errors@.len());
        assert forall|k: int| 0 <= k < res.errors@.len() implies json_model(err_arr)->Arr_0[k]
            == res.errors@.map_values(|x: GqlError| error_json_model(x))[k] by {
            assert(json_model(err_arr)->Arr_0[k] == json_model(err_items@[k]));
            assert(json_model(err_items@[k]) == error_json_model(res.errors@[k]));
            assert(res.errors@.map_values(|x: GqlError| error_json_model(x))[k]
                == error_json_model(res.errors@[k]));
        }
        assert(json_model(err_arr)->Arr_0 =~~= res.errors@.map_values(
            |x: GqlError| error_json_model(x),
        ));
    }
    let mut entries: Vec<(String, Json)> = Vec::new();
    entries.push(("data".to_owned(), res.data));
    entries.push(("errors".to_owned(), err_arr));
    let body = Json::Obj(entries);
    proof {
        let m = json_model(body)->Obj_0;
        let w = response_body_model(res)->Obj_0;
        assert(m.len() == 2 && w.len() == 2);
        assert forall|k: int| 0 <= k < 2 implies #[trigger] m[k] == (
            entries@[k].0@,
            json_model(entries@[k].1),
        ) by {}
        assert(m[0] == ("data"@, json_model(res.data)));
        assert(m[1] == ("errors"@, json_model(err_arr)));
        assert(w[0] == ("data"@, json_model(res.data)));
        assert(w[1] == ("errors"@, JsonModel::Arr(
            res.errors@.map_values(|x: GqlError| error_json_model(x)),
        )));
        assert(m =~~= w);
        assert(json_model(body) =~~= response_body_model(res));
    }
    let mut headers: Vec<(String, String)> = Vec::new();
    headers.push(("content-type".to_owned(), "application/json".to_owned()));
    if no_errors {
        match res.cache_control.value() {
            Some(v) => {
                headers.push(("cache-control".to_owned(), v));
            },
            None => {},
        }
    }
    HttpResponse { status: 200, headers, body }
}

/// The exact wire bytes of a reply's body: the JSON text of its
/// `{data, errors}` value. Equal bodies render to identical text, so two
/// transports that produce the same execution result send byte-identical
/// replies.
pub fn render_body(r: &HttpResponse) -> (s: String)
    ensures
        s@ == json_text(json_model(r.body)),
{
    json_to_text(&r.body)
}

} // verus!
