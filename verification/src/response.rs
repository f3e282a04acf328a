//! The responses the dispatcher produces, and the per-route handler logic:
//! the fixed greeting for the root route, the form-field extractor, the
//! version report, and the error responses of the routing layer.

use vstd::prelude::*;
use vstd::string::StringExecFns;
use crate::greeting;
use crate::spec_greeting;
use crate::json::json_object;
use crate::json::spec_json_object;

verus! {

/// An HTTP response as the dispatcher builds it: a status code and a body.
pub struct Response {
    pub status: u16,
    pub body: String,
}

/// The mathematical model of a [`Response`].
pub struct RespModel {
    pub status: int,
    pub body: Seq<char>,
}

impl View for Response {
    type V = RespModel;

    open spec fn view(&self) -> RespModel {
        RespModel { status: self.status as int, body: self.body@ }
    }
}

/// One value submitted under a field name in decoded form data: either a
/// plain text field or an uploaded file, of which only the name is kept.
pub enum FormValue {
    Field(String),
    File(String),
}

/// The mathematical model of a [`FormValue`].
pub enum FormValueModel {
    Field(Seq<char>),
    File(Seq<char>),
}

impl View for FormValue {
    type V = FormValueModel;

    open spec fn view(&self) -> FormValueModel {
        match self {
            FormValue::Field(v) => FormValueModel::Field(v@),
            FormValue::File(n) => FormValueModel::File(n@),
        }
    }
}

impl DeepView for FormValue {
    type V = FormValueModel;

    open spec fn deep_view(&self) -> FormValueModel {
        self.view()
    }
}

/// The value under the first entry with the given name, as form data and
/// extracted route parameters both answer lookups.
pub open spec fn spec_lookup<T>(entries: Seq<(Seq<char>, T)>, name: Seq<char>) -> Option<T>
    decreases entries.len(),
{
    if entries.len() == 0 {
        None
    } else if entries[0].0 == name {
        Some(entries[0].1)
    } else {
        spec_lookup(entries.drop_first(), name)
    }
}

/// A success response: status 200 with the given body.
pub open spec fn spec_ok(body: Seq<char>) -> RespModel {
    RespModel { status: 200, body }
}

/// The response for a request whose data is missing or malformed.
pub open spec fn spec_bad_request() -> RespModel {
    RespModel { status: 400, body: "Bad Request"@ }
}

/// The response for a request no route matches.
pub open spec fn spec_not_found() -> RespModel {
    RespModel { status: 404, body: "Not Found"@ }
}

/// The response for a form whose named field holds an uploaded file where a
/// plain value was required.
pub open spec fn spec_file_rejected() -> RespModel {
    RespModel { status: 422, body: "`field` param in form shouldn't be a File"@ }
}

/// The response when a collaborator the handler depends on fails.
pub open spec fn spec_upstream_failure() -> RespModel {
    RespModel { status: 500, body: "internal error"@ }
}

/// The root route's response: the fixed greeting.
pub fn hello_response() -> (r: Response)
    ensures
        r@ == spec_ok(spec_greeting()),
{
    Response { status: 200, body: greeting() }
}

/// The response for a request no route matches.
pub fn not_found_response() -> (r: Response)
    ensures
        r@ == spec_not_found(),
{
    let b: &str = "Not Found";
    Response { status: 404, body: b.to_owned() }
}

/// The response for a request whose data is missing or malformed.
pub fn bad_request_response() -> (r: Response)
    ensures
        r@ == spec_bad_request(),
{
    let b: &str = "Bad Request";
    Response { status: 400, body: b.to_owned() }
}

/// The response when a collaborator the handler depends on fails.
pub fn upstream_failure_response() -> (r: Response)
    ensures
        r@ == spec_upstream_failure(),
{
    let b: &str = "internal error";
    Response { status: 500, body: b.to_owned() }
}

/// What the version route answers: the configured version verbatim when the
/// environment holds one, and the upstream-failure response when it does not.
pub open spec fn spec_version_response(version: Option<Seq<char>>) -> RespModel {
    match version {
        Some(v) => spec_ok(v),
        None => spec_upstream_failure(),
    }
}

/// The version route's handler, over the configured version the environment
/// collaborator looked up.
pub fn version_response(version: Option<&String>) -> (r: Response)
    ensures
        r@ == spec_version_response(version.deep_view()),
{
    match version {
        Some(v) => Response { status: 200, body: v.clone() },
        None => upstream_failure_response(),
    }
}

/// What the form route answers: with no `field` parameter bound, or with the
/// named field absent from the form, a bad request; with the field bound to a
/// plain value, a JSON object mapping the field's name to that value; with
/// the field bound to an uploaded file, a rejection.
pub open spec fn spec_form_field_response(
    params: Seq<(Seq<char>, Seq<char>)>,
    form: Seq<(Seq<char>, FormValueModel)>,
) -> RespModel {
    match spec_lookup(params, "field"@) {
        None => spec_bad_request(),
        Some(name) => match spec_lookup(form, name) {
            Some(FormValueModel::Field(value)) => spec_ok(spec_json_object(name, value)),
            Some(FormValueModel::File(_)) => spec_file_rejected(),
            None => spec_bad_request(),
        },
    }
}

/// The value of the first route parameter with the given name, as the
/// pattern bound it.
pub fn get_param(params: &Vec<(String, String)>, name: &String) -> (r: Option<String>)
    ensures
        match r {
            Some(v) => spec_lookup(params.deep_view(), name@) == Some(v@),
            None => spec_lookup(params.deep_view(), name@) is None,
        },
{
    let ghost pd = params.deep_view();
    let mut i: usize = 0;
    proof {
        assert(pd.skip(0) =~= pd);
    }
    while i < params.len()
        invariant
            i <= params.len(),
            pd == params.deep_view(),
            pd.len() == params.len(),
            spec_lookup(pd, name@) == spec_lookup(pd.skip(i as int), name@),
        decreases params.len() - i,
    {
        proof {
            assert(pd.skip(i as int)[0] == pd[i as int]);
            assert(pd.skip(i as int).drop_first() =~= pd.skip(i as int + 1));
        }
        if params[i].0 == *name {
            return Some(params[i].1.clone());
        }
        i = i + 1;
    }
    proof {
        assert(pd.skip(i as int) =~= Seq::<(Seq<char>, Seq<char>)>::empty());
    }
    None
}

/// The first form value submitted under the given name, as form data answers
/// lookups.
fn form_get<'a>(form: &'a Vec<(String, FormValue)>, name: &String) -> (r: Option<&'a FormValue>)
    ensures
        match r {
            Some(v) => spec_lookup(form.deep_view(), name@) == Some(v.deep_view()),
            None => spec_lookup(form.deep_view(), name@) is None,
        },
{
    let ghost fd = form.deep_view();
    let mut i: usize = 0;
    proof {
        assert(fd.skip(0) =~= fd);
    }
    while i < form.len()
        invariant
            i <= form.len(),
            fd == form.deep_view(),
            fd.len() == form.len(),
            spec_lookup(fd, name@) == spec_lookup(fd.skip(i as int), name@),
        decreases form.len() - i,
    {
        proof {
            assert(fd.skip(i as int)[0] == fd[i as int]);
            assert(fd.skip(i as int).drop_first() =~= fd.skip(i as int + 1));
        }
        if form[i].0 == *name {
            return Some(&form[i].1);
        }
        i = i + 1;
    }
    proof {
        assert(fd.skip(i as int) =~= Seq::<(Seq<char>, FormValueModel)>::empty());
    }
    None
}

/// The form route's handler: reads the `field` route parameter and answers
/// for the form value submitted under that name.
pub fn form_field_response(params: &Vec<(String, String)>, form: &Vec<(String, FormValue)>) -> (r:
    Response)
    ensures
        r@ == spec_form_field_response(params.deep_view(), form.deep_view()),
{
    let key: String = String::from_str("field");
    match get_param(params, &key) {
        None => bad_request_response(),
        Some(name) => match form_get(form, &name) {
            Some(FormValue::Field(value)) => Response {
                status: 200,
                body: json_object(name.as_str(), value.as_str()),
            },
            Some(FormValue::File(_)) => {
                let b: &str = "`field` param in form shouldn't be a File";
                Response { status: 422, body: b.to_owned() }
            },
            None => bad_request_response(),
        },
    }
}

} // verus!
