//! Laws of the models: they hold what the values hold.
use crate::error::{CommonError, ErrorModel};
use crate::headers::{header_fields, ACCESS_CONTROL_ALLOW_HEADERS, ACCESS_CONTROL_ALLOW_METHODS};
use crate::headers::{ACCESS_CONTROL_ALLOW_ORIGIN, ACCESS_CONTROL_EXPOSE_HEADERS, ORIGIN, VARY};
use crate::headers::{ACCESS_CONTROL_REQUEST_HEADERS, ACCESS_CONTROL_REQUEST_METHOD};
use crate::message::{Request, Response, ResponseModel, OK};
use crate::preflight::{outcome, PREFLIGHT_VARY};
use crate::rules::{BucketParams, CorsRule};
use vstd::prelude::*;

verus! {

/// The model of a rule has the texts of each of its lists in their places, its name and its age.
pub proof fn law_rule_model(rule: CorsRule, i: int)
    ensures
        rule@.allow_origins.len() == rule.allow_origins@.len(),
        rule@.allow_methods.len() == rule.allow_methods@.len(),
        rule@.allow_headers.len() == rule.allow_headers@.len(),
        rule@.expose_headers.len() == rule.expose_headers@.len(),
        0 <= i < rule.allow_origins@.len() ==> rule@.allow_origins[i] == rule.allow_origins@[i]@,
        0 <= i < rule.allow_methods@.len() ==> rule@.allow_methods[i] == rule.allow_methods@[i]@,
        0 <= i < rule.allow_headers@.len() ==> rule@.allow_headers[i] == rule.allow_headers@[i]@,
        0 <= i < rule.expose_headers@.len() ==> rule@.expose_headers[i] == rule.expose_headers@[i]@,
        rule@.max_age_seconds == rule.max_age_seconds,
        rule.id is None <==> rule@.id is None,
        rule.id matches Some(id) ==> rule@.id == Some(id@),
{
}

/// The model of a bucket has the models of all its rules in their places.
pub proof fn law_bucket_model(params: BucketParams, i: int)
    ensures
        params.cors_config is None <==> params@ is None,
        params.cors_config matches Some(rules) ==> {
            &&& params@ matches Some(models)
            &&& models.len() == rules@.len()
            &&& 0 <= i < rules@.len() ==> models[i] == rules@[i]@
        },
{
}

/// The model of a request or a response has all the fields of its header map.
pub proof fn law_message_models(request: Request, response: Response)
    ensures
        request@.method == request.method@,
        request@.fields == header_fields(*request.headers),
        response@.status == response.status,
        response@.fields == header_fields(response.headers),
{
}

/// The outcome of a request succeeds where the request does, with the same response, and fails
/// where it fails, with the same kind of error and the same text.
pub proof fn law_outcome_model(result: Result<Response, CommonError>)
    ensures
        outcome(result) is Ok <==> result is Ok,
        result matches Ok(response) ==> outcome(result) == Ok::<ResponseModel, ErrorModel>(
            response@,
        ),
        result matches Err(CommonError::InternalError(text)) ==> outcome(result) == Err::<
            ResponseModel,
            ErrorModel,
        >(ErrorModel::InternalError(text@)),
        result matches Err(CommonError::Forbidden(text)) ==> outcome(result) == Err::<
            ResponseModel,
            ErrorModel,
        >(ErrorModel::Forbidden(text@)),
        result matches Err(CommonError::BadRequest(text)) ==> outcome(result) == Err::<
            ResponseModel,
            ErrorModel,
        >(ErrorModel::BadRequest(text@)),
        result matches Err(CommonError::InvalidHeader) ==> outcome(result) == Err::<
            ResponseModel,
            ErrorModel,
        >(ErrorModel::InvalidHeader),
{
}

/// The names of the headers, and what is said of success and of preflight responses, are those
/// of the protocol.
pub proof fn law_protocol_constants()
    ensures
        ORIGIN@ == "origin"@,
        VARY@ == "vary"@,
        ACCESS_CONTROL_REQUEST_METHOD@ == "access-control-request-method"@,
        ACCESS_CONTROL_REQUEST_HEADERS@ == "access-control-request-headers"@,
        ACCESS_CONTROL_ALLOW_ORIGIN@ == "access-control-allow-origin"@,
        ACCESS_CONTROL_ALLOW_METHODS@ == "access-control-allow-methods"@,
        ACCESS_CONTROL_ALLOW_HEADERS@ == "access-control-allow-headers"@,
        ACCESS_CONTROL_EXPOSE_HEADERS@ == "access-control-expose-headers"@,
        PREFLIGHT_VARY@
            == "Origin, Access-Control-Request-Method, Access-Control-Request-Headers"@,
        OK == 200,
{
}

} // verus!
