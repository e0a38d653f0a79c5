//! How a request is put to the endpoint of a provider.
use crate::endpoint::anthropic_body::{anthropic_body, responses_body_to_anthropic_body};
use crate::endpoint::azure::{normalize_responses_body_roles, normalized_body};
use crate::endpoint::chat_body::{chat_completions_body, responses_body_to_chat_completions_body};
use crate::json::{Json, JsonTree};
use crate::protocol::{result_model, ApiError, ErrorModel, RequestModel, ResponsesApiRequest};
use crate::reasoning::ReasoningStore;
use vstd::prelude::*;

verus! {

/// The interfaces that providers offer.
#[derive(Clone, Copy, Debug, PartialEq, Eq, Structural)]
pub enum WireApiKind {
    Responses,
    ChatCompletions,
    Anthropic,
}

/// The path below which an interface takes requests.
pub open spec fn request_path(wire_api: WireApiKind) -> Seq<char> {
    match wire_api {
        WireApiKind::Responses => "responses"@,
        WireApiKind::ChatCompletions => "chat/completions"@,
        WireApiKind::Anthropic => "v1/messages"@,
    }
}

/// The path below which an interface takes requests.
pub fn path(wire_api: WireApiKind) -> (path: &'static str)
    ensures
        path@ == request_path(wire_api),
{
    match wire_api {
        WireApiKind::Responses => "responses",
        WireApiKind::ChatCompletions => "chat/completions",
        WireApiKind::Anthropic => "v1/messages",
    }
}

/// The body of a request, as the interface that it is meant for needs it: for the Responses
/// interface as it stands, for the others decoded, or with the text of the error that decoding gave.
pub enum StreamBody {
    Responses(Json),
    ChatCompletions(Result<ResponsesApiRequest, String>),
    Anthropic(Result<ResponsesApiRequest, String>),
}

/// The model of a [`StreamBody`].
pub enum StreamBodyModel {
    Responses(JsonTree),
    ChatCompletions(Result<RequestModel, Seq<char>>),
    Anthropic(Result<RequestModel, Seq<char>>),
}

impl DeepView for StreamBody {
    type V = StreamBodyModel;

    open spec fn deep_view(&self) -> StreamBodyModel {
        match self {
            StreamBody::Responses(body) => StreamBodyModel::Responses(body.deep_view()),
            StreamBody::ChatCompletions(request) => StreamBodyModel::ChatCompletions(
                result_model(*request),
            ),
            StreamBody::Anthropic(request) => StreamBodyModel::Anthropic(result_model(*request)),
        }
    }
}

/// What is sent, and where.
pub struct StreamPlan {
    /// The interface that the request goes to, and in whose terms the response comes.
    pub wire_api: WireApiKind,
    /// The path below which it takes requests.
    pub path: &'static str,
    /// The body of the request.
    pub body: Json,
}

/// The model of a [`StreamPlan`].
pub struct PlanModel {
    pub wire_api: WireApiKind,
    pub path: Seq<char>,
    pub body: JsonTree,
}

impl DeepView for StreamPlan {
    type V = PlanModel;

    open spec fn deep_view(&self) -> PlanModel {
        PlanModel { wire_api: self.wire_api, path: self.path@, body: self.body.deep_view() }
    }
}

/// A plan to send `body` to an interface.
pub open spec fn plan_for(wire_api: WireApiKind, body: JsonTree) -> PlanModel {
    PlanModel { wire_api, path: request_path(wire_api), body }
}

/// The plan for a request, or the error for one whose body could not be decoded.
pub open spec fn planned(body: StreamBodyModel, store: Map<Seq<char>, Seq<char>>) -> Result<
    PlanModel,
    ErrorModel,
> {
    match body {
        StreamBodyModel::Responses(body) => Ok(plan_for(WireApiKind::Responses, body)),
        StreamBodyModel::ChatCompletions(request) => match request {
            Ok(request) => Ok(
                plan_for(
                    WireApiKind::ChatCompletions,
                    chat_completions_body(request, store),
                ),
            ),
            Err(error) => Err(
                ErrorModel::Stream(
                    "failed to decode responses request for chat completions: "@ + error,
                ),
            ),
        },
        StreamBodyModel::Anthropic(request) => match request {
            Ok(request) => Ok(plan_for(WireApiKind::Anthropic, anthropic_body(request))),
            Err(error) => Err(
                ErrorModel::Stream("failed to decode responses request for anthropic: "@ + error),
            ),
        },
    }
}

/// Plans a request: the body that its interface takes, and where it goes. The reasoning behind the
/// tool calls of the conversation is taken from `store`.
pub fn plan_stream(body: StreamBody, store: &ReasoningStore) -> (plan: Result<StreamPlan, ApiError>)
    ensures
        result_model(plan) == planned(body.deep_view(), store@),
{
    match body {
        StreamBody::Responses(body) => Ok(
            StreamPlan {
                wire_api: WireApiKind::Responses,
                path: path(WireApiKind::Responses),
                body,
            },
        ),
        StreamBody::ChatCompletions(request) => {
            match responses_body_to_chat_completions_body(request, store) {
                Ok(body) => Ok(
                    StreamPlan {
                        wire_api: WireApiKind::ChatCompletions,
                        path: path(WireApiKind::ChatCompletions),
                        body,
                    },
                ),
                Err(error) => Err(error),
            }
        },
        StreamBody::Anthropic(request) => {
            match responses_body_to_anthropic_body(request) {
                Ok(body) => Ok(
                    StreamPlan {
                        wire_api: WireApiKind::Anthropic,
                        path: path(WireApiKind::Anthropic),
                        body,
                    },
                ),
                Err(error) => Err(error),
            }
        },
    }
}

/// The body of a request for a response. `encoded` is what encoding the request gave, or the text
/// of the error; an Azure endpoint gets roles that it knows.
pub fn stream_request_body(encoded: Result<Json, String>, azure: bool) -> (body: Result<
    Json,
    ApiError,
>)
    ensures
        result_model(body) == match encoded {
            Ok(body) => Ok(
                if azure {
                    normalized_body(body.deep_view())
                } else {
                    body.deep_view()
                },
            ),
            Err(error) => Err(
                ErrorModel::Stream("failed to encode responses request: "@ + error@),
            ),
        },
{
    match encoded {
        Ok(body) => {
            let mut body = body;
            if azure {
                normalize_responses_body_roles(&mut body);
            }
            Ok(body)
        },
        Err(error) => {
            let mut message = "failed to encode responses request: ".to_string();
            message.append(error.as_str());
            Err(ApiError::Stream(message))
        },
    }
}

/// Whether the items of a request are sent with their ids: an Azure endpoint that is to store the
/// response needs them.
pub fn attaches_item_ids(azure: bool, store: bool) -> (attached: bool)
    ensures
        attached == (azure && store),
{
    azure && store
}

/// A request goes to the path of its interface, for which it is made: to the Responses interface as
/// it stands, to the others as the body that they take. A body that could not be decoded goes
/// nowhere, and the error says for which interface it was meant.
pub proof fn law_planned(
    body: JsonTree,
    request: RequestModel,
    error: Seq<char>,
    store: Map<Seq<char>, Seq<char>>,
)
    ensures
        planned(StreamBodyModel::Responses(body), store) matches Ok(plan) && plan.path
            == "responses"@ && plan.body == body && plan.wire_api is Responses,
        planned(StreamBodyModel::ChatCompletions(Ok(request)), store) matches Ok(plan) && plan.path
            == "chat/completions"@ && plan.body == chat_completions_body(request, store)
            && plan.wire_api is ChatCompletions,
        planned(StreamBodyModel::Anthropic(Ok(request)), store) matches Ok(plan) && plan.path
            == "v1/messages"@ && plan.body == anthropic_body(request) && plan.wire_api is Anthropic,
        planned(StreamBodyModel::ChatCompletions(Err(error)), store) == Err::<
            PlanModel,
            ErrorModel,
        >(
            ErrorModel::Stream(
                "failed to decode responses request for chat completions: "@ + error,
            ),
        ),
        planned(StreamBodyModel::Anthropic(Err(error)), store) == Err::<PlanModel, ErrorModel>(
            ErrorModel::Stream("failed to decode responses request for anthropic: "@ + error),
        ),
{
}

/// The model of a plan holds the interface, the path and the body of the plan; that of a body is of
/// its kind and holds the request, or the text of the error.
pub proof fn law_plan_view(
    plan: StreamPlan,
    body: Json,
    request: ResponsesApiRequest,
    error: String,
)
    ensures
        plan.deep_view().wire_api == plan.wire_api,
        plan.deep_view().path == plan.path@,
        plan.deep_view().body == plan.body.deep_view(),
        StreamBody::Responses(body).deep_view() == StreamBodyModel::Responses(body.deep_view()),
        StreamBody::ChatCompletions(Ok(request)).deep_view() == StreamBodyModel::ChatCompletions(
            Ok(request.deep_view()),
        ),
        StreamBody::Anthropic(Ok(request)).deep_view() == StreamBodyModel::Anthropic(
            Ok(request.deep_view()),
        ),
        StreamBody::ChatCompletions(Err(error)).deep_view() == StreamBodyModel::ChatCompletions(
            Err(error@),
        ),
        StreamBody::Anthropic(Err(error)).deep_view() == StreamBodyModel::Anthropic(Err(error@)),
{
}

} // verus!
