//! The operations of the model-lifecycle client.
//!
//! Each operation is one exchange. [`OllamaClient`] holds the endpoint and
//! plans the request of an operation against the endpoint as it is at that
//! moment; the functions below it read the exchange that came back.

use crate::error::{lossy_text, outcome_view, utf8_lossy, ClientError, ClientErrorView};
use crate::json::{json_quoted, quote};
use crate::model::{
    model_views, models_of_body, running_model_views, running_models_of_body, Model, ModelView,
    ProcessResponse, RunningModel, RunningModelView, TagsResponse,
};
use crate::transport::{
    is_success, status_is_success, Exchange, ExchangeView, HttpRequest, HttpRequestView, Method,
};
use vstd::prelude::*;
use vstd::string::*;

verus! {

/// The configuration of a client: the base URL of the server.
pub struct ClientConfig {
    pub base_url: Seq<char>,
}

/// The operations that the client knows.
pub enum Operation {
    ListModels,
    ListRunningModels,
    DeleteModel { name: Seq<char> },
    StartModel { name: Seq<char> },
    UnloadModel { name: Seq<char> },
    PullModel { name: Seq<char> },
}

/// The body that names a model to delete.
pub open spec fn delete_body(name: Seq<char>) -> Seq<char> {
    "{\"name\":"@ + json_quoted(name) + "}"@
}

/// The body that loads a model and keeps it loaded without limit.
pub open spec fn start_body(name: Seq<char>) -> Seq<char> {
    "{\"model\":"@ + json_quoted(name) + ",\"keep_alive\":-1}"@
}

/// The body that evicts a model at once.
pub open spec fn unload_body(name: Seq<char>) -> Seq<char> {
    "{\"model\":"@ + json_quoted(name) + ",\"keep_alive\":0}"@
}

/// The body that asks for a download with a stream of progress records.
pub open spec fn pull_body(name: Seq<char>) -> Seq<char> {
    "{\"name\":"@ + json_quoted(name) + ",\"stream\":true}"@
}

/// The method of an operation.
pub open spec fn method_of(op: Operation) -> Method {
    match op {
        Operation::ListModels => Method::Get,
        Operation::ListRunningModels => Method::Get,
        Operation::DeleteModel { .. } => Method::Delete,
        Operation::StartModel { .. } => Method::Post,
        Operation::UnloadModel { .. } => Method::Post,
        Operation::PullModel { .. } => Method::Post,
    }
}

/// The path of an operation below the base URL.
pub open spec fn path_of(op: Operation) -> Seq<char> {
    match op {
        Operation::ListModels => "/api/tags"@,
        Operation::ListRunningModels => "/api/ps"@,
        Operation::DeleteModel { .. } => "/api/delete"@,
        Operation::StartModel { .. } => "/api/generate"@,
        Operation::UnloadModel { .. } => "/api/generate"@,
        Operation::PullModel { .. } => "/api/pull"@,
    }
}

/// The body of an operation.
pub open spec fn body_of(op: Operation) -> Option<Seq<char>> {
    match op {
        Operation::ListModels => None,
        Operation::ListRunningModels => None,
        Operation::DeleteModel { name } => Some(delete_body(name)),
        Operation::StartModel { name } => Some(start_body(name)),
        Operation::UnloadModel { name } => Some(unload_body(name)),
        Operation::PullModel { name } => Some(pull_body(name)),
    }
}

/// The one request that an operation issues under a configuration.
pub open spec fn planned(config: ClientConfig, op: Operation) -> HttpRequestView {
    HttpRequestView {
        method: method_of(op),
        url: config.base_url + path_of(op),
        body: body_of(op),
    }
}

/// The client: the endpoint that its operations are planned against.
pub struct OllamaClient {
    base_url: String,
}

impl View for OllamaClient {
    type V = ClientConfig;

    closed spec fn view(&self) -> ClientConfig {
        ClientConfig { base_url: self.base_url@ }
    }
}

impl OllamaClient {
    /// A client for the server at `base_url`.
    pub fn new(base_url: String) -> (r: OllamaClient)
        ensures
            r@.base_url == base_url@,
    {
        OllamaClient { base_url }
    }

    /// Replaces the endpoint. The URL is taken as it is: nothing is sent to
    /// find out whether a server answers there. Requests planned before keep
    /// the URL they were planned with.
    pub fn set_endpoint(&mut self, url: String)
        ensures
            final(self)@.base_url == url@,
    {
        self.base_url = url;
    }

    /// The endpoint in use.
    pub fn base_url(&self) -> (r: &str)
        ensures
            r@ == self@.base_url,
    {
        self.base_url.as_str()
    }

    fn url_for(&self, path: &str) -> (r: String)
        ensures
            r@ == self@.base_url + path@,
    {
        self.base_url.clone().concat(path)
    }

    fn body_for(opening: &str, name: &str, closing: &str) -> (r: String)
        ensures
            r@ == opening@ + json_quoted(name@) + closing@,
    {
        String::from_str(opening).concat(quote(name).as_str()).concat(closing)
    }

    /// The request that lists the installed models.
    pub fn get_tags(&self) -> (r: HttpRequest)
        ensures
            r@ == planned(self@, Operation::ListModels),
    {
        HttpRequest { method: Method::Get, url: self.url_for("/api/tags"), body: None }
    }

    /// The request that probes the endpoint: the cheapest read there is, the
    /// one that lists the installed models.
    pub fn check_connection(&self) -> (r: HttpRequest)
        ensures
            r@ == planned(self@, Operation::ListModels),
    {
        self.get_tags()
    }

    /// The request that lists the models loaded in memory.
    pub fn get_running_models(&self) -> (r: HttpRequest)
        ensures
            r@ == planned(self@, Operation::ListRunningModels),
    {
        HttpRequest { method: Method::Get, url: self.url_for("/api/ps"), body: None }
    }

    /// The request that deletes the model `name`.
    pub fn delete_model(&self, name: String) -> (r: HttpRequest)
        ensures
            r@ == planned(self@, Operation::DeleteModel { name: name@ }),
    {
        HttpRequest {
            method: Method::Delete,
            url: self.url_for("/api/delete"),
            body: Some(Self::body_for("{\"name\":", name.as_str(), "}")),
        }
    }

    /// The request that loads the model `name`: a generation without a
    /// prompt that keeps the model loaded without limit.
    pub fn start_model(&self, name: String) -> (r: HttpRequest)
        ensures
            r@ == planned(self@, Operation::StartModel { name: name@ }),
    {
        HttpRequest {
            method: Method::Post,
            url: self.url_for("/api/generate"),
            body: Some(Self::body_for("{\"model\":", name.as_str(), ",\"keep_alive\":-1}")),
        }
    }

    /// The request that unloads the model `name`: a generation without a
    /// prompt after which the model is kept for no time at all.
    pub fn unload_model(&self, name: String) -> (r: HttpRequest)
        ensures
            r@ == planned(self@, Operation::UnloadModel { name: name@ }),
    {
        HttpRequest {
            method: Method::Post,
            url: self.url_for("/api/generate"),
            body: Some(Self::body_for("{\"model\":", name.as_str(), ",\"keep_alive\":0}")),
        }
    }

    /// The request that downloads the model `name` and streams the progress.
    /// Its body is read chunk by chunk by a [`crate::pull::PullStream`].
    pub fn pull_model(&self, name: String) -> (r: HttpRequest)
        ensures
            r@ == planned(self@, Operation::PullModel { name: name@ }),
    {
        HttpRequest {
            method: Method::Post,
            url: self.url_for("/api/pull"),
            body: Some(Self::body_for("{\"name\":", name.as_str(), ",\"stream\":true}")),
        }
    }
}

/// What is wrong with an exchange before its body is looked at: no answer is
/// a transport error, an answer outside the success range a server error
/// that carries the text of the body.
pub open spec fn refusal_of(x: ExchangeView) -> Option<ClientErrorView> {
    match x {
        ExchangeView::Failed { reason } => Some(ClientErrorView::Transport(reason)),
        ExchangeView::Completed { status, body } => if is_success(status) {
            None
        } else {
            Some(ClientErrorView::Server { status, body: utf8_lossy(body) })
        },
    }
}

/// The bytes of the body of an answer.
pub open spec fn body_bytes(x: ExchangeView) -> Seq<u8> {
    match x {
        ExchangeView::Failed { .. } => Seq::empty(),
        ExchangeView::Completed { body, .. } => body,
    }
}

/// The result of the catalog query.
pub open spec fn listing_of(x: ExchangeView) -> Result<Seq<ModelView>, ClientErrorView> {
    match refusal_of(x) {
        Some(e) => Err(e),
        None => match models_of_body(body_bytes(x)) {
            Some(models) => Ok(models),
            None => Err(ClientErrorView::Protocol),
        },
    }
}

/// The result of the process-status query.
pub open spec fn running_listing_of(x: ExchangeView) -> Result<
    Seq<RunningModelView>,
    ClientErrorView,
> {
    match refusal_of(x) {
        Some(e) => Err(e),
        None => match running_models_of_body(body_bytes(x)) {
            Some(models) => Ok(models),
            None => Err(ClientErrorView::Protocol),
        },
    }
}

/// The result of a deletion: a success where the server answered in the
/// success range, whatever the body.
pub open spec fn deletion_of(x: ExchangeView) -> Result<(), ClientErrorView> {
    match refusal_of(x) {
        Some(e) => Err(e),
        None => Ok(()),
    }
}

/// The result of loading or unloading a model: a success once the server
/// has answered, whatever it answered.
pub open spec fn keep_alive_of(x: ExchangeView) -> Result<(), ClientErrorView> {
    match x {
        ExchangeView::Failed { reason } => Err(ClientErrorView::Transport(reason)),
        ExchangeView::Completed { .. } => Ok(()),
    }
}

/// The result of the connection probe: that of the catalog query without
/// its payload.
pub open spec fn probe_of(x: ExchangeView) -> Result<(), ClientErrorView> {
    match listing_of(x) {
        Ok(_) => Ok(()),
        Err(e) => Err(e),
    }
}

/// The view of the result of the catalog query.
pub open spec fn listing_view(r: Result<Vec<Model>, ClientError>) -> Result<
    Seq<ModelView>,
    ClientErrorView,
> {
    match r {
        Ok(models) => Ok(model_views(models@)),
        Err(e) => Err(e@),
    }
}

/// The view of the result of the process-status query.
pub open spec fn running_listing_view(r: Result<Vec<RunningModel>, ClientError>) -> Result<
    Seq<RunningModelView>,
    ClientErrorView,
> {
    match r {
        Ok(models) => Ok(running_model_views(models@)),
        Err(e) => Err(e@),
    }
}

fn refusal(x: &Exchange) -> (r: Option<ClientError>)
    ensures
        match refusal_of(x@) {
            Some(e) => r matches Some(found) && found@ == e,
            None => r is None,
        },
{
    match x {
        Exchange::Failed { reason } => Some(ClientError::Transport(reason.clone())),
        Exchange::Completed { status, body } => {
            if status_is_success(*status) {
                None
            } else {
                Some(ClientError::Server { status: *status, body: lossy_text(body.as_slice()) })
            }
        },
    }
}

fn body_of_answer(x: &Exchange) -> (r: &[u8])
    ensures
        r@ == body_bytes(x@),
{
    match x {
        Exchange::Failed { .. } => {
            let empty: &[u8] = &[];
            assert(empty@ =~= Seq::<u8>::empty());
            empty
        },
        Exchange::Completed { body, .. } => body.as_slice(),
    }
}

/// Reads the answer to the catalog query: the installed models in the order
/// in which the server lists them. An empty catalog is a success.
pub fn list_models(x: &Exchange) -> (r: Result<Vec<Model>, ClientError>)
    ensures
        listing_view(r) == listing_of(x@),
{
    match refusal(x) {
        Some(e) => Err(e),
        None => match TagsResponse::decode(body_of_answer(x)) {
            Some(tags) => Ok(tags.models),
            None => Err(ClientError::Protocol),
        },
    }
}

/// Reads the answer to the process-status query: the models loaded in
/// memory in the order in which the server lists them.
pub fn list_running_models(x: &Exchange) -> (r: Result<Vec<RunningModel>, ClientError>)
    ensures
        running_listing_view(r) == running_listing_of(x@),
{
    match refusal(x) {
        Some(e) => Err(e),
        None => match ProcessResponse::decode(body_of_answer(x)) {
            Some(processes) => Ok(processes.models),
            None => Err(ClientError::Protocol),
        },
    }
}

/// Reads the answer to the connection probe: only whether the catalog query
/// succeeded counts, its models are dropped.
pub fn connection_status(x: &Exchange) -> (r: Result<(), ClientError>)
    ensures
        outcome_view(r) == probe_of(x@),
{
    match list_models(x) {
        Ok(_) => Ok(()),
        Err(e) => Err(e),
    }
}

/// Reads the answer to a deletion. A model that the server does not know
/// comes back as the server's error, with its status and body.
pub fn deletion_status(x: &Exchange) -> (r: Result<(), ClientError>)
    ensures
        outcome_view(r) == deletion_of(x@),
{
    match refusal(x) {
        Some(e) => Err(e),
        None => Ok(()),
    }
}

/// Reads the answer to a request that loads or unloads a model. The
/// operation has succeeded once the exchange has completed; whether the
/// model is loaded by then is for the process-status query to tell.
pub fn keep_alive_status(x: &Exchange) -> (r: Result<(), ClientError>)
    ensures
        outcome_view(r) == keep_alive_of(x@),
{
    match x {
        Exchange::Failed { reason } => Err(ClientError::Transport(reason.clone())),
        Exchange::Completed { .. } => Ok(()),
    }
}

/// Every operation planned after the endpoint was set to `url` targets
/// `url`, whatever the endpoint was before, and a request planned before
/// the change still holds the URL it was planned with.
pub proof fn lemma_operations_target_the_endpoint(
    before: ClientConfig,
    url: Seq<char>,
    op: Operation,
)
    ensures
        planned(ClientConfig { base_url: url }, op).url == url + path_of(op),
        planned(before, op).url == before.base_url + path_of(op),
        planned(ClientConfig { base_url: url }, op).method == planned(before, op).method,
        planned(ClientConfig { base_url: url }, op).body == planned(before, op).body,
{
}

/// Loading and unloading each take one `POST` to `/api/generate` under the
/// endpoint; the bodies name the model and differ in the keep-alive
/// directive alone, `-1` to load and `0` to unload. Either succeeds on every
/// answer, whatever its status and body.
pub proof fn lemma_load_and_unload(
    config: ClientConfig,
    name: Seq<char>,
    status: u16,
    body: Seq<u8>,
)
    ensures
        planned(config, Operation::StartModel { name }) == (HttpRequestView {
            method: Method::Post,
            url: config.base_url + "/api/generate"@,
            body: Some("{\"model\":"@ + json_quoted(name) + ",\"keep_alive\":-1}"@),
        }),
        planned(config, Operation::UnloadModel { name }) == (HttpRequestView {
            method: Method::Post,
            url: config.base_url + "/api/generate"@,
            body: Some("{\"model\":"@ + json_quoted(name) + ",\"keep_alive\":0}"@),
        }),
        keep_alive_of(ExchangeView::Completed { status, body }) == Ok::<(), ClientErrorView>(()),
{
}

} // verus!
