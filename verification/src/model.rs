//! The records of the model registry and their decoders.

use crate::json::{
    i64_member, json_of, json_text, member, member_of, parse, read_i64, read_text, text_member,
    Json,
};
use vstd::prelude::*;

verus! {

/// A model installed on the server: a snapshot taken by one query.
#[derive(Debug, Clone, PartialEq, Eq)]
pub struct Model {
    pub name: String,
    pub size: i64,
    pub modified_at: String,
}

/// What a [`Model`] holds.
pub struct ModelView {
    pub name: Seq<char>,
    pub size: i64,
    pub modified_at: Seq<char>,
}

impl View for Model {
    type V = ModelView;

    open spec fn view(&self) -> ModelView {
        ModelView { name: self.name@, size: self.size, modified_at: self.modified_at@ }
    }
}

/// A model that is loaded in memory. A model that has been unloaded is
/// simply absent from the next answer.
#[derive(Debug, Clone, PartialEq, Eq)]
pub struct RunningModel {
    pub name: String,
    pub size: i64,
    pub size_vram: i64,
}

/// What a [`RunningModel`] holds.
pub struct RunningModelView {
    pub name: Seq<char>,
    pub size: i64,
    pub size_vram: i64,
}

impl View for RunningModel {
    type V = RunningModelView;

    open spec fn view(&self) -> RunningModelView {
        RunningModelView { name: self.name@, size: self.size, size_vram: self.size_vram }
    }
}

/// The body of an answer to the catalog query.
#[derive(Debug, PartialEq, Eq)]
pub struct TagsResponse {
    pub models: Vec<Model>,
}

/// The body of an answer to the process-status query.
#[derive(Debug, PartialEq, Eq)]
pub struct ProcessResponse {
    pub models: Vec<RunningModel>,
}

/// The views of a run of models, in order.
pub open spec fn model_views(models: Seq<Model>) -> Seq<ModelView> {
    models.map_values(|m: Model| m@)
}

/// The views of a run of running models, in order.
pub open spec fn running_model_views(models: Seq<RunningModel>) -> Seq<RunningModelView> {
    models.map_values(|m: RunningModel| m@)
}

impl View for TagsResponse {
    type V = Seq<ModelView>;

    open spec fn view(&self) -> Seq<ModelView> {
        model_views(self.models@)
    }
}

impl View for ProcessResponse {
    type V = Seq<RunningModelView>;

    open spec fn view(&self) -> Seq<RunningModelView> {
        running_model_views(self.models@)
    }
}

/// The model that a JSON document spells: an object with a string `name`,
/// an integer `size` and a string `modified_at`. Other members are ignored.
pub open spec fn model_of(j: Json) -> Option<ModelView> {
    match (text_member(j, "name"@), i64_member(j, "size"@), text_member(j, "modified_at"@)) {
        (Some(name), Some(size), Some(modified_at)) => Some(ModelView { name, size, modified_at }),
        _ => None,
    }
}

/// The running model that a JSON document spells: an object with a string
/// `name` and integers `size` and `size_vram`. Other members are ignored.
pub open spec fn running_model_of(j: Json) -> Option<RunningModelView> {
    match (text_member(j, "name"@), i64_member(j, "size"@), i64_member(j, "size_vram"@)) {
        (Some(name), Some(size), Some(size_vram)) => Some(
            RunningModelView { name, size, size_vram },
        ),
        _ => None,
    }
}

/// The array under the member `models` of an object.
pub open spec fn listed_items(j: Json) -> Option<Seq<Json>> {
    match member_of(j, "models"@) {
        Some(Json::Array(items)) => Some(items),
        _ => None,
    }
}

/// The catalog that a JSON document spells: an object whose member `models`
/// is an array of models. The models come in the order of the array.
pub open spec fn models_of(j: Json) -> Option<Seq<ModelView>> {
    match listed_items(j) {
        Some(items) => if forall|i: int|
            0 <= i < items.len() ==> model_of(#[trigger] items[i]) is Some {
            Some(Seq::new(items.len(), |i: int| model_of(items[i])->0))
        } else {
            None
        },
        None => None,
    }
}

/// The process list that a JSON document spells: an object whose member
/// `models` is an array of running models, in the order of the array.
pub open spec fn running_models_of(j: Json) -> Option<Seq<RunningModelView>> {
    match listed_items(j) {
        Some(items) => if forall|i: int|
            0 <= i < items.len() ==> running_model_of(#[trigger] items[i]) is Some {
            Some(Seq::new(items.len(), |i: int| running_model_of(items[i])->0))
        } else {
            None
        },
        None => None,
    }
}

/// The catalog that the bytes of a body spell.
pub open spec fn models_of_body(body: Seq<u8>) -> Option<Seq<ModelView>> {
    match json_text(body) {
        Some(j) => models_of(j),
        None => None,
    }
}

/// The process list that the bytes of a body spell.
pub open spec fn running_models_of_body(body: Seq<u8>) -> Option<Seq<RunningModelView>> {
    match json_text(body) {
        Some(j) => running_models_of(j),
        None => None,
    }
}

/// The view of an optional model.
pub open spec fn optional_model_view(m: Option<Model>) -> Option<ModelView> {
    match m {
        Some(model) => Some(model@),
        None => None,
    }
}

/// The view of an optional running model.
pub open spec fn optional_running_model_view(m: Option<RunningModel>) -> Option<RunningModelView> {
    match m {
        Some(model) => Some(model@),
        None => None,
    }
}

/// The view of an optional catalog.
pub open spec fn optional_tags_view(t: Option<TagsResponse>) -> Option<Seq<ModelView>> {
    match t {
        Some(tags) => Some(tags@),
        None => None,
    }
}

/// The view of an optional process list.
pub open spec fn optional_process_view(p: Option<ProcessResponse>) -> Option<
    Seq<RunningModelView>,
> {
    match p {
        Some(processes) => Some(processes@),
        None => None,
    }
}

impl Model {
    /// Reads a model out of a parsed document.
    pub fn from_json(v: &serde_json::Value) -> (r: Option<Model>)
        ensures
            optional_model_view(r) == model_of(json_of(*v)),
    {
        let name = match read_text(v, "name") {
            Some(s) => s,
            None => {
                return None;
            },
        };
        let size = match read_i64(v, "size") {
            Some(n) => n,
            None => {
                return None;
            },
        };
        let modified_at = match read_text(v, "modified_at") {
            Some(s) => s,
            None => {
                return None;
            },
        };
        Some(Model { name, size, modified_at })
    }
}

impl RunningModel {
    /// Reads a running model out of a parsed document.
    pub fn from_json(v: &serde_json::Value) -> (r: Option<RunningModel>)
        ensures
            optional_running_model_view(r) == running_model_of(json_of(*v)),
    {
        let name = match read_text(v, "name") {
            Some(s) => s,
            None => {
                return None;
            },
        };
        let size = match read_i64(v, "size") {
            Some(n) => n,
            None => {
                return None;
            },
        };
        let size_vram = match read_i64(v, "size_vram") {
            Some(n) => n,
            None => {
                return None;
            },
        };
        Some(RunningModel { name, size, size_vram })
    }
}

impl TagsResponse {
    /// Reads a catalog out of a parsed document: every item of `models`, in
    /// the order of the array, or nothing where one item is no model.
    pub fn from_json(v: &serde_json::Value) -> (r: Option<TagsResponse>)
        ensures
            optional_tags_view(r) == models_of(json_of(*v)),
    {
        let items = match member(v, "models") {
            Some(list) => match list.as_array() {
                Some(items) => items,
                None => {
                    return None;
                },
            },
            None => {
                return None;
            },
        };
        let ghost documents = listed_items(json_of(*v))->0;
        let mut models: Vec<Model> = Vec::new();
        let mut i: usize = 0;
        while i < items.len()
            invariant
                i <= items.len(),
                items@.len() == documents.len(),
                listed_items(json_of(*v)) == Some(documents),
                forall|k: int| 0 <= k < documents.len() ==> json_of(#[trigger] items@[k]) == documents[k],
                models.len() == i,
                forall|k: int|
                    0 <= k < i ==> model_of(#[trigger] documents[k]) == Some(models[k]@),
            decreases items.len() - i,
        {
            match Model::from_json(&items[i]) {
                Some(model) => {
                    models.push(model);
                },
                None => {
                    assert(model_of(documents[i as int]) is None);
                    return None;
                },
            }
            i = i + 1;
        }
        let tags = TagsResponse { models };
        assert(tags@ =~= models_of(json_of(*v))->0);
        Some(tags)
    }

    /// Decodes the bytes of a body.
    pub fn decode(body: &[u8]) -> (r: Option<TagsResponse>)
        ensures
            optional_tags_view(r) == models_of_body(body@),
    {
        match parse(body) {
            Some(v) => TagsResponse::from_json(&v),
            None => None,
        }
    }
}

impl ProcessResponse {
    /// Reads a process list out of a parsed document: every item of
    /// `models`, in the order of the array, or nothing where one item is no
    /// running model.
    pub fn from_json(v: &serde_json::Value) -> (r: Option<ProcessResponse>)
        ensures
            optional_process_view(r) == running_models_of(json_of(*v)),
    {
        let items = match member(v, "models") {
            Some(list) => match list.as_array() {
                Some(items) => items,
                None => {
                    return None;
                },
            },
            None => {
                return None;
            },
        };
        let ghost documents = listed_items(json_of(*v))->0;
        let mut models: Vec<RunningModel> = Vec::new();
        let mut i: usize = 0;
        while i < items.len()
            invariant
                i <= items.len(),
                items@.len() == documents.len(),
                listed_items(json_of(*v)) == Some(documents),
                forall|k: int| 0 <= k < documents.len() ==> json_of(#[trigger] items@[k]) == documents[k],
                models.len() == i,
                forall|k: int|
                    0 <= k < i ==> running_model_of(#[trigger] documents[k]) == Some(models[k]@),
            decreases items.len() - i,
        {
            match RunningModel::from_json(&items[i]) {
                Some(model) => {
                    models.push(model);
                },
                None => {
                    assert(running_model_of(documents[i as int]) is None);
                    return None;
                },
            }
            i = i + 1;
        }
        let processes = ProcessResponse { models };
        assert(processes@ =~= running_models_of(json_of(*v))->0);
        Some(processes)
    }

    /// Decodes the bytes of a body.
    pub fn decode(body: &[u8]) -> (r: Option<ProcessResponse>)
        ensures
            optional_process_view(r) == running_models_of_body(body@),
    {
        match parse(body) {
            Some(v) => ProcessResponse::from_json(&v),
            None => None,
        }
    }
}

/// A body whose `models` array holds models only decodes to exactly these
/// models, as many as the array has items and in its order; an empty array
/// decodes to an empty catalog, not to a failure.
pub proof fn lemma_catalog_round_trip(body: Seq<u8>, items: Seq<Json>, models: Seq<ModelView>)
    requires
        json_text(body) is Some,
        listed_items(json_text(body)->0) == Some(items),
        models.len() == items.len(),
        forall|i: int| 0 <= i < items.len() ==> model_of(#[trigger] items[i]) == Some(models[i]),
    ensures
        models_of_body(body) == Some(models),
        items.len() == 0 ==> models_of_body(body) == Some(Seq::<ModelView>::empty()),
{
    assert(models_of_body(body)->0 =~= models);
}

/// A body whose `models` array holds running models only decodes to exactly
/// these, as many as the array has items and in its order; an empty array
/// decodes to an empty list, not to a failure.
pub proof fn lemma_process_list_round_trip(
    body: Seq<u8>,
    items: Seq<Json>,
    models: Seq<RunningModelView>,
)
    requires
        json_text(body) is Some,
        listed_items(json_text(body)->0) == Some(items),
        models.len() == items.len(),
        forall|i: int|
            0 <= i < items.len() ==> running_model_of(#[trigger] items[i]) == Some(models[i]),
    ensures
        running_models_of_body(body) == Some(models),
        items.len() == 0 ==> running_models_of_body(body) == Some(
            Seq::<RunningModelView>::empty(),
        ),
{
    assert(running_models_of_body(body)->0 =~= models);
}

} // verus!
