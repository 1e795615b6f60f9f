use crate::text::{seq_contains, split_bounds, split_on, str_contains};
use vstd::prelude::*;
use vstd::string::{StrSliceExecFns, StringExecFns};

verus! {

/// One chat message in the OpenAI format.
pub struct Message {
    pub role: String,
    pub content: String,
}

/// One entry of the OpenAI-format model list.
#[derive(Clone)]
pub struct Model {
    pub id: String,
    pub object: String,
    pub created: i64,
    pub owned_by: String,
}

/// The OpenAI-format model list: `{object: "list", data: [...]}`.
pub struct ModelsResponse {
    pub object: String,
    pub data: Vec<Model>,
}

/// The backend's catalog answer.
pub struct VertexModelsResponse {
    pub publisher_models: Vec<VertexModel>,
}

/// One record of the backend's catalog.
pub struct VertexModel {
    pub name: String,
    pub version_id: String,
    pub launch_stage: Option<String>,
    pub open_source_category: Option<String>,
}

/// What a `Model` holds, as plain values.
pub ghost struct ModelView {
    pub id: Seq<char>,
    pub object: Seq<char>,
    pub created: i64,
    pub owned_by: Seq<char>,
}

impl View for Model {
    type V = ModelView;

    open spec fn view(&self) -> ModelView {
        ModelView {
            id: self.id@,
            object: self.object@,
            created: self.created,
            owned_by: self.owned_by@,
        }
    }
}

/// The substring that marks the model family the gateway lists.
pub open spec fn family_marker() -> Seq<char> {
    "gemini"@
}

/// A launch stage that the gateway lists: generally available or public preview.
pub open spec fn stage_accepted(stage: Option<String>) -> bool {
    match stage {
        Some(s) => s@ == "GA"@ || s@ == "PUBLIC_PREVIEW"@,
        None => false,
    }
}

/// The record belongs in the gateway's model list.
pub open spec fn included(m: VertexModel) -> bool {
    seq_contains(m.name@, family_marker()) && stage_accepted(m.launch_stage)
}

/// The public id of a backend model name: `publisher/model` out of
/// `publishers/<publisher>/models/<model>`, else the last `/` piece, and
/// `unknown` for an empty name.
pub open spec fn model_id(name: Seq<char>) -> Seq<char> {
    let parts = split_on(name, '/');
    if name.len() == 0 {
        "unknown"@
    } else if parts.len() >= 4 {
        parts[1] + "/"@ + parts[3]
    } else {
        parts.last()
    }
}

/// The OpenAI-format entry for a backend record, stamped with `created`.
pub open spec fn translated(m: VertexModel, created: i64) -> ModelView {
    ModelView { id: model_id(m.name@), object: "model"@, created, owned_by: "google"@ }
}

/// The gateway's model list for a catalog: the included records, translated,
/// in catalog order.
pub open spec fn catalog_models(recs: Seq<VertexModel>, created: i64) -> Seq<ModelView>
    decreases recs.len(),
{
    if recs.len() == 0 {
        Seq::empty()
    } else {
        let prev = catalog_models(recs.drop_last(), created);
        if included(recs.last()) {
            prev.push(translated(recs.last(), created))
        } else {
            prev
        }
    }
}

/// Relies on chrono's `Utc::now().timestamp()`: the current time in seconds
/// since the Unix epoch.
#[verifier::external_body]
fn unix_now() -> (r: i64) {
    chrono::Utc::now().timestamp()
}

fn option_is(stage: &Option<String>, lit: &str) -> (r: bool)
    ensures
        r == (stage is Some && stage->Some_0@ == lit@),
{
    match stage {
        Some(s) => {
            let want = String::from_str(lit);
            s.eq(&want)
        },
        None => false,
    }
}

impl VertexModel {
    /// Whether this record belongs in the gateway's model list.
    pub fn should_include(&self) -> (r: bool)
        ensures
            r == included(*self),
    {
        str_contains(self.name.as_str(), "gemini") && (option_is(&self.launch_stage, "GA")
            || option_is(&self.launch_stage, "PUBLIC_PREVIEW"))
    }

    /// The public id of this record's name.
    pub fn model_id(&self) -> (r: String)
        ensures
            r@ == model_id(self.name@),
    {
        let name = self.name.as_str();
        let n = name.unicode_len();
        if n == 0 {
            return String::from_str("unknown");
        }
        let parts = split_bounds(name, '/');
        if parts.len() >= 4 {
            let (a1, b1) = parts[1];
            let (a3, b3) = parts[3];
            let publisher = String::from_str(name.substring_char(a1, b1));
            let with_slash = publisher.concat("/");
            with_slash.concat(name.substring_char(a3, b3))
        } else {
            let last = parts.len() - 1;
            let (a, b) = parts[last];
            String::from_str(name.substring_char(a, b))
        }
    }

    /// The OpenAI-format entry for this record, stamped with `created`.
    pub fn to_openai_model_at(&self, created: i64) -> (r: Model)
        ensures
            r@ == translated(*self, created),
    {
        Model {
            id: self.model_id(),
            object: String::from_str("model"),
            created,
            owned_by: String::from_str("google"),
        }
    }

    /// The OpenAI-format entry for this record, stamped with the current time.
    pub fn to_openai_model(&self) -> (r: Model)
        ensures
            exists|t: i64| r@ == translated(*self, t),
    {
        let now = unix_now();
        self.to_openai_model_at(now)
    }
}

/// The gateway's model list for a catalog, every entry stamped with `created`.
pub fn translate_catalog(recs: &Vec<VertexModel>, created: i64) -> (r: Vec<Model>)
    ensures
        r@.map_values(|m: Model| m@) == catalog_models(recs@, created),
{
    let mut out: Vec<Model> = Vec::new();
    let mut i: usize = 0;
    while i < recs.len()
        invariant
            i <= recs@.len(),
            out@.map_values(|m: Model| m@) == catalog_models(recs@.subrange(0, i as int), created),
        decreases recs@.len() - i,
    {
        let ghost pre = recs@.subrange(0, i as int);
        let ghost next = recs@.subrange(0, i + 1);
        assert(next.drop_last() =~= pre);
        let rec = &recs[i];
        if rec.should_include() {
            let m = rec.to_openai_model_at(created);
            out.push(m);
            assert(out@.map_values(|m: Model| m@) =~= catalog_models(pre, created).push(
                translated(*rec, created),
            ));
        }
        i = i + 1;
        assert(next == recs@.subrange(0, i as int));
    }
    assert(recs@.subrange(0, i as int) =~= recs@);
    out
}

/// Translating a catalog keeps the order of its records: the list for two
/// catalogs one after the other is the list for the first followed by the
/// list for the second.
pub proof fn lemma_catalog_keeps_order(a: Seq<VertexModel>, b: Seq<VertexModel>, created: i64)
    ensures
        catalog_models(a + b, created) == catalog_models(a, created) + catalog_models(b, created),
    decreases b.len(),
{
    if b.len() == 0 {
        assert(a + b =~= a);
        assert(catalog_models(a, created) + catalog_models(b, created) =~= catalog_models(a, created));
    } else {
        assert((a + b).drop_last() =~= a + b.drop_last());
        assert((a + b).last() == b.last());
        lemma_catalog_keeps_order(a, b.drop_last(), created);
        if included(b.last()) {
            assert(catalog_models(a, created) + catalog_models(b, created) =~= (catalog_models(a, created)
                + catalog_models(b.drop_last(), created)).push(translated(b.last(), created)));
        }
    }
}

/// A record without the family marker, or without an accepted launch stage,
/// gives no entry of the model list.
pub proof fn lemma_catalog_excludes(recs: Seq<VertexModel>, created: i64, i: int)
    requires
        0 <= i < recs.len(),
        !included(recs[i]),
    ensures
        catalog_models(recs, created) == catalog_models(recs.subrange(0, i), created) + catalog_models(
            recs.subrange(i + 1, recs.len() as int),
            created,
        ),
{
    let left = recs.subrange(0, i);
    let mid = recs.subrange(i, i + 1);
    let right = recs.subrange(i + 1, recs.len() as int);
    assert(recs =~= left + mid + right);
    lemma_catalog_keeps_order(left + mid, right, created);
    lemma_catalog_keeps_order(left, mid, created);
    assert(mid.drop_last() =~= Seq::<VertexModel>::empty());
    assert(mid.last() == recs[i]);
    assert(catalog_models(mid.drop_last(), created) =~= Seq::<ModelView>::empty());
    assert(catalog_models(mid, created) =~= Seq::<ModelView>::empty());
    assert(catalog_models(left, created) + catalog_models(mid, created) =~= catalog_models(left, created));
}

} // verus!
