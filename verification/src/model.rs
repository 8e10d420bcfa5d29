//! The catalogue of models this service exposes and how each maps onto the
//! upstream model name and mode.

use vstd::prelude::*;
use crate::text::str_eq;

verus! {

/// Account tier a model requires.
#[derive(Debug, Clone, Copy, PartialEq, Eq, Structural)]
pub enum Tier {
    Basic,
    Super,
}

/// Relative quota cost of a model.
#[derive(Debug, Clone, Copy, PartialEq, Eq, Structural)]
pub enum Cost {
    Low,
    High,
}

/// One model of the catalogue.
#[derive(Debug, Clone)]
pub struct ModelInfo {
    pub model_id: String,
    pub grok_model: String,
    pub model_mode: String,
    pub tier: Tier,
    pub cost: Cost,
    pub display_name: String,
    pub description: String,
    pub is_video: bool,
    pub is_image: bool,
    pub is_image_edit: bool,
}

/// The mathematical content of a [`ModelInfo`].
pub struct ModelSpec {
    pub model_id: Seq<char>,
    pub grok_model: Seq<char>,
    pub model_mode: Seq<char>,
    pub tier: Tier,
    pub cost: Cost,
    pub display_name: Seq<char>,
    pub description: Seq<char>,
    pub is_video: bool,
    pub is_image: bool,
    pub is_image_edit: bool,
}

impl View for ModelInfo {
    type V = ModelSpec;

    open spec fn view(&self) -> ModelSpec {
        ModelSpec {
            model_id: self.model_id@,
            grok_model: self.grok_model@,
            model_mode: self.model_mode@,
            tier: self.tier,
            cost: self.cost,
            display_name: self.display_name@,
            description: self.description@,
            is_video: self.is_video,
            is_image: self.is_image,
            is_image_edit: self.is_image_edit,
        }
    }
}

/// A basic, low-cost text model.
pub open spec fn basic(id: &str, grok: &str, mode: &str, display: &str) -> ModelSpec {
    ModelSpec {
        model_id: id@,
        grok_model: grok@,
        model_mode: mode@,
        tier: Tier::Basic,
        cost: Cost::Low,
        display_name: display@,
        description: Seq::empty(),
        is_video: false,
        is_image: false,
        is_image_edit: false,
    }
}

/// The same model with a high cost.
pub open spec fn high(m: ModelSpec) -> ModelSpec {
    ModelSpec { cost: Cost::High, ..m }
}

/// The catalogue, in the order in which it is listed.
pub open spec fn model_table() -> Seq<ModelSpec> {
    seq![
        basic("grok-3", "grok-3", "MODEL_MODE_GROK_3", "Grok 3"),
        basic("grok-3-fast", "grok-3", "MODEL_MODE_FAST", "Grok 3 Fast"),
        basic("grok-3-mini", "grok-3", "MODEL_MODE_GROK_3_MINI_THINKING", "Grok 3 Mini"),
        basic("grok-3-thinking", "grok-3", "MODEL_MODE_GROK_3_THINKING", "Grok 3 Thinking"),
        basic("grok-4", "grok-4", "MODEL_MODE_GROK_4", "Grok 4"),
        basic("grok-4-mini", "grok-4-mini", "MODEL_MODE_GROK_4_MINI_THINKING", "Grok 4 Mini"),
        basic("grok-4-fast", "grok-4", "MODEL_MODE_FAST", "Grok 4 Fast"),
        basic("grok-4-thinking", "grok-4", "MODEL_MODE_GROK_4_THINKING", "Grok 4 Thinking"),
        ModelSpec {
            tier: Tier::Super,
            ..high(basic("grok-4-heavy", "grok-4", "MODEL_MODE_HEAVY", "Grok 4 Heavy"))
        },
        basic("grok-4.1", "grok-4-1-thinking-1129", "MODEL_MODE_AUTO", "Grok 4.1"),
        high(
            basic(
                "grok-4.1-thinking",
                "grok-4-1-thinking-1129",
                "MODEL_MODE_GROK_4_1_THINKING",
                "Grok 4.1 Thinking",
            ),
        ),
        basic(
            "grok-4.1-mini",
            "grok-4-1-thinking-1129",
            "MODEL_MODE_GROK_4_1_MINI_THINKING",
            "Grok 4.1 Mini",
        ),
        basic("grok-4.1-fast", "grok-4-1-thinking-1129", "MODEL_MODE_FAST", "Grok 4.1 Fast"),
        high(
            basic(
                "grok-4.1-expert",
                "grok-4-1-thinking-1129",
                "MODEL_MODE_EXPERT",
                "Grok 4.1 Expert",
            ),
        ),
        basic("grok-4.20-beta", "grok-420", "MODEL_MODE_GROK_420", "Grok 4.20 Beta"),
        ModelSpec {
            is_image: true,
            description: "Image generation model"@,
            ..high(basic("grok-imagine-1.0", "grok-3", "MODEL_MODE_FAST", "Grok Image"))
        },
        ModelSpec {
            is_image_edit: true,
            description: "Image editing model"@,
            ..high(
                basic(
                    "grok-imagine-1.0-edit",
                    "imagine-image-edit",
                    "MODEL_MODE_FAST",
                    "Grok Image Edit",
                ),
            )
        },
        ModelSpec {
            is_video: true,
            description: "Video generation model"@,
            ..high(basic("grok-imagine-1.0-video", "grok-3", "MODEL_MODE_FAST", "Grok Video"))
        },
    ]
}

/// The first entry of `table` at or after `i` whose id is `id`.
pub open spec fn lookup_from(table: Seq<ModelSpec>, id: Seq<char>, i: int) -> Option<ModelSpec>
    decreases table.len() - i,
{
    if i < 0 || i >= table.len() {
        None
    } else if table[i].model_id == id {
        Some(table[i])
    } else {
        lookup_from(table, id, i + 1)
    }
}

/// The catalogue entry whose id is `id`.
pub open spec fn lookup(id: Seq<char>) -> Option<ModelSpec> {
    lookup_from(model_table(), id, 0)
}

/// The token pools to try for a model, in order of preference.
pub open spec fn pool_candidates(id: Seq<char>) -> Seq<Seq<char>> {
    if lookup(id) matches Some(m) && m.tier == Tier::Super {
        seq!["ssoSuper"@]
    } else {
        seq!["ssoBasic"@, "ssoSuper"@]
    }
}

impl ModelInfo {
    /// A basic, low-cost model with no description.
    pub fn new(model_id: &str, grok_model: &str, mode: &str, display: &str) -> (m: Self)
        ensures
            m@ == basic(model_id, grok_model, mode, display),
    {
        ModelInfo {
            model_id: String::from_str(model_id),
            grok_model: String::from_str(grok_model),
            model_mode: String::from_str(mode),
            tier: Tier::Basic,
            cost: Cost::Low,
            display_name: String::from_str(display),
            description: String::new(),
            is_video: false,
            is_image: false,
            is_image_edit: false,
        }
    }
}

/// Lookups in the model catalogue.
pub struct ModelService;

impl ModelService {
    /// The whole catalogue, in listing order.
    pub fn list() -> (r: Vec<ModelInfo>)
        ensures
            r@.len() == model_table().len(),
            forall|i: int| 0 <= i < r@.len() ==> #[trigger] r@[i]@ == model_table()[i],
    {
        let mut v: Vec<ModelInfo> = Vec::new();
        v.push(ModelInfo::new("grok-3", "grok-3", "MODEL_MODE_GROK_3", "Grok 3"));
        v.push(ModelInfo::new("grok-3-fast", "grok-3", "MODEL_MODE_FAST", "Grok 3 Fast"));
        v.push(
            ModelInfo::new("grok-3-mini", "grok-3", "MODEL_MODE_GROK_3_MINI_THINKING", "Grok 3 Mini"),
        );
        v.push(
            ModelInfo::new(
                "grok-3-thinking",
                "grok-3",
                "MODEL_MODE_GROK_3_THINKING",
                "Grok 3 Thinking",
            ),
        );
        v.push(ModelInfo::new("grok-4", "grok-4", "MODEL_MODE_GROK_4", "Grok 4"));
        v.push(
            ModelInfo::new(
                "grok-4-mini",
                "grok-4-mini",
                "MODEL_MODE_GROK_4_MINI_THINKING",
                "Grok 4 Mini",
            ),
        );
        v.push(ModelInfo::new("grok-4-fast", "grok-4", "MODEL_MODE_FAST", "Grok 4 Fast"));
        v.push(
            ModelInfo::new(
                "grok-4-thinking",
                "grok-4",
                "MODEL_MODE_GROK_4_THINKING",
                "Grok 4 Thinking",
            ),
        );
        let mut m = ModelInfo::new("grok-4-heavy", "grok-4", "MODEL_MODE_HEAVY", "Grok 4 Heavy");
        m.tier = Tier::Super;
        m.cost = Cost::High;
        v.push(m);
        v.push(
            ModelInfo::new("grok-4.1", "grok-4-1-thinking-1129", "MODEL_MODE_AUTO", "Grok 4.1"),
        );
        let mut m = ModelInfo::new(
            "grok-4.1-thinking",
            "grok-4-1-thinking-1129",
            "MODEL_MODE_GROK_4_1_THINKING",
            "Grok 4.1 Thinking",
        );
        m.cost = Cost::High;
        v.push(m);
        v.push(
            ModelInfo::new(
                "grok-4.1-mini",
                "grok-4-1-thinking-1129",
                "MODEL_MODE_GROK_4_1_MINI_THINKING",
                "Grok 4.1 Mini",
            ),
        );
        v.push(
            ModelInfo::new(
                "grok-4.1-fast",
                "grok-4-1-thinking-1129",
                "MODEL_MODE_FAST",
                "Grok 4.1 Fast",
            ),
        );
        let mut m = ModelInfo::new(
            "grok-4.1-expert",
            "grok-4-1-thinking-1129",
            "MODEL_MODE_EXPERT",
            "Grok 4.1 Expert",
        );
        m.cost = Cost::High;
        v.push(m);
        v.push(
            ModelInfo::new("grok-4.20-beta", "grok-420", "MODEL_MODE_GROK_420", "Grok 4.20 Beta"),
        );
        let mut m = ModelInfo::new("grok-imagine-1.0", "grok-3", "MODEL_MODE_FAST", "Grok Image");
        m.cost = Cost::High;
        m.is_image = true;
        m.description = String::from_str("Image generation model");
        v.push(m);
        let mut m = ModelInfo::new(
            "grok-imagine-1.0-edit",
            "imagine-image-edit",
            "MODEL_MODE_FAST",
            "Grok Image Edit",
        );
        m.cost = Cost::High;
        m.is_image_edit = true;
        m.description = String::from_str("Image editing model");
        v.push(m);
        let mut m = ModelInfo::new(
            "grok-imagine-1.0-video",
            "grok-3",
            "MODEL_MODE_FAST",
            "Grok Video",
        );
        m.cost = Cost::High;
        m.is_video = true;
        m.description = String::from_str("Video generation model");
        v.push(m);
        v
    }

    /// The catalogue entry with the given id.
    pub fn get(model_id: &str) -> (r: Option<ModelInfo>)
        ensures
            r is Some == lookup(model_id@) is Some,
            r matches Some(m) ==> lookup(model_id@) == Some(m@),
    {
        let mut models = Self::list();
        let ghost table = model_table();
        let mut i: usize = 0;
        while i < models.len()
            invariant
                models@.len() == table.len(),
                forall|j: int| 0 <= j < models@.len() ==> #[trigger] models@[j]@ == table[j],
                i <= models@.len(),
                lookup(model_id@) == lookup_from(table, model_id@, i as int),
            decreases models@.len() - i,
        {
            assert(models@[i as int]@ == table[i as int]);
            if str_eq(models[i].model_id.as_str(), model_id) {
                let m = models.remove(i);
                return Some(m);
            }
            assert(lookup_from(table, model_id@, i as int) == lookup_from(
                table,
                model_id@,
                i + 1,
            ));
            i = i + 1;
        }
        None
    }

    /// Whether the catalogue has a model with the given id.
    pub fn valid(model_id: &str) -> (b: bool)
        ensures
            b == lookup(model_id@) is Some,
    {
        Self::get(model_id).is_some()
    }

    /// The token pools to try for the model, in order of preference.
    pub fn pool_candidates_for_model(model_id: &str) -> (r: Vec<&'static str>)
        ensures
            r@.len() == pool_candidates(model_id@).len(),
            forall|i: int| 0 <= i < r@.len() ==> #[trigger] r@[i]@ == pool_candidates(model_id@)[i],
    {
        if let Some(m) = Self::get(model_id) {
            if m.tier == Tier::Super {
                return vec!["ssoSuper"];
            }
        }
        vec!["ssoBasic", "ssoSuper"]
    }
}

} // verus!
