//! Which models a request may name, and the choice made for a request.
use vstd::prelude::*;
use crate::textseq::str_eq;

verus! {

pub const DEFAULT_FREE_TIER_MODEL: &'static str = "gemini-3.1-flash-tts-preview";

pub const FALLBACK_FREE_TIER_MODEL: &'static str = "gemini-2.5-flash-preview-tts";

/// The models a request may use, with the default and the fallback.
#[derive(Debug)]
pub struct ModelRegistry {
    pub allowed_models: Vec<String>,
    pub default_model: String,
    pub fallback_model: String,
}

impl Default for ModelRegistry {
    /// Both free-tier models allowed; the 3.1 model is the default.
    fn default() -> (r: Self)
        ensures
            r.allowed_models@.len() == 2,
            r.allowed_models@[0]@ == DEFAULT_FREE_TIER_MODEL@,
            r.allowed_models@[1]@ == FALLBACK_FREE_TIER_MODEL@,
            r.default_model@ == DEFAULT_FREE_TIER_MODEL@,
            r.fallback_model@ == FALLBACK_FREE_TIER_MODEL@,
    {
        let mut allowed: Vec<String> = Vec::new();
        allowed.push(DEFAULT_FREE_TIER_MODEL.to_owned());
        allowed.push(FALLBACK_FREE_TIER_MODEL.to_owned());
        ModelRegistry {
            allowed_models: allowed,
            default_model: DEFAULT_FREE_TIER_MODEL.to_owned(),
            fallback_model: FALLBACK_FREE_TIER_MODEL.to_owned(),
        }
    }
}

impl ModelRegistry {
    /// The model is in the allowed list (exact match).
    pub open spec fn allows(&self, model: Seq<char>) -> bool {
        exists|i: int| 0 <= i < self.allowed_models@.len() && (#[trigger] self.allowed_models@[i])@ == model
    }

    pub fn is_model_allowed(&self, model_id: &str) -> (r: bool)
        ensures
            r == self.allows(model_id@),
    {
        let mut i: usize = 0;
        while i < self.allowed_models.len()
            invariant
                0 <= i <= self.allowed_models@.len(),
                forall|k: int| 0 <= k < i ==> (#[trigger] self.allowed_models@[k])@ != model_id@,
            decreases self.allowed_models@.len() - i,
        {
            if str_eq(self.allowed_models[i].as_str(), model_id) {
                return true;
            }
            i = i + 1;
        }
        false
    }

    /// The requested model where it is allowed, otherwise the default model.
    pub fn sanitize_model_choice(&self, requested_model: Option<&str>) -> (r: String)
        ensures
            (requested_model matches Some(m) && self.allows(m@)) ==> r@ == requested_model.unwrap()@,
            !(requested_model matches Some(m) && self.allows(m@)) ==> r@ == self.default_model@,
    {
        match requested_model {
            Some(m) => {
                if self.is_model_allowed(m) {
                    m.to_owned()
                } else {
                    self.default_model.clone()
                }
            },
            None => self.default_model.clone(),
        }
    }
}

} // verus!
