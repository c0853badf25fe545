//! Model catalogs and prices.
use vstd::prelude::*;

verus! {

/// Prices per token, in USD, as decimal text.
#[derive(Debug, Clone)]
pub struct ModelPricing {
    /// Input/prompt tokens per-token rate (USD per token, e.g. `"0.000005"` = $5/1M tokens).
    pub prompt: Option<String>,
    /// Output/completion tokens per-token rate (USD per token, e.g. `"0.000020"` = $20/1M tokens).
    pub completion: Option<String>,
    /// Cached input read rate (USD per token).
    pub input_cache_read: Option<String>,
    /// Cached input write rate (USD per token).
    pub input_cache_write: Option<String>,
}

/// Model info with optional pricing.
#[derive(Debug, Clone)]
pub struct ModelInfo {
    /// Identifies the model at its provider.
    pub id: String,
    /// Prices, where the provider publishes them.
    pub pricing: Option<ModelPricing>,
    /// Maximum input window in tokens, as reported by the provider catalog.
    /// `None` means unknown: no default stands in for it.
    pub context_window: Option<usize>,
}

/// A catalog that lists `ids` in order, with neither prices nor context windows.
pub fn catalog_without_pricing(ids: Vec<String>) -> (catalog: Vec<ModelInfo>)
    ensures
        catalog@.len() == ids@.len(),
        forall|i: int|
            0 <= i < ids@.len() ==> #[trigger] catalog@[i] == (ModelInfo {
                id: ids@[i],
                pricing: None,
                context_window: None,
            }),
{
    let mut catalog: Vec<ModelInfo> = Vec::new();
    for id in it: ids.into_iter()
        invariant
            it.seq() == ids@,
            catalog@.len() == it.index(),
            forall|i: int|
                0 <= i < it.index() ==> #[trigger] catalog@[i] == (ModelInfo {
                    id: ids@[i],
                    pricing: None,
                    context_window: None,
                }),
    {
        catalog.push(ModelInfo { id, pricing: None, context_window: None });
    }
    catalog
}

} // verus!
