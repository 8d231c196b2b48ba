//! Description of a model file on the Hugging Face Hub.
use vstd::prelude::*;

verus! {

/// A GGUF model file in a Hugging Face repository, with the name of the chat
/// formatter that suits it.
#[derive(Copy, Clone, Debug)]
pub struct HfModel {
    /// Repository identifier (e.g. `"bartowski/Llama-3.2-3B-Instruct-GGUF"`).
    pub repo: &'static str,
    /// File name within the repository (e.g. `"Llama-3.2-3B-Instruct-Q8_0.gguf"`).
    pub filename: &'static str,
    /// Formatter name accepted by `DynamicFormatter::try_from` (e.g. `"llama3"`).
    pub formatter: &'static str,
}

} // verus!
