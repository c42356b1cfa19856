//! Settings of an Ollama embedding server and the body of a request to it.

use vstd::prelude::*;

verus! {

/// Where and how to ask an Ollama server for embeddings.
#[derive(Clone)]
pub struct OllamaApi {
    pub url: String,
    pub model_name: String,
    pub dim: u32,
    pub context_window_size: u32,
}

/// The body of an embedding request: the model and the texts to embed.
pub struct EmbedRequest {
    pub model: String,
    pub input: Vec<String>,
}

impl OllamaApi {
    pub fn new(url: String, model_name: String, dim: u32, context_window_size: u32) -> (api: Self)
        ensures
            api.url == url,
            api.model_name == model_name,
            api.dim == dim,
            api.context_window_size == context_window_size,
    {
        OllamaApi { url, model_name, dim, context_window_size }
    }

    /// The request that embeds `sentences` with this model.
    pub fn embed_request(self, sentences: Vec<String>) -> (req: EmbedRequest)
        ensures
            req.model == self.model_name,
            req.input == sentences,
    {
        EmbedRequest { model: self.model_name, input: sentences }
    }
}

} // verus!
