//! The application state built at startup and shared with the UI layer's
//! request handlers: the configuration, the model asset encoded for the
//! presentation surface, and the chat system prompt.
use vstd::prelude::*;

use crate::config::Config;

verus! {

/// The text that the standard base64 encoding (padded, as the asset pipeline
/// expects it) makes of a byte sequence.
pub uninterp spec fn base64_of(bytes: Seq<u8>) -> Seq<char>;

/// Relies on base64's `Engine::encode` with the `STANDARD` engine: the
/// encoding is a function of the input bytes alone, and writes four
/// characters for every started group of three input bytes. The length bound
/// keeps the engine's own output-size computation from overflowing, on which
/// it would panic.
#[verifier::external_body]
fn base64_encode(data: &Vec<u8>) -> (r: String)
    requires
        data@.len() <= usize::MAX / 2,
    ensures
        r@ == base64_of(data@),
        r@.len() == 4 * ((data@.len() + 2) / 3),
{
    base64::Engine::encode(&base64::engine::general_purpose::STANDARD, data.as_slice())
}

/// A notification pushed to the presentation surface when it subscribes.
pub enum Event {
    /// The model asset's raw bytes.
    ModelData { data: Vec<u8> },
}

/// The mathematical model of an `Event`.
pub enum UiEventModel {
    ModelData { data: Seq<u8> },
}

impl View for Event {
    type V = UiEventModel;

    open spec fn view(&self) -> UiEventModel {
        match self {
            Event::ModelData { data } => UiEventModel::ModelData { data: data@ },
        }
    }
}

/// The state owned for the process lifetime.
pub struct AppState {
    pub config: Config,
    /// The model asset, base64-encoded once at startup.
    pub model_data_b64: String,
    /// The chat system prompt, read once at startup.
    pub system_prompt: String,
}

impl AppState {
    /// Builds the startup state: encodes the model asset once, so that every
    /// later hand-out is a copy of the same text.
    pub fn new(config: Config, model_data: &Vec<u8>, system_prompt: String) -> (st: AppState)
        requires
            model_data@.len() <= usize::MAX / 2,
        ensures
            st.config == config,
            st.system_prompt == system_prompt,
            st.model_data_b64@ == base64_of(model_data@),
            st.model_data_b64@.len() == 4 * ((model_data@.len() + 2) / 3),
    {
        let model_data_b64 = base64_encode(model_data);
        AppState { config, model_data_b64, system_prompt }
    }

    /// Hands the encoded model asset out to a request handler.
    pub fn model_data_b64(&self) -> (r: String)
        ensures
            r@ == self.model_data_b64@,
    {
        self.model_data_b64.clone()
    }

    /// Hands the system prompt out to the chat hand-off.
    pub fn system_prompt(&self) -> (r: String)
        ensures
            r@ == self.system_prompt@,
    {
        self.system_prompt.clone()
    }
}

} // verus!
