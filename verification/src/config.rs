//! Process configuration, as the configuration loader hands it over.
//!
//! The loader itself (environment variables, defaults that look at the
//! working directory) is an external collaborator; the library treats the
//! loaded values as opaque inputs and only fixes the one default it owns: the
//! control socket's endpoint address.
use vstd::prelude::*;

verus! {

/// What the process is configured with at start.
pub struct Config {
    /// Where the model asset archive is read from.
    pub initial_model_data_path: String,
    /// Where the chat system prompt is read from.
    pub system_prompt_file_path: String,
    /// The chat collaborator's API key.
    pub openai_api_key: String,
    /// The control socket's endpoint address.
    pub ipc_socket_address: String,
}

/// The endpoint address used when none is configured.
pub open spec fn spec_default_socket_address() -> Seq<char> {
    "ipc:///tmp/puchi-sekai"@
}

/// The endpoint address used when none is configured: a path-backed local
/// rendezvous point shared with the sender tool.
pub fn default_ipc_socket_address() -> (r: String)
    ensures
        r@ == spec_default_socket_address(),
{
    String::from_str("ipc:///tmp/puchi-sekai")
}

} // verus!
