//! Configuration of a local model endpoint.

use vstd::prelude::*;

verus! {

/// A local model and what it accepts.
#[derive(Debug, Clone)]
pub struct LocalModelConfig {
    pub name: String,
    pub endpoint: String,
    pub launch_script: Option<String>,
    pub supports_images: bool,
    pub supports_audio: bool,
}

impl Default for LocalModelConfig {
    /// The llama.cpp server at 127.0.0.1:7080, taking images but not
    /// audio.
    fn default() -> (c: Self)
        ensures
            c.name@ == "local-llamacpp"@,
            c.endpoint@ == "http://127.0.0.1:7080/v1/chat/completions"@,
            c.launch_script is None,
            c.supports_images,
            !c.supports_audio,
    {
        LocalModelConfig {
            name: String::from_str("local-llamacpp"),
            endpoint: String::from_str("http://127.0.0.1:7080/v1/chat/completions"),
            launch_script: None,
            supports_images: true,
            supports_audio: false,
        }
    }
}

} // verus!
