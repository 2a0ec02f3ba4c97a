//! The analysis boundary: a collaborator that takes the canonical
//! frame and instruction text and returns free text in the reply
//! grammar. Implementations live outside the library (they do network
//! I/O); the library only parses what comes back.

use vstd::prelude::*;

use crate::errors::Error;

verus! {

/// A vision/text collaborator: content is staged piece by piece, then
/// one execution returns the reply text.
pub trait LLMEngine {
    /// Stage an instruction text.
    fn add_text_content(&mut self, text: &str);

    /// Stage a base64-encoded canonical frame.
    fn add_image_content(&mut self, base64_image: &str);

    /// Drop all staged content.
    fn clear_content(&mut self);

    /// Send the staged content and return the reply text.
    fn execute(&mut self) -> Result<String, Error>;
}

} // verus!
