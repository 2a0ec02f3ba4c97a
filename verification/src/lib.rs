//! Device interaction and orchestration logic for an e-ink tablet
//! reading assistant: framebuffer location and decoding, input-event
//! synthesis for pen, touch and keyboard, reply parsing, and the
//! iteration state machine that binds them together.

pub mod analysis;
pub mod codecs;
pub mod device_model;
pub mod errors;
pub mod events;
pub mod framebuffer;
pub mod geometry;
pub mod image_ops;
pub mod keyboard;
pub mod llm;
pub mod orchestrator;
pub mod pages;
pub mod parser;
pub mod pen;
pub mod renderer;
pub mod screenshot;
pub mod strutil;
pub mod symbols;
pub mod touch;
pub mod transform;
pub mod workflow;

pub use analysis::{CircleDetector, QuestionContext, QuestionExtractor};
pub use device_model::DeviceModel;
pub use errors::Error;
pub use geometry::BoundingBox;
pub use keyboard::Keyboard;
pub use llm::LLMEngine;
pub use orchestrator::Orchestrator;
pub use pages::{NavigationDirection, PageManager, XochitlIntegration};
pub use parser::AnalysisResult;
pub use pen::Pen;
pub use renderer::Renderer;
pub use screenshot::Screenshot;
pub use symbols::SymbolPool;
pub use touch::{Touch, TriggerCorner};
pub use workflow::Workflow;
