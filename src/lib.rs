pub mod codec;
pub mod json;
pub mod manifest;
pub mod queue;
pub mod request;
pub mod track;
