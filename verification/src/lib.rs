pub mod endpoint;
pub mod json;
pub mod json_text;
pub mod ordered;
pub mod protocol;
pub mod reasoning;
pub mod roles;
pub mod seqs;
pub mod sse;
pub mod text;
pub mod views;
