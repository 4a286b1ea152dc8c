//! Core of a streaming chat-completion client: a bounded conversation
//! history that assembles prompts, an incremental decoder for the
//! line-oriented event stream a completion endpoint sends back, and the
//! construction of the JSON request body that opens such a stream.

pub mod chatml;
pub mod decode;
pub mod history;
pub mod ingest;
pub mod wire;

pub use chatml::ChatMLClient;
pub use decode::ChatCompletion;
pub use decode::ChunkEvent;
pub use decode::StreamDecoder;
pub use history::ChatHistory;
pub use history::PromptMessage;
pub use history::Role;
