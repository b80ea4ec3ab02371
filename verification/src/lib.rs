//! The verified core of DSonDT, a local DeepSeek desktop client with an
//! editable long-term memory: memory retrieval and prompts, API-key storage,
//! the chat message list and answer stream, conversation export/import, the
//! update check and the web-mode state.
pub mod apikey;
pub mod chat;
pub mod memory;
pub mod records;
pub mod text;
pub mod update;
pub mod version;
pub mod web;
pub mod web_script;
