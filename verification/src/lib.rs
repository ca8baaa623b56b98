pub mod background;
pub mod call_laws;
pub mod doctor;
pub mod event_laws;
pub mod event_translator;
pub mod helper_laws;
pub mod image_laws;
pub mod images;
pub mod item_laws;
pub mod json;
pub mod json_text;
pub mod model_laws;
pub mod models;
pub mod order_laws;
pub mod part_laws;
pub mod prompt_laws;
pub mod prompt_parts;
pub mod reading;
pub mod replay;
pub mod replay_laws;
pub mod request_laws;
pub mod resume_laws;
pub mod session_state;
pub mod settings;
pub mod sort;
pub mod state_laws;
pub mod str_map;
pub mod stream_laws;
pub mod text;
pub mod text_laws;
pub mod text_stream_laws;
pub mod thread_laws;
pub mod threads;
pub mod tool_items;
pub mod tool_laws;
pub mod workspaces;
pub mod worktree_laws;
