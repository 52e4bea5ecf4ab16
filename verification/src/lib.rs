//! The decision-making core of a collaborative code editor.

pub mod anchor;
pub mod auto_update;
pub mod basic_laws;
pub mod brackets;
pub mod clock;
pub mod collab;
pub mod collections;
pub mod context_server_tool;
pub mod decimal;
pub mod edit_prediction_registry;
pub mod editor;
pub mod file_links;
pub mod hint_data_laws;
pub mod hint_hover;
pub mod hint_laws;
pub mod hint_laws_of_editors;
pub mod hint_refresh;
pub mod hover_links;
pub mod inlay_hints;
pub mod link_laws;
pub mod onboarding_modal;
pub mod pointer_laws;
pub mod popover_laws;
pub mod text;
pub mod text_order;
pub mod update_laws;
pub mod url_links;
pub mod user;
pub mod user_laws;
pub mod user_store;
