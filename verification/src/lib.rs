//! The decision core of terminite, a terminal for the human + AI pair.

pub mod acp;
pub mod agent;
pub mod agent_laws;
pub mod ancestry;
pub mod animation;
pub mod block_laws;
pub mod blocks;
pub mod colors;
pub mod command_laws;
pub mod comms;
pub mod config;
pub mod config_laws;
pub mod content_laws;
pub mod cycle;
pub mod deliveries;
pub mod delivery_laws;
pub mod encode;
pub mod files;
pub mod files_laws;
pub mod find;
pub mod floor;
pub mod floor_laws;
pub mod frame;
pub mod gesture_laws;
pub mod input;
pub mod json;
pub mod key_laws;
pub mod keys;
pub mod kinds;
pub mod labels;
pub mod layout_laws;
pub mod menu;
pub mod messages;
pub mod mouse;
pub mod mouse_laws;
pub mod overlays;
pub mod paint;
pub mod paint_laws;
pub mod palette;
pub mod pane_laws;
pub mod press;
pub mod proto;
pub mod proto_laws;
pub mod proto_room;
pub mod query_laws;
pub mod relayout;
pub mod renderer;
pub mod replies;
pub mod reply_laws;
pub mod restore;
pub mod retab;
pub mod room;
pub mod room_laws;
pub mod round_laws;
pub mod saved;
pub mod select_laws;
pub mod selection;
pub mod tab;
pub mod tab_tree;
pub mod tabs;
pub mod text;
pub mod text_laws;
pub mod time_laws;
pub mod title_laws;
pub mod titles;
pub mod tree;
pub mod tree_laws;
pub mod walk;
pub mod wheel;
pub mod window_laws;
pub mod wire;
pub mod workspace;
