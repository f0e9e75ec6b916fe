pub mod common;
pub mod engine_map;
pub mod voices;
pub mod engine;
pub mod queue;
pub mod coeiroink_v2;
pub mod voicevox_family;
pub mod bouyomichan;
pub mod plugin;
pub mod menu;
pub mod descript;
pub mod variables;
pub mod system;
pub mod resources;
pub mod text;
pub mod tags;
pub mod punct;
pub mod align;
pub mod resplit;
pub mod dialog;
pub mod quick;
pub mod format;
