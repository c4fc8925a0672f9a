//! Game rules of a rat-army strategy game: armies, items, quests, battles,
//! the dialogue system and the save/rewind checkpoints, with their contracts.

pub mod flags;
pub mod team;
pub mod items;
pub mod units;
pub mod text;
pub mod vars;
pub mod articy;
pub mod dialogue;
pub mod articy_graph;
pub mod plain_articy;
pub mod quest;
pub mod battle;
pub mod app_state;
pub mod game_state;
pub mod planning;
pub mod unit;
pub mod sfx;
pub mod clickable;
pub mod cutscene;
