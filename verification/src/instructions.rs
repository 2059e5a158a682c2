pub mod add_game_to_profile;
pub mod initialize_feed;
pub mod initialize_game;
pub mod remove_game_from_profile;
pub mod star_game;
pub mod unstar_game;
pub mod user_profile;
