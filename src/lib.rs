//! Client-side inventory manager core: a session state machine, an inventory
//! store that owns every inventory and item, the subscriber list both use to
//! fan out their replies, and the decision logic of the item components.

pub mod auth;
pub mod auth_state;
pub mod create_item;
pub mod item_card;
pub mod messages;
pub mod model;
pub mod route;
pub mod store;
pub mod store_laws;
pub mod store_spec;
pub mod subscribers;
