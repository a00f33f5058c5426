//! Orchestration core of the Hyperbeam launcher.
//!
//! The launcher decides, once per frame of its host, what the application
//! should be doing: checking for a newer release, presenting the installed
//! modpacks, or handing control to the selected content. Nothing in this
//! crate reads a file, opens a connection or touches the engine: the host
//! does that and hands over what it found, and every function here says in
//! its contract what it makes of it.
//!
//! - [`modpack`] builds the catalog of modpacks from the listing of their
//!   folder, and loads their icons, splash images and plugins.
//! - [`self_update`] decides whether a release is an update, follows the
//!   download of one, and unpacks it entry by entry.
//! - [`launcher`] is the state machine that ties the two to the user's input.
//! - [`archive`], [`picture`] and [`version`] reach for the `zip`, `image` and
//!   `semver` crates; what is taken on trust from them is said there.
//! - [`input`], [`config`], [`assetbundle`] and [`text`] are small parts that
//!   the others share.

pub mod archive;
pub mod assetbundle;
pub mod config;
pub mod input;
pub mod launcher;
pub mod modpack;
pub mod picture;
pub mod self_update;
pub mod text;
pub mod version;
