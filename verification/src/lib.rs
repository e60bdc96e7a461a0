//! The video runtime of an audio workstation: which frames of its clips are decoded, by what, where
//! they are kept, and what a renderer is handed to show them.
//!
//! Clips are named by text keys ([`clip_key`], [`clip_map`]). A frame of a clip is searched by a
//! [`decode`]r, and a strip of thumbnails is made of key frames ([`preview`]) or of evenly spaced
//! samples ([`hardware_preview`]); both drive a decoder packet by packet ([`pump`]) and work on
//! pixels ([`frame`]). The work with files and devices itself is up to the caller, who performs one
//! action after the other and hands back what came of it. Which device and which producer decode a
//! clip is decided in [`hwaccel`] and [`producer`].
//!
//! The [`runtime`] lets the CPU or the [`vulkan`] backend serve. The latter keeps requests and
//! frames in a [`lane`] for previews and one for current frames, and the frames as textures of a
//! [`registry`], from which a [`surface`] uploads them. The [`presenter`] and the [`workspace`]
//! say what is shown.
//!
//! Times and rates are floats. They are compared by the caller; where one is kept, it is kept by
//! its bits.
pub mod clip_key;
pub mod clip_map;
pub mod decode;
pub mod frame;
pub mod hardware_preview;
pub mod hwaccel;
pub mod lane;
pub mod presenter;
pub mod preview;
pub mod producer;
pub mod pump;
pub mod registry;
pub mod runtime;
pub mod surface;
pub mod text;
pub mod types;
pub mod vulkan;
pub mod workspace;
