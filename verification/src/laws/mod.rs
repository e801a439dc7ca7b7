//! What the library promises, stated of its functions: whatever a call may have brought about has
//! these properties.
pub mod capturing;
pub mod coding;
pub mod concealment;
pub mod conversion;
pub mod denoising;
pub mod detection;
pub mod mixing;
pub mod naming;
pub mod ownership;
pub mod peers;
pub mod playback;
pub mod reordering;
pub mod settings;
pub mod switching;
pub mod updating;
pub mod volume;
