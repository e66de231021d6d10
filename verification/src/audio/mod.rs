pub mod analyzer;
pub mod cic;
pub mod decoder;
pub mod dop;
pub mod dsd;
pub mod fulltrack;
pub mod output;
pub mod player;
pub mod spectrogram;
pub mod visualizer;
pub mod worker;
