pub mod effect_volume_slide;
pub mod pitch;
pub mod state_sample;
pub mod waveform;
