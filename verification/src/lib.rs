//! Audio buffers, sample formats and encodings, with verified contracts.

pub mod audio;
pub mod audio_encoder;
pub mod byte_order;
pub mod channel_converter;
pub mod convert;
pub mod device;
pub mod encoded_audio;
pub mod encoders;
pub mod error;
pub mod latency_config;
pub mod node_info;
pub mod output_config;
pub mod pcm_audio;
pub mod pcm_codec;
pub mod pipeline;
pub mod planar_sample_buffer;
pub mod playback;
pub mod processor;
pub mod pulseaudio;
pub mod realtime;
pub mod resampler;
pub mod sample_buffer;
