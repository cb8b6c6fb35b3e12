//! Personality-driven speech cache and playback pipeline for a desktop
//! system monitor: message composition, cache-key derivation, cache
//! bookkeeping and the decisions of the speak loop, all over exact integer
//! and sequence models.

pub mod ai_personality;
pub mod audio_manager;
pub mod encoding;
pub mod message_system;
pub mod network_stats;
pub mod pipeline;
pub mod random;
pub mod system_info;
pub mod text;
pub mod tts;
pub mod uniqueness;
pub mod warnings;

pub use ai_personality::AIPersonality;
pub use audio_manager::AudioManager;
pub use network_stats::NetworkStats;
pub use system_info::{
    check_system_requirements, get_available_disk_space_gb, get_cpu_cores, get_total_memory_gb,
    MIN_CPU_CORES, MIN_DISK_GB, MIN_MEMORY_GB,
};
pub use tts::TTSManager;
