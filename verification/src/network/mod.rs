pub mod wifi;
pub mod whisper;
pub mod portal;
