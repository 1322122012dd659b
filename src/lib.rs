pub mod edge;
pub mod interval;
pub mod processor;
pub mod progress;
pub mod seam;
pub mod status;
pub mod sweep;
pub mod walls;
