pub mod agent;
pub mod decimal;
pub mod demux;
pub mod display;
pub mod supervisor;
