pub mod address;
pub mod agent;
pub mod amount;
pub mod blockchain_service;
pub mod decimal;
pub mod digits;
pub mod json;
pub mod message;
pub mod report;
pub mod text;
