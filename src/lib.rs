pub mod text;
pub mod token;
pub mod sampler;
pub mod error;
pub mod seeds;
pub mod space;
pub mod conceptx;
pub mod similarity;
pub mod calculator;
pub mod web;
