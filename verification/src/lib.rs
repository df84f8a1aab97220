//! Verified core of the melops audio captioning tools: audio segmentation,
//! chunk planning, greedy TDT decoding decisions, cache layout and cache
//! policies, the artifact index, and YouTube link extraction.

pub mod arith;
pub mod text;
pub mod urlword;

pub mod chunk;
pub mod segment;
pub mod slice;
pub mod tdt;
pub mod tokenizer;

pub mod cache;
pub mod index;

pub mod cap;
pub mod cli;
pub mod dl;
pub mod params;
pub mod web;
