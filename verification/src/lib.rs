pub mod text;
pub mod path;
pub mod order;
pub mod scan;
pub mod ids;
pub mod finding;
pub mod facts;
pub mod ir;
pub mod workspace;
pub mod reach;
pub mod analysis;
pub mod duplication;
pub mod confidence;
pub mod dead_files;
pub mod deps;
pub mod imports;
pub mod symbols;
pub mod exports;
pub mod style;
pub mod fix;
pub mod discover;
pub mod comments;
pub mod doc;
pub mod doc_text;
pub mod config;
pub mod postprocess;
pub mod cache;
pub mod policy;
pub mod cycles;
pub mod hash;
pub mod passes;
pub mod cli;
pub mod watch;
pub mod syntax;
pub mod params;
pub mod extract;
