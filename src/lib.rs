//! Resolution of biological-part records: a lenient flat-file parser, an
//! ontology classifier and a field-wise merge of candidate records.
pub mod text;
pub mod ontology;
pub mod types;
pub mod merge;
pub mod genbank;
pub mod providers;
pub mod search;
pub mod sbol;
pub mod authors;
pub mod sources;
