use vstd::prelude::*;

pub mod audio;
pub mod catalogue;
pub mod ids;
pub mod init;
pub mod ipa;
pub mod keys;
pub mod lessons;
pub mod queries;
pub mod schema;
pub mod seed;
pub mod text;
pub mod unit_words;
pub mod words;

verus! {

} // verus!
