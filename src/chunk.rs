//! A piece of a representation's byte stream, named by its file.
use vstd::prelude::*;

use crate::error::Error;
use crate::helper::{clean_path, without_tmp};

verus! {

/// Bytes read from a file of the encoder's output.
pub struct Chunk {
    /// The file's path without any `.tmp`.
    pub name: String,
    pub data: Vec<u8>,
}

impl Chunk {
    pub fn new(path: &str, data: Vec<u8>) -> (r: Result<Chunk, Error>)
        ensures
            r.is_ok(),
            r.unwrap().name@ == without_tmp(path@),
            r.unwrap().data == data,
    {
        let name = clean_path(path)?;
        Ok(Chunk { name, data })
    }
}

} // verus!
