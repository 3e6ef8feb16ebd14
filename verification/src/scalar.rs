use vstd::prelude::*;

verus! {

use crate::errors::PipelineError;

/// A single-slot cache holding one fully computed byte buffer. Each store
/// replaces the whole buffer; a fetch before the first store fails rather
/// than inventing an empty buffer.
pub struct ScalarSlot {
    pub data: Option<Vec<u8>>,
}

impl ScalarSlot {
    pub fn new() -> (r: ScalarSlot)
        ensures
            r.data is None,
    {
        ScalarSlot { data: None }
    }

    pub open spec fn is_initialized(self) -> bool {
        self.data is Some
    }

    /// Replaces whatever the slot held with the new buffer, wholesale.
    pub fn store(&mut self, bytes: Vec<u8>)
        ensures
            final(self).data matches Some(d) && d@ == bytes@,
    {
        self.data = Some(bytes);
    }

    /// Returns a duplicate of the stored buffer, or NotInitialized when no
    /// store has happened yet; it never answers with a default buffer.
    pub fn fetch(&self) -> (r: Result<Vec<u8>, PipelineError>)
        ensures
            match r {
                Ok(bytes) => self.data matches Some(d) && bytes@ == d@,
                Err(e) => self.data is None && e is NotInitialized,
            },
    {
        match &self.data {
            Some(d) => Ok(clone_bytes(d)),
            None => Err(PipelineError::NotInitialized),
        }
    }
}

/// Duplicates a byte vector element for element.
pub fn clone_bytes(bytes: &Vec<u8>) -> (r: Vec<u8>)
    ensures
        r@ == bytes@,
{
    let mut out: Vec<u8> = Vec::new();
    let mut i: usize = 0;
    while i < bytes.len()
        invariant
            i <= bytes@.len(),
            out@ == bytes@.take(i as int),
        decreases bytes@.len() - i,
    {
        out.push(bytes[i]);
        proof {
            assert(out@ =~= bytes@.take(i + 1));
        }
        i += 1;
    }
    proof {
        assert(bytes@.take(bytes@.len() as int) =~= bytes@);
    }
    out
}

} // verus!
