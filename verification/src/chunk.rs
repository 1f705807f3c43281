//! One unit of a chunked document: a sentence and its embedding vector.

use vstd::prelude::*;

verus! {

/// A sentence with its embedding, as the chunking service returns it.
///
/// Each component of the embedding is held as the bit pattern of a 32-bit
/// IEEE 754 number. The library never computes with the components: it hands
/// them on, in order and unchanged, to the memory store.
#[derive(Debug, PartialEq, Eq)]
pub struct Chunk {
    pub sentence: String,
    pub embedding: Vec<u32>,
}

/// What a [`Chunk`] holds, as mathematical values.
pub ghost struct ChunkModel {
    pub sentence: Seq<char>,
    pub embedding: Seq<u32>,
}

impl View for Chunk {
    type V = ChunkModel;

    open spec fn view(&self) -> ChunkModel {
        ChunkModel { sentence: self.sentence@, embedding: self.embedding@ }
    }
}

/// The models of a sequence of chunks, in the same order.
pub open spec fn chunk_models(chunks: Seq<Chunk>) -> Seq<ChunkModel> {
    Seq::new(chunks.len(), |i: int| chunks[i]@)
}

impl Chunk {
    /// A chunk of the given sentence and embedding.
    pub fn new(sentence: String, embedding: Vec<u32>) -> (chunk: Chunk)
        ensures
            chunk@ == (ChunkModel { sentence: sentence@, embedding: embedding@ }),
    {
        Chunk { sentence, embedding }
    }
}

/// Copies an embedding vector component by component.
pub fn copy_embedding(embedding: &Vec<u32>) -> (copy: Vec<u32>)
    ensures
        copy@ == embedding@,
{
    let mut copy: Vec<u32> = Vec::new();
    let mut i: usize = 0;
    while i < embedding.len()
        invariant
            i <= embedding.len(),
            copy@ == embedding@.subrange(0, i as int),
        decreases embedding.len() - i,
    {
        copy.push(embedding[i]);
        assert(copy@ =~= embedding@.subrange(0, i + 1));
        i += 1;
    }
    assert(embedding@.subrange(0, i as int) =~= embedding@);
    copy
}

} // verus!
