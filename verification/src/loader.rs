//! Scene-file loading: the verified part of the binary container
//! format. A binary scene file is a 12-byte header — magic, version,
//! total length, each a little-endian 32-bit word — followed by chunks
//! of an 8-byte prologue (payload length, chunk type) and a payload.
//! The chunk table is parsed here, exactly; reading the file and
//! decoding the JSON chunk stay with the caller.

use vstd::prelude::*;

verus! {

/// One chunk of the container: its type word, payload length, and the
/// payload's byte offset.
#[derive(Clone, Copy, PartialEq, Eq, Structural, Debug)]
pub struct GlbChunk {
    pub chunk_type: u32,
    pub length: u32,
    pub start_pos: u32,
}

/// A little-endian 32-bit word at byte offset `pos`.
pub open spec fn le_u32_spec(s: Seq<u8>, pos: int) -> int {
    s[pos] + 0x100 * (s[pos + 1] + 0x100 * (s[pos + 2] + 0x100 * s[pos + 3]))
}

/// The raw chunk table is well-formed from byte `cursor` on: either
/// exactly at the buffer's end, or an 8-byte prologue whose payload
/// fits, followed by a well-formed rest.
pub open spec fn chunks_walk(s: Seq<u8>, cursor: int) -> bool
    decreases s.len() - cursor,
{
    if cursor == s.len() {
        true
    } else {
        &&& cursor + 8 <= s.len()
        &&& le_u32_spec(s, cursor) <= s.len() - cursor - 8
        &&& chunks_walk(s, cursor + 8 + le_u32_spec(s, cursor))
    }
}

pub struct GltfLoader {}

impl GltfLoader {
    /// Read one little-endian word.
    fn le_u32(data: &Vec<u8>, pos: usize) -> (r: u32)
        requires
            pos + 4 <= data@.len(),
            data@.len() <= 0xffff_ffff,
        ensures
            r == le_u32_spec(data@, pos as int),
    {
        let b0 = data[pos] as u32;
        let b1 = data[pos + 1] as u32;
        let b2 = data[pos + 2] as u32;
        let b3 = data[pos + 3] as u32;
        b0 + 0x100 * (b1 + 0x100 * (b2 + 0x100 * b3))
    }

    /// Parse the chunk table of a binary scene buffer.
    ///
    /// On success the header is valid — the magic word, version two,
    /// and a total length equal to the buffer's — and every returned
    /// chunk sits where the table says: the first payload begins right
    /// after the header's and the first prologue's twenty bytes, each
    /// later payload follows its predecessor's end plus an 8-byte
    /// prologue, every length and type word is read from the bytes
    /// just before its payload, payloads stay inside the buffer, and
    /// the last one ends exactly at the buffer's end.
    /// Success is owed exactly on well-formed buffers: a valid header
    /// over a well-formed chunk table parses, and anything else is
    /// rejected.
    #[verifier::rlimit(60)]
    pub fn read_glb_chunks(data: &Vec<u8>) -> (r: Result<Vec<GlbChunk>, ()>)
        requires
            data@.len() <= 0xffff_ffff,
        ensures
            r is Ok <==> {
                &&& data@.len() >= 20
                &&& le_u32_spec(data@, 0) == 0x46546c67
                &&& le_u32_spec(data@, 4) == 2
                &&& le_u32_spec(data@, 8) == data@.len()
                &&& chunks_walk(data@, 12)
            },
            r matches Ok(cs) ==> {
                &&& data@.len() >= 20
                &&& le_u32_spec(data@, 0) == 0x46546c67
                &&& le_u32_spec(data@, 4) == 2
                &&& le_u32_spec(data@, 8) == data@.len()
                &&& cs@.len() >= 1
                &&& cs@[0].start_pos == 20
                &&& forall|j: int| 1 <= j < cs@.len() ==> (#[trigger] cs@[j]).start_pos
                    == cs@[j - 1].start_pos + cs@[j - 1].length + 8
                &&& forall|j: int| 0 <= j < cs@.len() ==> {
                    &&& (#[trigger] cs@[j]).length == le_u32_spec(data@, cs@[j].start_pos - 8)
                    &&& cs@[j].chunk_type == le_u32_spec(data@, cs@[j].start_pos - 4)
                    &&& cs@[j].start_pos + cs@[j].length <= data@.len()
                }
                &&& cs@[cs@.len() - 1].start_pos + cs@[cs@.len() - 1].length == data@.len()
            },
    {
        if data.len() < 20 {
            return Err(());
        }
        let magic = Self::le_u32(data, 0);
        if magic != 0x46546c67 {
            return Err(());
        }
        let version = Self::le_u32(data, 4);
        if version != 2 {
            return Err(());
        }
        let total = Self::le_u32(data, 8);
        if total as usize != data.len() {
            return Err(());
        }

        let mut chunks: Vec<GlbChunk> = Vec::new();
        let mut cursor: usize = 12;
        while cursor < data.len()
            invariant
                data@.len() <= 0xffff_ffff,
                data@.len() >= 20,
                12 <= cursor <= data@.len(),
                chunks_walk(data@, 12) ==> chunks_walk(data@, cursor as int),
                chunks_walk(data@, cursor as int) ==> chunks_walk(data@, 12),
                chunks@.len() == 0 ==> cursor == 12,
                chunks@.len() >= 1 ==> {
                    &&& cursor == chunks@[chunks@.len() - 1].start_pos
                        + chunks@[chunks@.len() - 1].length
                    &&& chunks@[0].start_pos == 20
                },
                forall|j: int| 1 <= j < chunks@.len() ==> (#[trigger] chunks@[j]).start_pos
                    == chunks@[j - 1].start_pos + chunks@[j - 1].length + 8,
                forall|j: int| 0 <= j < chunks@.len() ==> {
                    &&& (#[trigger] chunks@[j]).length == le_u32_spec(data@, chunks@[j].start_pos - 8)
                    &&& chunks@[j].chunk_type == le_u32_spec(data@, chunks@[j].start_pos - 4)
                    &&& chunks@[j].start_pos >= 20
                    &&& chunks@[j].start_pos + chunks@[j].length <= data@.len()
                },
            decreases data@.len() - cursor,
        {
            if data.len() - cursor < 8 {
                proof {
                    // a truncated prologue: the table is malformed here
                    assert(!chunks_walk(data@, cursor as int));
                }
                return Err(());
            }
            let chunk_length = Self::le_u32(data, cursor);
            let chunk_type = Self::le_u32(data, cursor + 4);
            let start = cursor + 8;
            if chunk_length as usize > data.len() - start {
                proof {
                    // an overlong payload: the table is malformed here
                    assert(!chunks_walk(data@, cursor as int));
                }
                return Err(());
            }
            chunks.push(GlbChunk {
                chunk_type,
                length: chunk_length,
                start_pos: start as u32,
            });
            let ghost at = cursor as int;
            cursor = start + chunk_length as usize;
            proof {
                // this step's prologue and payload were checked, so the
                // table is well-formed here exactly when it is from the
                // next chunk on
                assert(chunks_walk(data@, at)
                    == chunks_walk(data@, at + 8 + le_u32_spec(data@, at)));
            }
        }
        if chunks.len() == 0 {
            return Err(());
        }
        Ok(chunks)
    }
}

} // verus!
