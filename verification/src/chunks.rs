//! Fixed-size chunks of a string slice.

use vstd::prelude::*;
use vstd::string::StringSliceAdditionalSpecFns;
use vstd::utf8::encode_utf8;
use vstd::utf8::is_ascii_chars;
use vstd::utf8::is_char_boundary;
use vstd::utf8::is_continuation_byte;

verus! {

/// Whether `bytes`, the encoding of some text, can be cut every `n` bytes
/// without splitting a character: every multiple of `n` inside it falls on a
/// character boundary.
pub open spec fn chunkable(bytes: Seq<u8>, n: nat) -> bool
    decreases bytes.len(),
{
    n > 0 && (bytes.len() <= n || (is_char_boundary(bytes, n as int) && chunkable(
        bytes.skip(n as int),
        n,
    )))
}

/// The length of the chunk that comes first out of `len` remaining bytes.
pub open spec fn chunk_len(len: nat, n: nat) -> nat {
    if n < len {
        n
    } else {
        len
    }
}

/// A iterator over a string slice in (non-overlapping) chunks (`chunk_size` elements at a time),
/// starting at the beginning of the slice.
///
/// When the slice is not evenly divided by the chunk size, the last slice of the iteration will be
/// the remainder.
#[derive(Debug)]
pub struct StrChunkIter<'a> {
    v: &'a str,
    chunk_size: usize,
}

impl<'a> StrChunkIter<'a> {
    /// The encoded text that has not been handed out yet.
    pub closed spec fn remaining(&self) -> Seq<u8> {
        self.v.spec_bytes()
    }

    /// The number of bytes in every chunk but the last.
    pub closed spec fn chunk_size(&self) -> nat {
        self.chunk_size as nat
    }

    #[verifier::type_invariant]
    spec fn cuts_on_boundaries(&self) -> bool {
        chunkable(self.v.spec_bytes(), self.chunk_size as nat)
    }

    /// Hands out the next chunk: the first `chunk_size` bytes of what remains,
    /// or all of it where less remains, and `None` once nothing remains.
    pub fn next(&mut self) -> (r: Option<&'a str>)
        ensures
            final(self).chunk_size() == old(self).chunk_size(),
            old(self).remaining().len() == 0 ==> r is None && final(self).remaining() == old(
                self,
            ).remaining(),
            old(self).remaining().len() > 0 ==> ({
                let k = chunk_len(old(self).remaining().len(), old(self).chunk_size()) as int;
                &&& r is Some
                &&& r->0.spec_bytes() == old(self).remaining().take(k)
                &&& final(self).remaining() == old(self).remaining().skip(k)
            }),
    {
        proof {
            use_type_invariant(&*self);
        }
        let len = self.v.as_bytes().len();
        if len > 0 {
            let upper_bound = if self.chunk_size < len {
                self.chunk_size
            } else {
                len
            };
            proof {
                let bytes = self.v.spec_bytes();
                vstd::utf8::encode_utf8_valid_utf8(self.v@);
                vstd::utf8::is_char_boundary_start_end_of_seq(bytes);
            }
            let (slice, rest) = self.v.split_at(upper_bound);
            proof {
                let bytes = self.v.spec_bytes();
                assert(rest.spec_bytes() == bytes.skip(upper_bound as int));
                assert(slice.spec_bytes() == bytes.take(upper_bound as int));
            }
            self.v = rest;
            Some(slice)
        } else {
            None
        }
    }
}

/// A trait for converting a string slice to chunks of a fixed size.
pub trait StrChunk {
    /// The encoded text that the chunks are cut from.
    spec fn text_bytes(&self) -> Seq<u8>;

    /// Returns an interator over `chunk_size` slices of a string slice, starting at the beginning.
    ///
    /// Unlike `std::slice::chunks`, this does not return a slice of chars, but `str`s.
    fn chunks(&self, chunk_size: usize) -> (it: StrChunkIter<'_>)
        requires
            chunk_size != 0,
            chunkable(self.text_bytes(), chunk_size as nat),
        ensures
            it.remaining() == self.text_bytes(),
            it.chunk_size() == chunk_size,
    ;
}

impl StrChunk for str {
    open spec fn text_bytes(&self) -> Seq<u8> {
        self.spec_bytes()
    }

    fn chunks(&self, chunk_size: usize) -> (it: StrChunkIter<'_>) {
        StrChunkIter { v: self, chunk_size }
    }
}

impl StrChunk for String {
    open spec fn text_bytes(&self) -> Seq<u8> {
        encode_utf8(self@)
    }

    fn chunks(&self, chunk_size: usize) -> (it: StrChunkIter<'_>) {
        StrChunkIter { v: self.as_str(), chunk_size }
    }
}

/// Text made of ASCII characters alone can be cut into chunks of any
/// non-zero size.
pub proof fn lemma_ascii_chunkable(chars: Seq<char>, n: nat)
    requires
        is_ascii_chars(chars),
        n > 0,
    ensures
        chunkable(encode_utf8(chars), n),
    decreases chars.len(),
{
    let bytes = encode_utf8(chars);
    vstd::utf8::is_ascii_chars_encode_utf8(chars);
    vstd::utf8::encode_utf8_valid_utf8(chars);
    if bytes.len() > n {
        let c = chars[n as int];
        let b = bytes[n as int];
        assert(b == c as u8);
        assert(b < 128);
        assert(!is_continuation_byte(b)) by (bit_vector)
            requires
                b < 128,
        ;
        vstd::utf8::is_char_boundary_iff_not_is_continuation_byte(bytes, n as int);
        let rest = chars.skip(n as int);
        vstd::utf8::is_ascii_chars_encode_utf8(rest);
        assert(encode_utf8(rest) =~= bytes.skip(n as int));
        lemma_ascii_chunkable(rest, n);
    }
}

} // verus!
