use vstd::prelude::*;
use vstd::string::StringSliceAdditionalSpecFns;
use vstd::utf8::{decode_utf8, valid_utf8};

use crate::text::utf8_string;

verus! {

/// How many bytes one read of foreign memory asks for at most.
pub const CHUNK: usize = 1024;

/// Why a string could not be moved into or out of the target's memory.
#[derive(Clone, Copy, Debug, PartialEq, Eq, Structural)]
pub enum ForeignMemoryError {
    /// The string to write holds a zero byte, so it cannot be terminated.
    InteriorNul,
    /// The address to read from is null.
    NullAddress,
    /// The target process could not be opened.
    OpenFailed,
    /// No region could be reserved in the target.
    AllocationFailed,
    /// Writing into the reserved region failed.
    WriteFailed,
    /// The region holding the address could not be queried.
    QueryFailed,
    /// Reading from the region failed.
    ReadFailed,
    /// The region ends before a zero byte.
    TerminatorNotFound,
    /// The bytes before the terminator are no valid UTF-8.
    InvalidText,
}

/// No byte of `s` is zero.
pub open spec fn zero_free(s: Seq<u8>) -> bool {
    forall|i: int| 0 <= i < s.len() ==> s[i] != 0
}

/// `p` is the position of the first zero byte of `s`.
pub open spec fn is_first_zero(s: Seq<u8>, p: int) -> bool {
    0 <= p < s.len() && s[p] == 0 && zero_free(s.subrange(0, p))
}

/// The bytes written into the target for `text`: its UTF-8 encoding and a
/// terminating zero. Fails when the text holds a zero byte.
pub fn encode_argument(text: &str) -> (r: Result<Vec<u8>, ForeignMemoryError>)
    ensures
        match r {
            Ok(v) => zero_free(text.spec_bytes()) && v@ == text.spec_bytes().push(0),
            Err(e) => !zero_free(text.spec_bytes()) && e == ForeignMemoryError::InteriorNul,
        },
{
    let b = text.as_bytes();
    let mut out: Vec<u8> = Vec::new();
    let mut i: usize = 0;
    while i < b.len()
        invariant
            i <= b@.len(),
            b@ == text.spec_bytes(),
            out@ == b@.subrange(0, i as int),
            zero_free(out@),
        decreases b@.len() - i,
    {
        if b[i] == 0 {
            return Err(ForeignMemoryError::InteriorNul);
        }
        out.push(b[i]);
        assert(out@ =~= b@.subrange(0, i + 1));
        i = i + 1;
    }
    assert(out@ =~= b@);
    out.push(0);
    Ok(out)
}

/// What one chunk of a read gives: more to read, the bytes before the
/// terminator, or the end of the region without one.
#[derive(Debug, Clone)]
pub enum ReadProgress {
    More,
    Finished(Vec<u8>),
    TerminatorNotFound,
}

/// `None` for more to read; `Some(Some(b))` for the bytes before the
/// terminator; `Some(None)` for a region that ends without one.
pub open spec fn progress_view(p: ReadProgress) -> Option<Option<Seq<u8>>> {
    match p {
        ReadProgress::More => None,
        ReadProgress::Finished(b) => Some(Some(b@)),
        ReadProgress::TerminatorNotFound => Some(None),
    }
}

/// The length of the next read at `offset` in a region of `size` bytes.
pub open spec fn next_read_len(size: nat, offset: nat) -> nat {
    if size - offset < CHUNK as nat {
        (size - offset) as nat
    } else {
        CHUNK as nat
    }
}

/// One chunk taken in: where the next read starts, what has been gathered, and the outcome.
pub open spec fn feed_spec(size: nat, offset: nat, collected: Seq<u8>, chunk: Seq<u8>) -> (
    nat,
    Seq<u8>,
    Option<Option<Seq<u8>>>,
) {
    if exists|p: int| is_first_zero(chunk, p) {
        let p = choose|p: int| is_first_zero(chunk, p);
        (offset, collected, Some(Some(collected + chunk.subrange(0, p))))
    } else if chunk.len() == 0 || offset + chunk.len() >= size {
        (offset, collected, Some(None))
    } else {
        ((offset + chunk.len()) as nat, collected + chunk, None)
    }
}

/// Reading a whole region of memory `mem` chunk by chunk from `offset`:
/// the bytes before the first zero, or `None` where the region has no zero.
pub open spec fn scan_region(mem: Seq<u8>, offset: nat, collected: Seq<u8>) -> Option<Seq<u8>>
    decreases mem.len() - offset,
{
    if offset >= mem.len() {
        None
    } else {
        let n = next_read_len(mem.len(), offset);
        let chunk = mem.subrange(offset as int, (offset + n) as int);
        let (next, gathered, outcome) = feed_spec(mem.len(), offset, collected, chunk);
        match outcome {
            Some(r) => r,
            None => if next > offset {
                scan_region(mem, next, gathered)
            } else {
                None
            },
        }
    }
}

/// A read of a zero-terminated string from a region of foreign memory, in
/// chunks that never run past the region's end.
pub struct RemoteRead {
    size: usize,
    offset: usize,
    collected: Vec<u8>,
    over: bool,
}

impl RemoteRead {
    pub closed spec fn spec_size(&self) -> nat {
        self.size as nat
    }

    pub closed spec fn spec_offset(&self) -> nat {
        self.offset as nat
    }

    pub closed spec fn spec_collected(&self) -> Seq<u8> {
        self.collected@
    }

    pub closed spec fn spec_over(&self) -> bool {
        self.over
    }

    /// The length that the next read asks for, if another read is due.
    pub open spec fn next_request_spec(&self) -> Option<nat> {
        if self.spec_over() || self.spec_offset() >= self.spec_size() {
            None
        } else {
            Some(next_read_len(self.spec_size(), self.spec_offset()))
        }
    }

    /// Starts a read at `address` in a region that has `size` bytes from
    /// there on. A null address is refused.
    pub fn start(address: usize, size: usize) -> (r: Result<RemoteRead, ForeignMemoryError>)
        ensures
            address == 0 <==> r == Err::<RemoteRead, ForeignMemoryError>(
                ForeignMemoryError::NullAddress,
            ),
            match r {
                Ok(rd) => rd.spec_size() == size && rd.spec_offset() == 0 && rd.spec_collected()
                    == Seq::<u8>::empty() && !rd.spec_over(),
                Err(e) => e == ForeignMemoryError::NullAddress,
            },
    {
        if address == 0 {
            return Err(ForeignMemoryError::NullAddress);
        }
        Ok(RemoteRead { size, offset: 0, collected: Vec::new(), over: false })
    }

    /// Where the next read starts, relative to the address.
    pub fn offset(&self) -> (r: usize)
        ensures
            r == self.spec_offset(),
    {
        self.offset
    }

    /// How many bytes the next read asks for; `None` once the read is over.
    pub fn next_request(&self) -> (r: Option<usize>)
        ensures
            match r {
                Some(n) => self.next_request_spec() == Some(n as nat),
                None => self.next_request_spec() is None,
            },
    {
        if self.over || self.offset >= self.size {
            None
        } else if self.size - self.offset < CHUNK {
            Some(self.size - self.offset)
        } else {
            Some(CHUNK)
        }
    }

    /// Takes in the bytes that the last read returned, which may be fewer
    /// than were asked for.
    pub fn feed(&mut self, chunk: &Vec<u8>) -> (r: ReadProgress)
        requires
            old(self).next_request_spec() is Some,
            chunk@.len() <= old(self).next_request_spec().unwrap(),
        ensures
            final(self).spec_size() == old(self).spec_size(),
            (final(self).spec_offset(), final(self).spec_collected(), progress_view(r))
                == feed_spec(
                old(self).spec_size(),
                old(self).spec_offset(),
                old(self).spec_collected(),
                chunk@,
            ),
            final(self).spec_over() <==> r !is More,
    {
        let mut p: usize = 0;
        while p < chunk.len()
            invariant
                p <= chunk@.len(),
                zero_free(chunk@.subrange(0, p as int)),
                self.size == old(self).size,
                self.offset == old(self).offset,
                self.offset < self.size,
                !self.over,
                self.collected@ == old(self).collected@,
            decreases chunk@.len() - p,
        {
            if chunk[p] == 0 {
                proof {
                    assert(is_first_zero(chunk@, p as int));
                    lemma_first_zero_unique(chunk@, p as int);
                }
                let mut out = self.collected.clone();
                proof {
                    assert(out@ =~= self.collected@);
                }
                let mut k: usize = 0;
                while k < p
                    invariant
                        k <= p < chunk@.len(),
                        out@ == self.collected@ + chunk@.subrange(0, k as int),
                        self.size == old(self).size,
                        self.offset == old(self).offset,
                        self.collected@ == old(self).collected@,
                        is_first_zero(chunk@, p as int),
                    decreases p - k,
                {
                    out.push(chunk[k]);
                    assert(out@ =~= self.collected@ + chunk@.subrange(0, k + 1));
                    k = k + 1;
                }
                self.over = true;
                assert(out@ == self.collected@ + chunk@.subrange(0, p as int));
                return ReadProgress::Finished(out);
            }
            assert(chunk@.subrange(0, p + 1) =~= chunk@.subrange(0, p as int).push(chunk@[p as int]));
            p = p + 1;
        }
        proof {
            assert(chunk@.subrange(0, chunk@.len() as int) =~= chunk@);
            assert forall|q: int| !is_first_zero(chunk@, q) by {
                if is_first_zero(chunk@, q) {
                    assert(chunk@.subrange(0, chunk@.len() as int)[q] == chunk@[q]);
                }
            }
        }
        if chunk.len() == 0 || chunk.len() >= self.size - self.offset {
            self.over = true;
            return ReadProgress::TerminatorNotFound;
        }
        let mut k: usize = 0;
        let ghost before = self.collected@;
        while k < chunk.len()
            invariant
                k <= chunk@.len(),
                self.collected@ == before + chunk@.subrange(0, k as int),
                self.size == old(self).size,
                self.offset == old(self).offset,
                self.over == old(self).over,
                before == old(self).collected@,
            decreases chunk@.len() - k,
        {
            self.collected.push(chunk[k]);
            assert(self.collected@ =~= before + chunk@.subrange(0, k + 1));
            k = k + 1;
        }
        assert(chunk@.subrange(0, chunk@.len() as int) =~= chunk@);
        self.offset = self.offset + chunk.len();
        ReadProgress::More
    }
}

/// The text that a finished read gathered: the bytes must be valid UTF-8.
pub fn finish_text(bytes: &Vec<u8>) -> (r: Result<String, ForeignMemoryError>)
    ensures
        match r {
            Ok(s) => valid_utf8(bytes@) && s@ == decode_utf8(bytes@),
            Err(e) => !valid_utf8(bytes@) && e == ForeignMemoryError::InvalidText,
        },
{
    match utf8_string(bytes) {
        Some(s) => Ok(s),
        None => Err(ForeignMemoryError::InvalidText),
    }
}

proof fn lemma_first_zero_unique(s: Seq<u8>, p: int)
    requires
        is_first_zero(s, p),
    ensures
        forall|q: int| #[trigger] is_first_zero(s, q) ==> q == p,
{
    assert forall|q: int| #[trigger] is_first_zero(s, q) implies q == p by {
        if q < p {
            assert(s.subrange(0, p)[q] == s[q]);
        } else if p < q {
            assert(s.subrange(0, q)[p] == s[p]);
        }
    }
}

/// From any point up to which the region has no zero, the scan gives the
/// bytes before the region's first zero, or nothing where it has none.
proof fn lemma_scan_from(mem: Seq<u8>, offset: nat, collected: Seq<u8>)
    requires
        offset <= mem.len(),
        collected == mem.subrange(0, offset as int),
        zero_free(collected),
    ensures
        forall|z: int| #[trigger] is_first_zero(mem, z) ==> scan_region(mem, offset, collected)
            == Some(mem.subrange(0, z)),
        zero_free(mem) ==> scan_region(mem, offset, collected) is None,
    decreases mem.len() - offset,
{
    if offset < mem.len() {
        let n = next_read_len(mem.len(), offset);
        let chunk = mem.subrange(offset as int, (offset + n) as int);
        assert forall|z: int| #[trigger] is_first_zero(mem, z) implies scan_region(
            mem,
            offset,
            collected,
        ) == Some(mem.subrange(0, z)) by {
            if z < offset {
                assert(collected[z] == mem[z]);
            }
            if z < offset + n {
                let p = z - offset;
                assert(chunk[p] == mem[z]);
                let cp = chunk.subrange(0, p);
                assert forall|i: int| 0 <= i < p implies #[trigger] cp[i] != 0 by {
                    assert(mem.subrange(0, z)[offset + i] == mem[offset + i]);
                }
                assert(is_first_zero(chunk, p));
                lemma_first_zero_unique(chunk, p);
                assert(collected + chunk.subrange(0, p) =~= mem.subrange(0, z));
            } else {
                lemma_chunk_zero_free(mem, offset, n, z);
                assert forall|q: int| !is_first_zero(chunk, q) by {
                    if 0 <= q < chunk.len() {
                        assert(chunk[q] == mem[offset + q]);
                    }
                }
                assert(collected + chunk =~= mem.subrange(0, (offset + n) as int));
                lemma_scan_from(mem, (offset + n) as nat, collected + chunk);
            }
        }
        if zero_free(mem) {
            assert forall|q: int| !is_first_zero(chunk, q) by {
                if 0 <= q < chunk.len() {
                    assert(chunk[q] == mem[offset + q]);
                }
            }
            if offset + n < mem.len() {
                assert(collected + chunk =~= mem.subrange(0, (offset + n) as int));
                lemma_scan_from(mem, (offset + n) as nat, collected + chunk);
            }
        }
    } else {
        assert forall|z: int| #[trigger] is_first_zero(mem, z) implies false by {
            assert(collected[z] == mem[z]);
        }
    }
}

/// Before the first zero at `z`, the chunk from `offset` of length `n` has no zero.
proof fn lemma_chunk_zero_free(mem: Seq<u8>, offset: nat, n: nat, z: int)
    requires
        is_first_zero(mem, z),
        offset + n <= z,
    ensures
        zero_free(mem.subrange(offset as int, (offset + n) as int)),
        zero_free(mem.subrange(0, (offset + n) as int)),
{
    let c = mem.subrange(offset as int, (offset + n) as int);
    assert forall|i: int| 0 <= i < n implies #[trigger] c[i] != 0 by {
        assert(mem.subrange(0, z)[offset + i] == mem[offset + i]);
    }
    let h = mem.subrange(0, (offset + n) as int);
    assert forall|i: int| 0 <= i < offset + n implies #[trigger] h[i] != 0 by {
        assert(mem.subrange(0, z)[i] == mem[i]);
    }
}

/// A string without zero bytes written with its terminator reads back as
/// itself, whatever follows the terminator in the region, the empty string included.
pub proof fn lemma_read_back_written(s: Seq<u8>, rest: Seq<u8>)
    requires
        zero_free(s),
    ensures
        scan_region(s.push(0) + rest, 0, Seq::empty()) == Some(s),
{
    let mem = s.push(0) + rest;
    assert(mem.subrange(0, 0) =~= Seq::<u8>::empty());
    lemma_scan_from(mem, 0, Seq::empty());
    assert(mem.subrange(0, s.len() as int) =~= s);
    assert(is_first_zero(mem, s.len() as int));
}

/// The bytes written for a text without zero bytes read back, and decode, as that text.
pub proof fn lemma_text_round_trip(text: Seq<char>, rest: Seq<u8>)
    requires
        zero_free(vstd::utf8::encode_utf8(text)),
    ensures
        scan_region(vstd::utf8::encode_utf8(text).push(0) + rest, 0, Seq::empty()) == Some(
            vstd::utf8::encode_utf8(text),
        ),
        valid_utf8(vstd::utf8::encode_utf8(text)),
        decode_utf8(vstd::utf8::encode_utf8(text)) == text,
{
    lemma_read_back_written(vstd::utf8::encode_utf8(text), rest);
    vstd::utf8::encode_utf8_valid_utf8(text);
    vstd::utf8::encode_utf8_decode_utf8(text);
}

/// A region without any zero byte gives no string: the read fails rather
/// than returning what it gathered.
pub proof fn lemma_missing_terminator(mem: Seq<u8>)
    requires
        zero_free(mem),
    ensures
        scan_region(mem, 0, Seq::empty()) is None,
{
    assert(mem.subrange(0, 0) =~= Seq::<u8>::empty());
    lemma_scan_from(mem, 0, Seq::empty());
}

} // verus!
