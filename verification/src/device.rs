use vstd::prelude::*;

use crate::errors::VdevError;

verus! {

/// The bytes a read returns: nothing when `offset` is at or past the end,
/// otherwise the `min(max_len, len - offset)` bytes starting at `offset`.
pub open spec fn read_result(contents: Seq<u8>, offset: int, max_len: int) -> Seq<u8> {
    if offset >= contents.len() {
        Seq::empty()
    } else if max_len <= contents.len() - offset {
        contents.subrange(offset, offset + max_len)
    } else {
        contents.subrange(offset, contents.len() as int)
    }
}

/// The buffer after writing `data` at `offset`: grown to cover the written
/// span when needed, any gap between the old end and `offset` zero-filled,
/// and all other existing bytes kept.
pub open spec fn written_contents(contents: Seq<u8>, offset: int, data: Seq<u8>) -> Seq<u8> {
    Seq::new(
        (if contents.len() >= offset + data.len() {
            contents.len() as int
        } else {
            offset + data.len()
        }) as nat,
        |i: int|
            if offset <= i < offset + data.len() {
                data[i - offset]
            } else if i < contents.len() {
                contents[i]
            } else {
                0u8
            },
    )
}

/// One virtual device: an identifying number and a resizable byte buffer,
/// the device's entire persistent state.
pub struct Device {
    number: usize,
    contents: Vec<u8>,
}

impl View for Device {
    type V = Seq<u8>;

    closed spec fn view(&self) -> Seq<u8> {
        self.contents@
    }
}

impl Device {
    /// The identifying number, fixed at creation.
    pub closed spec fn spec_number(&self) -> usize {
        self.number
    }

    /// Creates device `number` with empty contents.
    pub fn new(number: usize) -> (d: Device)
        ensures
            d@ == Seq::<u8>::empty(),
            d.spec_number() == number,
    {
        Device { number, contents: Vec::new() }
    }

    pub fn number(&self) -> (n: usize)
        ensures
            n == self.spec_number(),
    {
        self.number
    }

    /// Copies out at most `max_len` bytes starting at `offset`. An offset at
    /// or past the end yields zero bytes, never an error; the buffer is
    /// untouched either way.
    pub fn read_at(&self, offset: usize, max_len: usize) -> (r: Vec<u8>)
        ensures
            r@ == read_result(self@, offset as int, max_len as int),
            offset >= self@.len() ==> r@.len() == 0,
    {
        let len = self.contents.len();
        if offset >= len {
            return Vec::new();
        }
        let avail = len - offset;
        let n = if max_len <= avail {
            max_len
        } else {
            avail
        };
        let mut out: Vec<u8> = Vec::new();
        let mut i: usize = 0;
        while i < n
            invariant
                i <= n,
                offset + n <= self.contents@.len(),
                self.contents@.len() <= usize::MAX,
                out@ == self.contents@.subrange(offset as int, offset + i),
            decreases n - i,
        {
            out.push(self.contents[offset + i]);
            proof {
                assert(out@ =~= self.contents@.subrange(offset as int, offset + i + 1));
            }
            i += 1;
        }
        proof {
            assert(out@ =~= read_result(self@, offset as int, max_len as int));
        }
        out
    }

    /// Writes `data` at `offset`, growing the buffer to `offset + data.len()`
    /// when that exceeds the current length and zero-filling any positions a
    /// growth introduces before `offset`. All-or-nothing: when the required
    /// length overflows, nothing is changed; on success the count written is
    /// exactly `data.len()`.
    pub fn write_at(&mut self, offset: usize, data: &[u8]) -> (r: Result<usize, VdevError>)
        ensures
            final(self).spec_number() == old(self).spec_number(),
            offset + data@.len() > usize::MAX ==> {
                &&& r == Err::<usize, VdevError>(VdevError::OffsetOverflow)
                &&& final(self)@ == old(self)@
            },
            offset + data@.len() <= usize::MAX ==> {
                &&& r == Ok::<usize, VdevError>(data@.len() as usize)
                &&& final(self)@ == written_contents(old(self)@, offset as int, data@)
                &&& final(self)@.len() == (if old(self)@.len() >= offset + data@.len() {
                    old(self)@.len() as int
                } else {
                    offset + data@.len()
                })
                &&& forall|j: int|
                    old(self)@.len() <= j < offset ==> final(self)@[j] == 0u8
            },
    {
        if data.len() > usize::MAX - offset {
            return Err(VdevError::OffsetOverflow);
        }
        let required = offset + data.len();
        if required > self.contents.len() {
            self.contents.resize(required, 0u8);
        }
        let ghost grown = self.contents@;
        let mut i: usize = 0;
        while i < data.len()
            invariant
                i <= data@.len(),
                offset + data@.len() <= usize::MAX,
                self.spec_number() == old(self).spec_number(),
                self.contents@.len() == grown.len(),
                offset + data@.len() <= grown.len(),
                forall|j: int|
                    0 <= j < grown.len() && !(offset <= j < offset + i) ==> self.contents@[j]
                        == grown[j],
                forall|j: int|
                    offset <= j < offset + i ==> self.contents@[j] == data@[j - offset],
            decreases data@.len() - i,
        {
            self.contents[offset + i] = data[i];
            i += 1;
        }
        proof {
            assert forall|j: int| 0 <= j < grown.len() && !(offset <= j < offset + data@.len())
                implies grown[j] == (if j < old(self)@.len() {
                old(self)@[j]
            } else {
                0u8
            }) by {
                if old(self)@.len() < offset + data@.len() {
                    if j < old(self)@.len() {
                        assert(grown[j] == grown.subrange(0, old(self)@.len() as int)[j]);
                    } else {
                        assert(cloned::<u8>(0u8, grown[j]));
                    }
                }
            }
            let w = written_contents(old(self)@, offset as int, data@);
            assert(self.contents@.len() == w.len());
            assert forall|j: int| 0 <= j < w.len() implies self.contents@[j] == w[j] by {
                if offset <= j < offset + data@.len() {
                    assert(self.contents@[j] == data@[j - offset]);
                } else {
                    assert(self.contents@[j] == grown[j]);
                }
            }
            assert(self.contents@ =~= written_contents(old(self)@, offset as int, data@));
        }
        Ok(data.len())
    }

    /// Discards all contents, resetting the length to zero. Used by the
    /// open-time policy when a device is opened write-only.
    pub fn truncate(&mut self)
        ensures
            final(self)@ == Seq::<u8>::empty(),
            final(self).spec_number() == old(self).spec_number(),
    {
        self.contents.clear();
    }
}

/// Write-then-read round trip: reading back exactly the span just written
/// returns the written bytes, for every prior contents, offset and payload.
pub proof fn lemma_write_then_read_round_trip(contents: Seq<u8>, offset: int, data: Seq<u8>)
    requires
        0 <= offset,
    ensures
        read_result(written_contents(contents, offset, data), offset, data.len() as int) == data,
{
    let w = written_contents(contents, offset, data);
    if data.len() == 0 {
        assert(read_result(w, offset, 0) =~= data);
    } else {
        assert(w.len() >= offset + data.len());
        assert(read_result(w, offset, data.len() as int) =~= data);
    }
}

} // verus!

