//! A remote file that is fetched once and then read like a local one.

use vstd::prelude::*;

verus! {

/// Where a seek starts from.
#[derive(Clone, Copy, Debug, PartialEq, Eq, Structural)]
pub enum SeekFrom {
    Start(u64),
    End(i64),
    Current(i64),
}

/// A seek to before the start of the file, or beyond what a position can
/// hold.
#[derive(Clone, Copy, Debug, PartialEq, Eq, Structural)]
pub struct InvalidSeek;

/// A file behind a URL. Its bytes are there once they were fetched; until
/// then it holds the URL alone.
#[derive(Debug, PartialEq, Eq)]
pub struct SeekRequest {
    url: String,
    data: Option<Vec<u8>>,
    pos: u64,
}

/// The position that a seek leads to in a file of `len` bytes, from the
/// position `pos`; none where it would lie before the start or beyond what
/// a position can hold.
pub open spec fn seek_target(len: nat, pos: u64, from: SeekFrom) -> Option<u64> {
    let target: int = match from {
        SeekFrom::Start(n) => n as int,
        SeekFrom::End(n) => len + n,
        SeekFrom::Current(n) => pos + n,
    };
    if 0 <= target <= u64::MAX {
        Some(target as u64)
    } else {
        None
    }
}

/// The bytes of `data` from the position `pos` on; none behind the end.
pub open spec fn remaining(data: Seq<u8>, pos: u64) -> Seq<u8> {
    if pos <= data.len() {
        data.skip(pos as int)
    } else {
        Seq::empty()
    }
}

impl SeekRequest {
    /// The URL of the file.
    pub closed spec fn spec_url(&self) -> Seq<char> {
        self.url@
    }

    /// The bytes of the file, once fetched.
    pub closed spec fn bytes(&self) -> Option<Seq<u8>> {
        match self.data {
            Some(d) => Some(d@),
            None => None,
        }
    }

    /// Where the next read starts.
    pub closed spec fn position(&self) -> u64 {
        self.pos
    }

    /// A file at `url`, not fetched yet.
    pub fn new(url: String) -> (r: Self)
        ensures
            r.spec_url() == url@,
            r.bytes() is None,
            r.position() == 0,
    {
        Self { url, data: None, pos: 0 }
    }

    /// The URL of the file.
    pub fn url(&self) -> (r: &str)
        ensures
            r@ == self.spec_url(),
    {
        self.url.as_str()
    }

    /// Whether the bytes were fetched.
    pub fn is_loaded(&self) -> (r: bool)
        ensures
            r == self.bytes() is Some,
    {
        self.data.is_some()
    }

    /// Where the next read starts.
    pub fn pos(&self) -> (r: u64)
        ensures
            r == self.position(),
    {
        self.pos
    }

    /// Takes the bytes that were fetched, to be read from the start; a file
    /// that has its bytes keeps them.
    pub fn load(&mut self, fetched: Vec<u8>)
        ensures
            final(self).spec_url() == old(self).spec_url(),
            final(self).position() == old(self).position(),
            final(self).bytes() == match old(self).bytes() {
                Some(kept) => Some(kept),
                None => Some(fetched@),
            },
    {
        if self.data.is_none() {
            self.data = Some(fetched);
        }
    }

    /// Moves to another position. A seek to an invalid position fails and
    /// moves nowhere.
    pub fn seek(&mut self, from: SeekFrom) -> (r: Result<u64, InvalidSeek>)
        requires
            old(self).bytes() is Some,
        ensures
            final(self).spec_url() == old(self).spec_url(),
            final(self).bytes() == old(self).bytes(),
            match seek_target(old(self).bytes()->0.len(), old(self).position(), from) {
                Some(target) => r == Ok::<u64, InvalidSeek>(target) && final(self).position()
                    == target,
                None => r is Err && final(self).position() == old(self).position(),
            },
    {
        let len: u64 = match &self.data {
            Some(d) => d.len() as u64,
            None => 0,
        };
        let (base, offset): (u64, i64) = match from {
            SeekFrom::Start(n) => {
                self.pos = n;
                return Ok(n);
            },
            SeekFrom::End(n) => (len, n),
            SeekFrom::Current(n) => (self.pos, n),
        };
        if offset >= 0 {
            if offset as u64 > u64::MAX - base {
                Err(InvalidSeek)
            } else {
                self.pos = base + offset as u64;
                Ok(self.pos)
            }
        } else {
            let back: u64 = if offset == i64::MIN {
                0x8000_0000_0000_0000
            } else {
                (-offset) as u64
            };
            if back > base {
                Err(InvalidSeek)
            } else {
                self.pos = base - back;
                Ok(self.pos)
            }
        }
    }

    /// The bytes from the position on.
    pub fn fill_buf(&self) -> (r: Vec<u8>)
        requires
            self.bytes() is Some,
        ensures
            r@ == remaining(self.bytes()->0, self.position()),
    {
        let mut out: Vec<u8> = Vec::new();
        match &self.data {
            Some(data) => {
                if self.pos <= data.len() as u64 {
                    let start: usize = self.pos as usize;
                    let mut i: usize = start;
                    while i < data.len()
                        invariant
                            start <= i <= data.len(),
                            out@ == data@.subrange(start as int, i as int),
                        decreases data.len() - i,
                    {
                        out.push(data[i]);
                        assert(out@ =~= data@.subrange(start as int, i + 1));
                        i = i + 1;
                    }
                    assert(data@.subrange(start as int, data.len() as int) =~= data@.skip(
                        start as int,
                    ));
                }
            },
            None => {},
        }
        out
    }

    /// Moves on by `amt` bytes.
    pub fn consume(&mut self, amt: usize)
        requires
            old(self).bytes() is Some,
            old(self).position() + amt <= u64::MAX,
        ensures
            final(self).spec_url() == old(self).spec_url(),
            final(self).bytes() == old(self).bytes(),
            final(self).position() == old(self).position() + amt,
    {
        self.pos = self.pos + amt as u64;
    }

    /// Reads up to `max` bytes from the position on, and moves on by as
    /// many as were read.
    pub fn read(&mut self, max: usize) -> (r: Vec<u8>)
        requires
            old(self).bytes() is Some,
        ensures
            final(self).spec_url() == old(self).spec_url(),
            final(self).bytes() == old(self).bytes(),
            ({
                let rest = remaining(old(self).bytes()->0, old(self).position());
                &&& r@ == if max <= rest.len() {
                    rest.take(max as int)
                } else {
                    rest
                }
                &&& final(self).position() == old(self).position() + r@.len()
            }),
    {
        let mut out = self.fill_buf();
        let ghost rest = out@;
        let len: usize = match &self.data {
            Some(d) => d.len(),
            None => 0,
        };
        if max < out.len() {
            out.truncate(max);
        }
        proof {
            let data = self.data->0@;
            assert(rest == remaining(data, self.pos));
            assert(out@.len() <= rest.len());
            assert(self.pos + rest.len() <= u64::MAX) by {
                assert(data.len() == len);
                if self.pos <= data.len() {
                    assert(rest.len() == data.len() - self.pos);
                }
            }
        }
        self.pos = self.pos + out.len() as u64;
        out
    }
}

} // verus!
