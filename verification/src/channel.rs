//! Byte-stream model of the three serial lines.
//!
//! A [`Channel`] holds the bytes that have arrived and not yet been
//! consumed, and the bytes written so far. The framed reader and writer of
//! the controller are verified against this model; the hardware layer that
//! moves bytes between a channel and its UART peripheral lives outside the
//! library.

use vstd::prelude::*;

verus! {

/// The three serial lines of the device.
#[derive(Debug, Copy, Clone, PartialEq, Eq, Structural)]
pub enum INTF {
    /// The line to the host CPU.
    CPU,
    /// The line to the registration service.
    SSS,
    /// The line to the radio.
    RAD,
}

/// Status bits of the UART flag register that govern reading and writing.
#[derive(Debug, Copy, Clone, PartialEq, Eq, Structural)]
pub enum RWStatusMask {
    /// Set when the receive FIFO is empty.
    RXFE,
    /// Set when the transmit FIFO is full.
    TXFF,
}

impl RWStatusMask {
    /// The bit this mask selects in the flag register.
    pub fn value(self) -> (r: u32)
        ensures
            self is RXFE ==> r == 0x10u32,
            self is TXFF ==> r == 0x20u32,
    {
        match self {
            RWStatusMask::RXFE => 0x10,
            RWStatusMask::TXFF => 0x20,
        }
    }
}

/// Failure of a channel operation.
#[derive(Debug, Copy, Clone, PartialEq, Eq, Structural)]
pub enum Error {
    /// An unknown failure.
    Unknown,
    /// No byte was available to read.
    NoData,
    /// Only this many bytes could be read before the channel ran dry.
    SomeData(usize),
}

/// The index of the first occurrence of `b` in `s` at or after `p`, or -1
/// if there is none.
pub open spec fn index_of_from(s: Seq<u8>, p: int, b: u8) -> int
    decreases s.len() - p,
{
    if p < 0 || p >= s.len() {
        -1
    } else if s[p] == b {
        p
    } else {
        index_of_from(s, p + 1, b)
    }
}

/// The index of the first byte in `s` at or after `p` that differs from
/// `b`, or -1 if there is none.
pub open spec fn index_of_neq_from(s: Seq<u8>, p: int, b: u8) -> int
    decreases s.len() - p,
{
    if p < 0 || p >= s.len() {
        -1
    } else if s[p] != b {
        p
    } else {
        index_of_neq_from(s, p + 1, b)
    }
}

/// What `index_of_from` returns: either the least index at or after `p`
/// holding `b`, or -1 when no index does.
pub proof fn lemma_index_of_from(s: Seq<u8>, p: int, b: u8)
    requires
        0 <= p <= s.len(),
    ensures
        index_of_from(s, p, b) >= 0 ==> p <= index_of_from(s, p, b) < s.len()
            && s[index_of_from(s, p, b)] == b
            && (forall|k: int| p <= k < index_of_from(s, p, b) ==> s[k] != b),
        index_of_from(s, p, b) < 0 ==> (forall|k: int| p <= k < s.len() ==> s[k] != b),
    decreases s.len() - p,
{
    if p < s.len() && s[p] != b {
        lemma_index_of_from(s, p + 1, b);
    }
}

/// What `index_of_neq_from` returns: either the least index at or after
/// `p` holding a byte other than `b`, or -1 when no index does.
pub proof fn lemma_index_of_neq_from(s: Seq<u8>, p: int, b: u8)
    requires
        0 <= p <= s.len(),
    ensures
        index_of_neq_from(s, p, b) >= 0 ==> p <= index_of_neq_from(s, p, b) < s.len()
            && s[index_of_neq_from(s, p, b)] != b
            && (forall|k: int| p <= k < index_of_neq_from(s, p, b) ==> s[k] == b),
        index_of_neq_from(s, p, b) < 0 ==> (forall|k: int| p <= k < s.len() ==> s[k] == b),
    decreases s.len() - p,
{
    if p < s.len() && s[p] == b {
        lemma_index_of_neq_from(s, p + 1, b);
    }
}

/// One serial line: the bytes that have arrived, how many of them have
/// been consumed, and the bytes written out so far.
pub struct Channel {
    /// Bytes that have arrived on the line.
    pub input: Vec<u8>,
    /// How many of the arrived bytes have been consumed.
    pub pos: usize,
    /// Bytes written to the line.
    pub output: Vec<u8>,
}

impl Channel {
    /// The consumed prefix never passes the end of the arrived bytes.
    pub open spec fn wf(self) -> bool {
        self.pos <= self.input@.len() && self.input@.len() <= usize::MAX
    }

    /// A fresh channel with nothing arrived and nothing written.
    pub fn new() -> (r: Channel)
        ensures
            r.input@ == Seq::<u8>::empty(),
            r.pos == 0,
            r.output@ == Seq::<u8>::empty(),
            r.wf(),
    {
        Channel { input: Vec::new(), pos: 0, output: Vec::new() }
    }

    /// Whether at least one byte is ready to be read.
    pub fn avail(&self) -> (r: bool)
        requires
            self.wf(),
        ensures
            r == (self.pos < self.input@.len()),
    {
        self.pos < self.input.len()
    }

    /// Read one byte; fails with `NoData` when none has arrived.
    pub fn readb(&mut self) -> (r: Result<u8, Error>)
        requires
            old(self).wf(),
        ensures
            final(self).wf(),
            final(self).input == old(self).input,
            final(self).output == old(self).output,
            old(self).pos < old(self).input@.len() ==> r == Ok::<u8, Error>(
                old(self).input@[old(self).pos as int],
            ) && final(self).pos == old(self).pos + 1,
            old(self).pos >= old(self).input@.len() ==> r == Err::<u8, Error>(Error::NoData)
                && final(self).pos == old(self).pos,
    {
        if self.pos < self.input.len() {
            let b = self.input[self.pos];
            self.pos = self.pos + 1;
            Ok(b)
        } else {
            Err(Error::NoData)
        }
    }

    /// Read exactly `n` bytes into `data` at offset `at`. On a partial
    /// read the bytes that did arrive are stored, the channel is drained,
    /// and the count of stored bytes is reported.
    pub fn read_into(&mut self, data: &mut Vec<u8>, at: usize, n: usize) -> (r: Result<(), Error>)
        requires
            old(self).wf(),
            at + n <= old(data)@.len(),
            old(data)@.len() <= usize::MAX,
        ensures
            final(self).wf(),
            final(self).input == old(self).input,
            final(self).output == old(self).output,
            final(data)@.len() == old(data)@.len(),
            old(self).pos + n <= old(self).input@.len() ==> {
                &&& r == Ok::<(), Error>(())
                &&& final(self).pos == old(self).pos + n
                &&& final(data)@ =~= old(data)@.subrange(0, at as int)
                    + old(self).input@.subrange(old(self).pos as int, old(self).pos + n)
                    + old(data)@.skip(at + n)
            },
            old(self).pos + n > old(self).input@.len() ==> {
                let got = old(self).input@.len() - old(self).pos;
                &&& r == Err::<(), Error>(Error::SomeData(got as usize))
                &&& final(self).pos == old(self).input@.len()
                &&& final(data)@ =~= old(data)@.subrange(0, at as int)
                    + old(self).input@.subrange(old(self).pos as int, old(self).input@.len() as int)
                    + old(data)@.skip(at + got)
            },
    {
        let mut i: usize = 0;
        while i < n
            invariant
                i <= n,
                at + n <= data@.len(),
                data@.len() == old(data)@.len(),
                data@.len() <= usize::MAX,
                self.wf(),
                self.input == old(self).input,
                self.output == old(self).output,
                self.pos == old(self).pos + i,
                self.pos <= self.input@.len(),
                forall|k: int| 0 <= k < at ==> data@[k] == old(data)@[k],
                forall|k: int| 0 <= k < i ==> #[trigger] data@[at + k]
                    == old(self).input@[old(self).pos + k],
                forall|k: int| at + i <= k < data@.len() ==> data@[k] == old(data)@[k],
            decreases n - i,
        {
            if self.pos < self.input.len() {
                let b = self.input[self.pos];
                data.set(at + i, b);
                self.pos = self.pos + 1;
                i = i + 1;
            } else {
                proof {
                    let got = old(self).input@.len() - old(self).pos;
                    let l = old(data)@.subrange(0, at as int) + old(self).input@.subrange(
                        old(self).pos as int,
                        old(self).input@.len() as int,
                    ) + old(data)@.skip(at + got);
                    assert forall|j: int| 0 <= j < data@.len() implies data@[j] == l[j] by {
                        if at <= j < at + got {
                            assert(data@[at + (j - at)] == old(self).input@[old(self).pos + (j
                                - at)]);
                        }
                    };
                    assert(data@ =~= l);
                }
                return Err(Error::SomeData(i));
            }
        }
        proof {
            let l = old(data)@.subrange(0, at as int) + old(self).input@.subrange(
                old(self).pos as int,
                old(self).pos + n,
            ) + old(data)@.skip(at + n);
            assert forall|j: int| 0 <= j < data@.len() implies data@[j] == l[j] by {
                if at <= j < at + n {
                    assert(data@[at + (j - at)] == old(self).input@[old(self).pos + (j - at)]);
                }
            };
            assert(data@ =~= l);
        }
        Ok(())
    }

    /// Drop up to `n` bytes without blocking; stops early when the channel
    /// runs dry.
    pub fn discard(&mut self, n: usize)
        requires
            old(self).wf(),
        ensures
            final(self).wf(),
            final(self).input == old(self).input,
            final(self).output == old(self).output,
            final(self).pos == vstd::math::min(old(self).pos + n, old(self).input@.len() as int),
    {
        let mut i: usize = 0;
        while i < n
            invariant
                i <= n,
                self.wf(),
                self.input == old(self).input,
                self.output == old(self).output,
                old(self).pos + i <= old(self).input@.len() ==> self.pos == old(self).pos + i,
                old(self).pos + i > old(self).input@.len() ==> self.pos == old(self).input@.len(),
            decreases n - i,
        {
            if self.pos < self.input.len() {
                self.pos = self.pos + 1;
                i = i + 1;
            } else {
                return ;
            }
        }
    }

    /// Consume bytes until one equals `stop`; that byte is consumed and
    /// returned. Fails with `NoData` when the channel runs dry first.
    pub fn discard_until(&mut self, stop: u8) -> (r: Result<u8, Error>)
        requires
            old(self).wf(),
        ensures
            final(self).wf(),
            final(self).input == old(self).input,
            final(self).output == old(self).output,
            ({
                let j = index_of_from(old(self).input@, old(self).pos as int, stop);
                if j >= 0 {
                    r == Ok::<u8, Error>(stop) && final(self).pos == j + 1
                } else {
                    r == Err::<u8, Error>(Error::NoData)
                        && final(self).pos == old(self).input@.len()
                }
            }),
    {
        loop
            invariant
                self.wf(),
                self.input == old(self).input,
                self.output == old(self).output,
                old(self).pos <= self.pos,
                index_of_from(self.input@, self.pos as int, stop)
                    == index_of_from(old(self).input@, old(self).pos as int, stop),
            decreases self.input@.len() - self.pos,
        {
            if self.pos < self.input.len() {
                let b = self.input[self.pos];
                self.pos = self.pos + 1;
                if b == stop {
                    return Ok(b);
                }
            } else {
                return Err(Error::NoData);
            }
        }
    }

    /// Consume bytes while they equal `b`; the first byte that differs is
    /// consumed and returned. Fails with `NoData` when the channel runs
    /// dry first.
    pub fn discard_while_eq(&mut self, b: u8) -> (r: Result<u8, Error>)
        requires
            old(self).wf(),
        ensures
            final(self).wf(),
            final(self).input == old(self).input,
            final(self).output == old(self).output,
            ({
                let j = index_of_neq_from(old(self).input@, old(self).pos as int, b);
                if j >= 0 {
                    r == Ok::<u8, Error>(old(self).input@[j]) && final(self).pos == j + 1
                        && old(self).input@[j] != b
                } else {
                    r == Err::<u8, Error>(Error::NoData)
                        && final(self).pos == old(self).input@.len()
                }
            }),
    {
        loop
            invariant
                self.wf(),
                self.input == old(self).input,
                self.output == old(self).output,
                old(self).pos <= self.pos,
                index_of_neq_from(self.input@, self.pos as int, b)
                    == index_of_neq_from(old(self).input@, old(self).pos as int, b),
            decreases self.input@.len() - self.pos,
        {
            if self.pos < self.input.len() {
                let c = self.input[self.pos];
                self.pos = self.pos + 1;
                if c != b {
                    return Ok(c);
                }
            } else {
                return Err(Error::NoData);
            }
        }
    }

    /// Write all bytes of `src` to the line.
    pub fn write_all(&mut self, src: &[u8])
        requires
            old(self).wf(),
        ensures
            final(self).wf(),
            final(self).input == old(self).input,
            final(self).pos == old(self).pos,
            final(self).output@ =~= old(self).output@ + src@,
    {
        let mut i: usize = 0;
        while i < src.len()
            invariant
                i <= src@.len(),
                self.input == old(self).input,
                self.pos == old(self).pos,
                self.wf(),
                self.output@ =~= old(self).output@ + src@.subrange(0, i as int),
            decreases src@.len() - i,
        {
            let b = src[i];
            self.output.push(b);
            i = i + 1;
            assert(self.output@ =~= old(self).output@ + src@.subrange(0, i as int));
        }
        assert(src@.subrange(0, src@.len() as int) =~= src@);
    }

    /// Write `n` bytes of `data`, starting at `from`, to the line.
    pub fn write_from(&mut self, data: &Vec<u8>, from: usize, n: usize)
        requires
            old(self).wf(),
            from + n <= data@.len(),
        ensures
            final(self).wf(),
            final(self).input == old(self).input,
            final(self).pos == old(self).pos,
            final(self).output@ =~= old(self).output@ + data@.subrange(from as int, from + n),
    {
        proof {
            vstd::std_specs::vec::axiom_spec_len(data);
        }
        let mut i: usize = 0;
        while i < n
            invariant
                i <= n,
                from + n <= data@.len(),
                data@.len() <= usize::MAX,
                self.input == old(self).input,
                self.pos == old(self).pos,
                self.wf(),
                self.output@ =~= old(self).output@ + data@.subrange(from as int, from + i),
            decreases n - i,
        {
            let b = data[from + i];
            self.output.push(b);
            i = i + 1;
            assert(self.output@ =~= old(self).output@ + data@.subrange(from as int, from + i));
        }
    }

    /// Let bytes arrive on the line.
    pub fn feed(&mut self, src: &[u8])
        requires
            old(self).wf(),
            old(self).input@.len() + src@.len() <= usize::MAX,
        ensures
            final(self).wf(),
            final(self).output == old(self).output,
            final(self).pos == old(self).pos,
            final(self).input@ =~= old(self).input@ + src@,
    {
        let mut i: usize = 0;
        while i < src.len()
            invariant
                i <= src@.len(),
                self.output == old(self).output,
                self.pos == old(self).pos,
                old(self).pos <= old(self).input@.len(),
                old(self).input@.len() + src@.len() <= usize::MAX,
                self.input@ =~= old(self).input@ + src@.subrange(0, i as int),
                self.input@.len() <= usize::MAX,
            decreases src@.len() - i,
        {
            let b = src[i];
            self.input.push(b);
            i = i + 1;
            assert(self.input@ =~= old(self).input@ + src@.subrange(0, i as int));
        }
        assert(src@.subrange(0, src@.len() as int) =~= src@);
    }

    /// Take the bytes written so far, leaving the written side empty.
    pub fn take_output(&mut self) -> (r: Vec<u8>)
        requires
            old(self).wf(),
        ensures
            final(self).wf(),
            final(self).input == old(self).input,
            final(self).pos == old(self).pos,
            r@ == old(self).output@,
            final(self).output@ == Seq::<u8>::empty(),
    {
        let mut out: Vec<u8> = Vec::new();
        core::mem::swap(&mut out, &mut self.output);
        out
    }
}

} // verus!
