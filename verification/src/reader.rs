//! A cursor over the bytes of a log.
use vstd::prelude::*;
use vstd::slice::slice_subrange;

verus! {

/// Where the first line feed stands in `bytes`.
pub open spec fn line_length(bytes: Seq<u8>) -> Option<nat>
    decreases bytes.len(),
{
    if bytes.len() == 0 {
        None
    } else if bytes[0] == 0x0a {
        Some(0)
    } else {
        match line_length(bytes.drop_first()) {
            Some(n) => Some(n + 1),
            None => None,
        }
    }
}

/// A line ends at the first line feed, and there is none without one.
pub proof fn line_length_is_first(bytes: Seq<u8>)
    ensures
        match line_length(bytes) {
            Some(n) => n < bytes.len() && bytes[n as int] == 0x0a && forall|j: int|
                0 <= j < n ==> bytes[j] != 0x0a,
            None => forall|j: int| 0 <= j < bytes.len() ==> bytes[j] != 0x0a,
        },
    decreases bytes.len(),
{
    if bytes.len() > 0 && bytes[0] != 0x0a {
        let rest = bytes.drop_first();
        line_length_is_first(rest);
        assert forall|j: int| 0 < j < bytes.len() implies bytes[j] == rest[j - 1] by {}
        match line_length(rest) {
            Some(n) => {
                assert forall|j: int| 0 <= j < n + 1 implies bytes[j] != 0x0a by {
                    if j > 0 {
                        assert(bytes[j] == rest[j - 1]);
                    }
                }
            },
            None => {
                assert forall|j: int| 0 <= j < bytes.len() implies bytes[j] != 0x0a by {
                    if j > 0 {
                        assert(bytes[j] == rest[j - 1]);
                    }
                }
            },
        }
    }
}

/// The number that `bytes` writes to the base 256, the least significant byte first.
pub open spec fn little_endian(bytes: Seq<u8>) -> nat
    decreases bytes.len(),
{
    if bytes.len() == 0 {
        0
    } else {
        bytes[0] as nat + 256 * little_endian(bytes.drop_first())
    }
}

/// What one read of `n` bytes leaves of `bytes`: nothing is taken where they are too few.
pub open spec fn after_read(bytes: Seq<u8>, n: nat) -> Seq<u8> {
    if bytes.len() >= n {
        bytes.skip(n as int)
    } else {
        bytes
    }
}

/// A position that a reader can go back to.
#[derive(Debug, Clone, Copy)]
pub struct RestorePoint<'data> {
    rest: &'data [u8],
}

impl<'data> View for RestorePoint<'data> {
    type V = Seq<u8>;

    closed spec fn view(&self) -> Seq<u8> {
        self.rest@
    }
}

/// A reader, seen as the bytes that it has not read yet.
#[derive(Debug, Clone, Copy)]
pub struct Reader<'data> {
    rest: &'data [u8],
}

impl<'data> View for Reader<'data> {
    type V = Seq<u8>;

    closed spec fn view(&self) -> Seq<u8> {
        self.rest@
    }
}

impl<'data> Reader<'data> {
    /// A reader at the start of `data`.
    pub fn new(data: &'data [u8]) -> (reader: Self)
        ensures
            reader@ == data@,
    {
        Reader { rest: data }
    }

    /// Whether every byte has been read.
    pub fn is_empty(&self) -> (empty: bool)
        ensures
            empty == (self@.len() == 0),
    {
        self.rest.len() == 0
    }

    /// The bytes that have not been read yet.
    pub fn remaining(&self) -> (bytes: &'data [u8])
        ensures
            bytes@ == self@,
    {
        self.rest
    }

    /// The next byte, which stays unread.
    pub fn peek(&self) -> (byte: Option<u8>)
        ensures
            byte == (if self@.len() > 0 {
                Some(self@[0])
            } else {
                None::<u8>
            }),
    {
        if self.rest.len() > 0 {
            Some(self.rest[0])
        } else {
            None
        }
    }

    /// The reader's position.
    pub fn get_restore_point(&self) -> (point: RestorePoint<'data>)
        ensures
            point@ == self@,
    {
        RestorePoint { rest: self.rest }
    }

    /// Goes back to a position.
    pub fn restore(&mut self, point: RestorePoint<'data>)
        ensures
            final(self)@ == point@,
    {
        self.rest = point.rest;
    }

    fn advance(&mut self, n: usize)
        requires
            n <= old(self)@.len(),
        ensures
            final(self)@ == old(self)@.skip(n as int),
    {
        let end: usize = self.rest.len();
        self.rest = slice_subrange(self.rest, n, end);
        assert(self@ =~= old(self)@.skip(n as int));
    }

    /// Reads up to the next line feed and past it. The line comes without the line feed; where none
    /// is left there is no line.
    pub fn read_line(&mut self) -> (line: Option<&'data [u8]>)
        ensures
            match line {
                Some(text) => line_length(old(self)@) matches Some(n) && text@ == old(self)@.take(
                    n as int,
                ) && final(self)@ == old(self)@.skip(n as int + 1),
                None => line_length(old(self)@) is None && final(self)@ == old(self)@,
            },
    {
        let mut n: usize = 0;
        proof {
            line_length_is_first(self@);
        }
        while n < self.rest.len()
            invariant
                *self == *old(self),
                n <= self@.len(),
                forall|j: int| 0 <= j < n ==> self@[j] != 0x0a,
                match line_length(self@) {
                    Some(k) => k < self@.len() && self@[k as int] == 0x0a && forall|j: int|
                        0 <= j < k ==> self@[j] != 0x0a,
                    None => forall|j: int| 0 <= j < self@.len() ==> self@[j] != 0x0a,
                },
            decreases self@.len() - n,
        {
            if self.rest[n] == 0x0a {
                let line = slice_subrange(self.rest, 0, n);
                assert(line@ =~= old(self)@.take(n as int));
                self.advance(n + 1);
                return Some(line);
            }
            n += 1;
        }
        None
    }

    /// Reads one byte.
    pub fn read_u8(&mut self) -> (byte: Option<u8>)
        ensures
            byte == (if old(self)@.len() > 0 {
                Some(old(self)@[0])
            } else {
                None::<u8>
            }),
            final(self)@ == after_read(old(self)@, 1),
    {
        if self.rest.len() == 0 {
            return None;
        }
        let byte: u8 = self.rest[0];
        self.advance(1);
        Some(byte)
    }

    /// Reads a number of one to four bytes, the least significant byte first.
    fn read_bytes(&mut self, n: usize) -> (value: Option<u32>)
        requires
            1 <= n <= 4,
        ensures
            match value {
                Some(v) => old(self)@.len() >= n && v == little_endian(old(self)@.take(n as int)),
                None => old(self)@.len() < n,
            },
            final(self)@ == after_read(old(self)@, n as nat),
    {
        if self.rest.len() < n {
            return None;
        }
        let b0: u32 = self.rest[0] as u32;
        let b1: u32 = if n > 1 {
            self.rest[1] as u32
        } else {
            0
        };
        let b2: u32 = if n > 2 {
            self.rest[2] as u32
        } else {
            0
        };
        let b3: u32 = if n > 3 {
            self.rest[3] as u32
        } else {
            0
        };
        proof {
            reveal_with_fuel(little_endian, 6);
        }
        let value: u32 = b0 + 0x100 * b1 + 0x1_0000 * b2 + 0x100_0000 * b3;
        self.advance(n);
        Some(value)
    }

    /// Reads a number of two bytes, the least significant byte first.
    pub fn read_u16(&mut self) -> (value: Option<u16>)
        ensures
            match value {
                Some(v) => old(self)@.len() >= 2 && v == little_endian(old(self)@.take(2)),
                None => old(self)@.len() < 2,
            },
            final(self)@ == after_read(old(self)@, 2),
    {
        let ghost bytes = self@;
        match self.read_bytes(2) {
            Some(v) => {
                proof {
                    little_endian_bound(bytes.take(2), 2);
                }
                Some(v as u16)
            },
            None => None,
        }
    }

    /// Reads a number of three bytes, the least significant byte first.
    pub fn read_u24(&mut self) -> (value: Option<u32>)
        ensures
            match value {
                Some(v) => old(self)@.len() >= 3 && v == little_endian(old(self)@.take(3)),
                None => old(self)@.len() < 3,
            },
            final(self)@ == after_read(old(self)@, 3),
    {
        self.read_bytes(3)
    }

    /// Reads a number of four bytes, the least significant byte first.
    pub fn read_u32(&mut self) -> (value: Option<u32>)
        ensures
            match value {
                Some(v) => old(self)@.len() >= 4 && v == little_endian(old(self)@.take(4)),
                None => old(self)@.len() < 4,
            },
            final(self)@ == after_read(old(self)@, 4),
    {
        self.read_bytes(4)
    }
}

/// How large a number of one to four bytes can be.
pub proof fn little_endian_bound(bytes: Seq<u8>, n: nat)
    requires
        bytes.len() == n,
        1 <= n <= 4,
    ensures
        n == 1 ==> little_endian(bytes) < 0x100,
        n == 2 ==> little_endian(bytes) < 0x1_0000,
        n == 3 ==> little_endian(bytes) < 0x100_0000,
        n == 4 ==> little_endian(bytes) < 0x1_0000_0000,
{
    reveal_with_fuel(little_endian, 6);
}

} // verus!
