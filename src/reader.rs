use vstd::prelude::*;
use crate::decode::{read_action_at, read_list, same_list};
use crate::grammar::{get_action, get_header, get_list, scan, LONG_OPCODE};
use crate::text::MAX_INPUT;
use crate::types::{Action, ActionList, DecodeError};

verus! {

/// A forward-only cursor over one action byte stream, with the format
/// version that selects how strings are decoded.
pub struct Reader<'a> {
    inner: &'a [u8],
    pos: usize,
    version: u8,
}

impl<'a> Reader<'a> {
    /// The bytes of the stream.
    pub closed spec fn bytes(&self) -> Seq<u8> {
        self.inner@
    }

    /// How many bytes have been consumed.
    pub closed spec fn position(&self) -> int {
        self.pos as int
    }

    pub closed spec fn format_version(&self) -> u8 {
        self.version
    }

    pub closed spec fn wf(&self) -> bool {
        self.pos <= self.inner@.len() <= MAX_INPUT
    }

    pub fn new(inner: &'a [u8], version: u8) -> (r: Reader<'a>)
        requires
            inner@.len() <= MAX_INPUT,
        ensures
            r.wf(),
            r.bytes() == inner@,
            r.position() == 0,
            r.format_version() == version,
    {
        Reader { inner, pos: 0, version }
    }

    pub fn get_version(&self) -> (r: u8)
        ensures
            r == self.format_version(),
    {
        self.version
    }

    /// Decodes instructions up to the terminator or the end of the stream,
    /// then resolves every branch to the index of its target.
    pub fn read_action_list(&mut self) -> (r: Result<ActionList, DecodeError>)
        requires
            old(self).wf(),
        ensures
            final(self).wf(),
            final(self).bytes() == old(self).bytes(),
            final(self).format_version() == old(self).format_version(),
            same_list(
                r,
                get_list(
                    old(self).bytes(),
                    old(self).position(),
                    old(self).bytes().len() as int,
                    old(self).format_version(),
                ),
            ),
            r is Ok ==> (scan(
                old(self).bytes(),
                old(self).position(),
                old(self).bytes().len() as int,
                old(self).format_version(),
            ) matches Ok((_, _, stop)) && final(self).position() == stop),
            r is Err ==> final(self).position() == old(self).position(),
    {
        match read_list(self.inner, self.pos, self.inner.len(), self.version) {
            Ok((actions, stop)) => {
                self.pos = stop;
                Ok(actions)
            },
            Err(x) => Err(x),
        }
    }

    /// Decodes one instruction with its encoded size; `None` at the
    /// terminator or at the end of the stream.
    pub fn read_action(&mut self) -> (r: Result<Option<(Action, usize)>, DecodeError>)
        requires
            old(self).wf(),
        ensures
            final(self).wf(),
            final(self).bytes() == old(self).bytes(),
            final(self).format_version() == old(self).format_version(),
            ({
                let (d, p, e, v) = (
                    old(self).bytes(),
                    old(self).position(),
                    old(self).bytes().len() as int,
                    old(self).format_version(),
                );
                match (r, get_action(d, p, e, v)) {
                    (Ok(None), Ok(None)) => final(self).position() == match get_header(d, p, e) {
                        Some((_, q, _)) => q,
                        None => p,
                    },
                    (Ok(Some((a, size))), Ok(Some((m, ssize, next)))) => {
                        &&& a@ == m
                        &&& size as int == ssize
                        &&& final(self).position() == next
                    },
                    (Err(x), Err(y)) => x == y && final(self).position() == p,
                    _ => false,
                }
            }),
    {
        match read_action_at(self.inner, self.pos, self.inner.len(), self.version) {
            Ok((found, next)) => {
                self.pos = next;
                Ok(found)
            },
            Err(x) => Err(x),
        }
    }

    /// Reads an opcode and, for opcodes from `0x80` on, the 16-bit payload
    /// length that follows it; shorter opcodes have an empty payload.
    pub fn read_opcode_and_length(&mut self) -> (r: Result<(u8, usize), DecodeError>)
        requires
            old(self).wf(),
        ensures
            final(self).wf(),
            final(self).bytes() == old(self).bytes(),
            final(self).format_version() == old(self).format_version(),
            match get_header(old(self).bytes(), old(self).position(), old(self).bytes().len() as int) {
                Some((op, q, f)) => r == Ok::<(u8, usize), DecodeError>((op, (f - q) as usize))
                    && final(self).position() == q,
                None => r == Err::<(u8, usize), DecodeError>(DecodeError::UnexpectedEof)
                    && final(self).position() == old(self).position(),
            },
    {
        let d = self.inner;
        let p = self.pos;
        if p >= d.len() {
            return Err(DecodeError::UnexpectedEof);
        }
        let op = d[p];
        if op < LONG_OPCODE {
            self.pos = p + 1;
            Ok((op, 0))
        } else if d.len() - p >= 3 {
            self.pos = p + 3;
            Ok((op, d[p + 1] as usize + d[p + 2] as usize * 256))
        } else {
            Err(DecodeError::UnexpectedEof)
        }
    }
}

} // verus!
