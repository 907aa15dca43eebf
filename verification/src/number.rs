use vstd::prelude::*;

use crate::errors::ErrorCode;

verus! {

/// What `lexical_core::parse_partial::<u64>` returns for a byte slice:
/// the parsed value and the count of digits consumed, a function of the
/// bytes alone.
pub uninterp spec fn parsed_u64_of(s: Seq<u8>) -> Option<(u64, usize)>;

/// Relies on lexical_core::parse_partial::<u64>: it parses the value of
/// the leading digits, returning the value and how many bytes it
/// consumed (zero digits parse as zero), and fails on input with no
/// byte after the sign; the outcome depends on the bytes alone.
#[verifier::external_body]
fn parse_partial_u64(bytes: &[u8]) -> (r: Option<(u64, usize)>)
    ensures
        r == parsed_u64_of(bytes@),
        bytes@.len() == 0 ==> r is None,
        (match r {
            Some(p) => p.1 <= bytes@.len(),
            None => true,
        }),
{
    match lexical_core::parse_partial::<u64>(bytes) {
        Ok((v, n)) => Some((v, n)),
        Err(_) => None,
    }
}

/// The unsigned value eight little-endian bytes denote.
pub open spec fn le_u64_of(b: Seq<u8>) -> int {
    b[0] + b[1] * 0x100 + b[2] * 0x1_0000 + b[3] * 0x100_0000 + b[4] * 0x1_0000_0000 + b[5]
        * 0x100_0000_0000 + b[6] * 0x1_0000_0000_0000 + b[7] * 0x100_0000_0000_0000
}

/// Reads one fixed-width little-endian value from the head of `reader`.
fn read_scalar_u64(reader: &[u8]) -> (r: Option<u64>)
    ensures
        (match r {
            Some(v) => reader@.len() >= 8 && v == le_u64_of(reader@),
            None => reader@.len() < 8,
        }),
{
    if reader.len() < 8 {
        return None;
    }
    let b0 = reader[0];
    let b1 = reader[1];
    let b2 = reader[2];
    let b3 = reader[3];
    let b4 = reader[4];
    let b5 = reader[5];
    let b6 = reader[6];
    let b7 = reader[7];
    let v: u64 = (b0 as u64) | (b1 as u64) << 8 | (b2 as u64) << 16 | (b3 as u64) << 24 | (
    b4 as u64) << 32 | (b5 as u64) << 40 | (b6 as u64) << 48 | (b7 as u64) << 56;
    proof {
        assert(v == b0 + b1 * 0x100 + b2 * 0x1_0000 + b3 * 0x100_0000 + b4 * 0x1_0000_0000 + b5
            * 0x100_0000_0000 + b6 * 0x1_0000_0000_0000 + b7 * 0x100_0000_0000_0000)
            by (bit_vector)
            requires
                v == (b0 as u64) | (b1 as u64) << 8 | (b2 as u64) << 16 | (b3 as u64) << 24 | (
                b4 as u64) << 32 | (b5 as u64) << 40 | (b6 as u64) << 48 | (b7 as u64) << 56,
        ;
    }
    Some(v)
}

/// A column of unsigned values under construction, null slots included.
#[derive(Debug, PartialEq, Eq)]
pub struct NumberDeserializer {
    pub builder: Vec<Option<u64>>,
}

impl NumberDeserializer {
    pub fn new() -> (r: NumberDeserializer)
        ensures
            r.builder@ == Seq::<Option<u64>>::empty(),
    {
        NumberDeserializer { builder: Vec::new() }
    }

    /// Appends one value read from the head of a binary reader.
    pub fn de(&mut self, reader: &[u8]) -> (r: Result<(), ErrorCode>)
        ensures
            (match r {
                Ok(()) => reader@.len() >= 8 && final(self).builder@ == old(self).builder@.push(
                    Some(le_u64_of(reader@) as u64),
                ),
                Err(e) => reader@.len() < 8 && final(self).builder@ == old(self).builder@
                    && e matches ErrorCode::BadBytes(_),
            }),
    {
        match read_scalar_u64(reader) {
            Some(v) => {
                self.builder.push(Some(v));
                Ok(())
            },
            None => Err(ErrorCode::BadBytes("binary value needs eight bytes".to_owned())),
        }
    }

    /// Appends `rows` values laid out `step` bytes apart.
    #[verifier::loop_isolation(false)]
    pub fn de_batch(&mut self, reader: &[u8], step: usize, rows: usize) -> (r: Result<
        (),
        ErrorCode,
    >)
        ensures
            (match r {
                Ok(()) => final(self).builder@.len() == old(self).builder@.len() + rows,
                Err(e) => e matches ErrorCode::BadBytes(_),
            }),
            r is Ok ==> forall|j: int|
                0 <= j < rows ==> final(self).builder@[old(self).builder@.len() + j] == Some(
                    le_u64_of(#[trigger] reader@.skip(j * step as int)) as u64,
                ),
            r is Ok ==> forall|j: int|
                0 <= j < old(self).builder@.len() ==> final(self).builder@[j] == old(
                    self,
                ).builder@[j],
    {
        let mut row: usize = 0;
        while row < rows
            invariant
                row <= rows,
                self.builder@.len() == old(self).builder@.len() + row,
                forall|j: int|
                    0 <= j < row ==> self.builder@[old(self).builder@.len() + j] == Some(
                        le_u64_of(#[trigger] reader@.skip(j * step as int)) as u64,
                    ),
                forall|j: int|
                    0 <= j < old(self).builder@.len() ==> self.builder@[j] == old(self).builder@[j],
            decreases rows - row,
        {
            let offset = match row.checked_mul(step) {
                Some(o) => o,
                None => {
                    return Err(ErrorCode::BadBytes("row offset overflows".to_owned()));
                },
            };
            if offset > reader.len() {
                return Err(ErrorCode::BadBytes("binary batch is too short".to_owned()));
            }
            let window = crate::number::slice_skip(reader, offset);
            match read_scalar_u64(window) {
                Some(v) => {
                    self.builder.push(Some(v));
                },
                None => {
                    return Err(ErrorCode::BadBytes("binary value needs eight bytes".to_owned()));
                },
            }
            row = row + 1;
        }
        Ok(())
    }

    /// Appends one value parsed from text: an empty or case-insensitive
    /// `null` text appends a null; otherwise the leading digits parse, or
    /// the text is refused.
    pub fn de_text(&mut self, reader: &[u8]) -> (r: Result<(), ErrorCode>)
        ensures
            (match r {
                Ok(()) => {
                    if is_null_text(reader@) {
                        final(self).builder@ == old(self).builder@.push(None)
                    } else {
                        parsed_u64_of(reader@) matches Some(p) && final(self).builder@ == old(
                            self).builder@.push(Some(p.0))
                    }
                },
                Err(e) => !is_null_text(reader@) && parsed_u64_of(reader@) is None
                    && final(self).builder@ == old(self).builder@
                    && e matches ErrorCode::BadBytes(_),
            }),
    {
        if is_null_bytes(reader) {
            self.builder.push(None);
            return Ok(());
        }
        match parse_partial_u64(reader) {
            Some((v, _)) => {
                self.builder.push(Some(v));
                Ok(())
            },
            None => Err(ErrorCode::BadBytes("incorrect number value".to_owned())),
        }
    }

    /// Appends a null slot.
    pub fn de_null(&mut self)
        ensures
            final(self).builder@ == old(self).builder@.push(None),
    {
        self.builder.push(None);
    }

    /// Hands the finished column out and leaves the builder empty.
    pub fn finish_to_series(&mut self) -> (r: Vec<Option<u64>>)
        ensures
            r@ == old(self).builder@,
            final(self).builder@ == Seq::<Option<u64>>::empty(),
    {
        let mut out: Vec<Option<u64>> = Vec::new();
        std::mem::swap(&mut out, &mut self.builder);
        out
    }
}

/// Whether the text is empty or spells `null`, ASCII case ignored.
pub open spec fn is_null_text(s: Seq<u8>) -> bool {
    s.len() == 0 || (s.len() == 4 && lower_byte(s[0]) == 110 && lower_byte(s[1]) == 117
        && lower_byte(s[2]) == 108 && lower_byte(s[3]) == 108)
}

/// The ASCII lowercase of one byte.
pub open spec fn lower_byte(b: u8) -> u8 {
    if 65 <= b <= 90 {
        (b + 32) as u8
    } else {
        b
    }
}

fn lower_byte_exec(b: u8) -> (r: u8)
    ensures
        r == lower_byte(b),
{
    if 65 <= b && b <= 90 {
        b + 32
    } else {
        b
    }
}

/// Whether the bytes are empty or spell `null`, ASCII case ignored.
fn is_null_bytes(s: &[u8]) -> (r: bool)
    ensures
        r == is_null_text(s@),
{
    if s.len() == 0 {
        return true;
    }
    if s.len() != 4 {
        return false;
    }
    lower_byte_exec(s[0]) == 110 && lower_byte_exec(s[1]) == 117 && lower_byte_exec(s[2]) == 108
        && lower_byte_exec(s[3]) == 108
}

/// The tail of a slice from `from` on.
fn slice_skip(s: &[u8], from: usize) -> (r: &[u8])
    requires
        from <= s@.len(),
    ensures
        r@ == s@.skip(from as int),
{
    let (_, tail) = s.split_at(from);
    proof {
        assert(tail@ =~= s@.skip(from as int));
    }
    tail
}

} // verus!
