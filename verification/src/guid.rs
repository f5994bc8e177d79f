//! Virtual desktop identifiers: read from the registry's binary values and
//! written in the usual `xxxxxxxx-xxxx-xxxx-xxxx-xxxxxxxxxxxx` form.
use vstd::prelude::*;
use crate::text::string_from_chars;

verus! {

/// A GUID, with the fields of Windows' `GUID`.
#[derive(Clone, Copy, Debug, PartialEq, Eq)]
pub struct Guid {
    pub data1: u32,
    pub data2: u16,
    pub data3: u16,
    pub data4: [u8; 8],
}

/// The number of bytes of a GUID in memory.
pub const GUID_SIZE: usize = 16;

/// The lower-case hex digit for a value below sixteen.
pub open spec fn hex_lower_digit(d: nat) -> char {
    if d < 10 {
        ((48 + d) as u8) as char
    } else {
        ((87 + d) as u8) as char
    }
}

/// `n` in lower-case hex, padded with zeros to `width` digits (as `{:0w x}`
/// writes a number below `16^width`).
pub open spec fn hex_lower(n: nat, width: nat) -> Seq<char>
    decreases width,
{
    if width == 0 {
        seq![]
    } else {
        hex_lower(n / 16, (width - 1) as nat) + seq![hex_lower_digit(n % 16)]
    }
}

/// The text form of a GUID.
pub open spec fn spec_guid_text(g: Guid) -> Seq<char> {
    hex_lower(g.data1 as nat, 8) + seq!['-'] + hex_lower(g.data2 as nat, 4) + seq!['-']
        + hex_lower(g.data3 as nat, 4) + seq!['-'] + hex_lower(g.data4@[0] as nat, 2) + hex_lower(
        g.data4@[1] as nat,
        2,
    ) + seq!['-'] + hex_lower(g.data4@[2] as nat, 2) + hex_lower(g.data4@[3] as nat, 2)
        + hex_lower(g.data4@[4] as nat, 2) + hex_lower(g.data4@[5] as nat, 2) + hex_lower(
        g.data4@[6] as nat,
        2,
    ) + hex_lower(g.data4@[7] as nat, 2)
}

fn hex_digit_char(d: u64) -> (c: char)
    requires
        d < 16,
    ensures
        c == hex_lower_digit(d as nat),
{
    if d < 10 {
        ((48 + d) as u8) as char
    } else {
        ((87 + d) as u8) as char
    }
}

/// Appends `n` in lower-case hex, padded to `width` digits.
pub(crate) fn push_hex(out: &mut Vec<char>, n: u64, width: u32)
    ensures
        final(out)@ == old(out)@ + hex_lower(n as nat, width as nat),
    decreases width,
{
    if width == 0 {
        return;
    }
    push_hex(out, n / 16, width - 1);
    out.push(hex_digit_char(n % 16));
    assert(old(out)@ + hex_lower(n as nat, width as nat) =~= out@);
}

/// The GUID in its usual text form, with lower-case hex digits.
pub fn guid_to_string(guid: &Guid) -> (s: String)
    ensures
        s@ == spec_guid_text(*guid),
{
    let mut v: Vec<char> = Vec::new();
    push_hex(&mut v, guid.data1 as u64, 8);
    v.push('-');
    push_hex(&mut v, guid.data2 as u64, 4);
    v.push('-');
    push_hex(&mut v, guid.data3 as u64, 4);
    v.push('-');
    push_hex(&mut v, guid.data4[0] as u64, 2);
    push_hex(&mut v, guid.data4[1] as u64, 2);
    v.push('-');
    push_hex(&mut v, guid.data4[2] as u64, 2);
    push_hex(&mut v, guid.data4[3] as u64, 2);
    push_hex(&mut v, guid.data4[4] as u64, 2);
    push_hex(&mut v, guid.data4[5] as u64, 2);
    push_hex(&mut v, guid.data4[6] as u64, 2);
    push_hex(&mut v, guid.data4[7] as u64, 2);
    assert(v@ =~= spec_guid_text(*guid));
    string_from_chars(v.as_slice())
}

/// The text form of a GUID is 36 characters long.
pub proof fn lemma_guid_text_len(g: Guid)
    ensures
        spec_guid_text(g).len() == 36,
{
    lemma_hex_lower_len(g.data1 as nat, 8);
    lemma_hex_lower_len(g.data2 as nat, 4);
    lemma_hex_lower_len(g.data3 as nat, 4);
    assert forall|i: int| 0 <= i < 8 implies hex_lower(g.data4@[i] as nat, 2).len() == 2 by {
        lemma_hex_lower_len(g.data4@[i] as nat, 2);
    }
}

proof fn lemma_hex_lower_len(n: nat, width: nat)
    ensures
        hex_lower(n, width).len() == width,
    decreases width,
{
    if width > 0 {
        lemma_hex_lower_len(n / 16, (width - 1) as nat);
    }
}

/// Whether `g` is the GUID laid out, as Windows keeps it in memory, at `off`
/// in `bytes`: three little-endian numbers and eight single bytes.
pub open spec fn is_guid_at(g: Guid, bytes: Seq<u8>, off: int) -> bool {
    &&& g.data1 == bytes[off] + bytes[off + 1] * 0x100 + bytes[off + 2] * 0x1_0000 + bytes[off + 3]
        * 0x100_0000
    &&& g.data2 == bytes[off + 4] + bytes[off + 5] * 0x100
    &&& g.data3 == bytes[off + 6] + bytes[off + 7] * 0x100
    &&& g.data4@ == bytes.subrange(off + 8, off + 16)
}

/// The GUID laid out at `off` in `bytes`.
fn read_guid(bytes: &[u8], off: usize) -> (g: Guid)
    requires
        off + 16 <= bytes@.len(),
    ensures
        is_guid_at(g, bytes@, off as int),
{
    let data1 = bytes[off] as u32 + (bytes[off + 1] as u32) * 0x100 + (bytes[off + 2] as u32)
        * 0x1_0000 + (bytes[off + 3] as u32) * 0x100_0000;
    let data2 = bytes[off + 4] as u16 + (bytes[off + 5] as u16) * 0x100;
    let data3 = bytes[off + 6] as u16 + (bytes[off + 7] as u16) * 0x100;
    let data4 = [
        bytes[off + 8],
        bytes[off + 9],
        bytes[off + 10],
        bytes[off + 11],
        bytes[off + 12],
        bytes[off + 13],
        bytes[off + 14],
        bytes[off + 15],
    ];
    assert(data4@ =~= bytes@.subrange(off + 8, off + 16));
    Guid { data1, data2, data3, data4 }
}

/// A registry value holding one GUID: exactly sixteen bytes.
pub fn guid_from_bytes(bytes: &[u8]) -> (g: Option<Guid>)
    ensures
        match g {
            Some(g) => bytes@.len() == GUID_SIZE && is_guid_at(g, bytes@, 0),
            None => bytes@.len() != GUID_SIZE,
        },
{
    if bytes.len() != GUID_SIZE {
        return None;
    }
    Some(read_guid(bytes, 0))
}

/// A registry value holding GUIDs one after another: a non-empty whole
/// number of sixteen-byte records.
pub fn guids_from_bytes(bytes: &[u8]) -> (r: Option<Vec<Guid>>)
    ensures
        match r {
            Some(v) => {
                &&& bytes@.len() > 0 && bytes@.len() % GUID_SIZE as nat == 0
                &&& v@.len() == bytes@.len() / GUID_SIZE as nat
                &&& forall|i: int| 0 <= i < v@.len() ==> is_guid_at(#[trigger] v@[i], bytes@, 16 * i)
            },
            None => bytes@.len() == 0 || bytes@.len() % GUID_SIZE as nat != 0,
        },
{
    if bytes.len() == 0 || bytes.len() % GUID_SIZE != 0 {
        return None;
    }
    let n = bytes.len();
    let count = n / GUID_SIZE;
    let mut out: Vec<Guid> = Vec::new();
    let mut i: usize = 0;
    while i < count
        invariant
            n == bytes@.len(),
            count == bytes@.len() / 16,
            bytes@.len() % 16 == 0,
            i <= count,
            out@.len() == i,
            forall|k: int| 0 <= k < i ==> is_guid_at(#[trigger] out@[k], bytes@, 16 * k),
        decreases count - i,
    {
        proof {
            assert(16 * i + 16 <= bytes@.len()) by (nonlinear_arith)
                requires
                    i < count,
                    count == bytes@.len() / 16,
                    bytes@.len() % 16 == 0,
            ;
            assert(16 * i <= n);
        }
        let g = read_guid(bytes, 16 * i);
        out.push(g);
        i = i + 1;
    }
    Some(out)
}

} // verus!
