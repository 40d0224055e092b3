//! Carving of a byte buffer into aligned regions, strings and raw data.
//!
//! Every carve takes the part of a buffer that is still free and hands back
//! what it carved together with the part that is free afterwards. Carving
//! again from that tail never reaches bytes that were handed out before.

use vstd::prelude::*;
use vstd::string::StringSliceAdditionalSpecFns;
use vstd::arithmetic::div_mod::lemma_fundamental_div_mod;
use vstd::arithmetic::div_mod::lemma_fundamental_div_mod_converse;
use vstd::arithmetic::div_mod::lemma_mod_multiples_basic;
use vstd::arithmetic::div_mod::lemma_mod_pos_bound;
use vstd::utf8::decode_utf8;
use vstd::utf8::encode_utf8_decode_utf8;
use crate::error::OtError;
use crate::error::error_of;
use crate::error::OT_ERROR_INVALID_ARGS;
use crate::error::OT_ERROR_NO_BUFS;

verus! {

/// Size and alignment, in bytes, of the elements of a typed region.
#[derive(Debug, Copy, Clone, Eq, PartialEq, Hash, Structural)]
pub struct ElemLayout {
    /// The size of one element.
    pub size: usize,
    /// The alignment that the first element needs; never zero.
    pub align: usize,
}

impl ElemLayout {
    /// An alignment of zero describes no type.
    pub open spec fn wf(self) -> bool {
        self.align > 0
    }
}

/// Where a typed region lies, as a carve decides it.
pub struct Placement {
    /// The address of the region's first byte.
    pub start: int,
    /// The bytes skipped in front of the region.
    pub pad: int,
    /// The length of the region in bytes.
    pub bytes: int,
}

/// `addr` is a multiple of `align`.
pub open spec fn is_aligned(addr: int, align: int) -> bool {
    addr % align == 0
}

/// The number of bytes from `addr` to the next multiple of `align`.
pub open spec fn padding_for(addr: int, align: int) -> int {
    if addr % align == 0 {
        0
    } else {
        align - addr % align
    }
}

/// Where `count` elements of `layout` go in a buffer of `len` bytes that
/// starts at address `addr`, or `None` when they find no room. A region
/// without bytes lies in no buffer: its address is the alignment itself.
pub open spec fn placement(layout: ElemLayout, addr: int, len: int, count: int) -> Option<
    Placement,
> {
    if count == 0 || layout.size == 0 {
        Some(Placement { start: layout.align as int, pad: 0, bytes: 0 })
    } else {
        let pad = padding_for(addr, layout.align as int);
        let bytes = count * layout.size;
        if pad + bytes <= len {
            Some(Placement { start: addr + pad, pad, bytes })
        } else {
            None
        }
    }
}

/// `s` is the C string that `bytes` starts with: `bytes` holds `s`, which
/// has no NUL in it, and a NUL right behind it.
pub open spec fn is_c_str_of(bytes: Seq<u8>, s: Seq<u8>) -> bool {
    &&& s.len() < bytes.len()
    &&& bytes.subrange(0, s.len() as int) == s
    &&& !s.contains(0u8)
    &&& bytes[s.len() as int] == 0u8
}

/// The C string that starts at `offset` in `bytes`, if there is one: the
/// bytes from `offset` up to the first NUL, without it.
pub open spec fn c_str_in(bytes: Seq<u8>, offset: int) -> Option<Seq<u8>> {
    if 0 <= offset < bytes.len() && exists|s: Seq<u8>|
        is_c_str_of(bytes.subrange(offset, bytes.len() as int), s) {
        Some(choose|s: Seq<u8>| is_c_str_of(bytes.subrange(offset, bytes.len() as int), s))
    } else {
        None
    }
}

/// The number of bytes from `addr` to the next multiple of `align`.
pub fn padding_needed(addr: usize, align: usize) -> (pad: usize)
    requires
        align > 0,
    ensures
        pad == padding_for(addr as int, align as int),
        pad < align,
{
    let rem = addr % align;
    proof {
        lemma_mod_pos_bound(addr as int, align as int);
    }
    if rem == 0 {
        0
    } else {
        align - rem
    }
}

/// Carves a region for `count` elements of `layout` out of `buf`, whose
/// first byte has the address `addr`.
///
/// The region starts at the first address in `buf` that is a multiple of the
/// alignment. The result holds the region's address, the region, and the
/// rest of `buf` behind it. Without elements, or with elements of no size,
/// the region is empty and all of `buf` is the rest.
pub fn align_min<'t>(layout: ElemLayout, addr: usize, buf: &'t mut [u8], count: usize) -> (r:
    Result<(usize, &'t mut [u8], &'t mut [u8]), OtError>)
    requires
        layout.wf(),
        addr + old(buf)@.len() <= usize::MAX,
    ensures
        match placement(layout, addr as int, old(buf)@.len() as int, count as int) {
            Some(p) => {
                &&& r matches Ok((start, region, rest))
                &&& start == p.start
                &&& region@ == old(buf)@.subrange(p.pad, p.pad + p.bytes)
                &&& rest@ == old(buf)@.subrange(p.pad + p.bytes, old(buf)@.len() as int)
                &&& final(buf)@ == old(buf)@.subrange(0, p.pad) + final(region)@ + final(rest)@
            },
            None => {
                &&& r == Err::<(usize, &mut [u8], &mut [u8]), OtError>(error_of(OT_ERROR_NO_BUFS))
                &&& final(buf)@ == old(buf)@
            },
        },
{
    let len = buf.len();
    if count == 0 || layout.size == 0 {
        let (region, rest) = buf.split_at_mut(0);
        assert(region@ =~= old(buf)@.subrange(0, 0));
        assert(rest@ =~= old(buf)@.subrange(0, len as int));
        proof {
            assert(old(buf)@.subrange(0, 0) + region@ =~= Seq::<u8>::empty());
        }
        return Ok((layout.align, region, rest));
    }
    let pad = padding_needed(addr, layout.align);
    if pad > len || (len - pad) / layout.size < count {
        proof {
            lemma_room_by_division((len - pad) as int, layout.size as int, count as int);
        }
        return Err(OtError::new(OT_ERROR_NO_BUFS));
    }
    proof {
        lemma_room_by_division((len - pad) as int, layout.size as int, count as int);
    }
    let bytes = count * layout.size;
    let (_lead, tail) = buf.split_at_mut(pad);
    let (region, rest) = tail.split_at_mut(bytes);
    assert(region@ =~= old(buf)@.subrange(pad as int, pad + bytes));
    assert(rest@ =~= old(buf)@.subrange(pad + bytes, len as int));
    Ok((addr + pad, region, rest))
}

/// The error that storing a C string with content `s` in `room` bytes
/// ends with, if it ends with one: `OT_ERROR_NO_BUFS` where `s` and its
/// closing NUL find no room, `OT_ERROR_INVALID_ARGS` where they find room
/// and `s` has a NUL inside.
pub open spec fn c_str_error(s: Seq<u8>, room: int) -> Option<u32> {
    if s.len() >= room {
        Some(OT_ERROR_NO_BUFS)
    } else if s.contains(0u8) {
        Some(OT_ERROR_INVALID_ARGS)
    } else {
        None
    }
}

/// Copies `str` and a closing NUL to the front of `buf`.
///
/// The result holds the bytes written, NUL included, and the rest of `buf`
/// behind them. A string that finds no room is refused with
/// `OT_ERROR_NO_BUFS`. A string that finds room and has a NUL inside is no
/// C string: it is refused with `OT_ERROR_INVALID_ARGS`. A string that is
/// refused leaves `buf` as it is.
pub fn store_str<'t>(str: &str, buf: &'t mut [u8]) -> (r: Result<(&'t [u8], &'t mut [u8]), OtError>)
    ensures
        match c_str_error(str.spec_bytes(), old(buf)@.len() as int) {
            Some(code) => {
                &&& r == Err::<(&[u8], &mut [u8]), OtError>(error_of(code))
                &&& final(buf)@ == old(buf)@
            },
            None => {
                &&& r matches Ok((stored, rest))
                &&& stored@ == str.spec_bytes().push(0u8)
                &&& rest@ == old(buf)@.subrange(
                    str.spec_bytes().len() as int + 1,
                    old(buf)@.len() as int,
                )
                &&& final(buf)@ == stored@ + final(rest)@
            },
        },
{
    let bytes = str.as_bytes();
    let n = bytes.len();
    if n >= buf.len() {
        return Err(OtError::new(OT_ERROR_NO_BUFS));
    }
    if contains_nul(bytes) {
        return Err(OtError::new(OT_ERROR_INVALID_ARGS));
    }
    let (str_buf, rem_buf) = buf.split_at_mut(n + 1);
    let mut i: usize = 0;
    while i < n
        invariant
            i <= n,
            n == bytes@.len(),
            str_buf@.len() == n + 1,
            forall|j: int| 0 <= j < i ==> str_buf@[j] == bytes@[j],
        decreases n - i,
    {
        str_buf[i] = bytes[i];
        i += 1;
    }
    str_buf[n] = 0;
    assert(str_buf@ =~= bytes@.push(0u8));
    Ok((str_buf, rem_buf))
}

/// Copies `data` to the front of `buf`.
///
/// The result holds the bytes written and the rest of `buf` behind them.
pub fn store_data<'t>(data: &[u8], buf: &'t mut [u8]) -> (r: Result<
    (&'t [u8], &'t mut [u8]),
    OtError,
>)
    ensures
        data@.len() <= old(buf)@.len() ==> {
            &&& r matches Ok((stored, rest))
            &&& stored@ == data@
            &&& rest@ == old(buf)@.subrange(data@.len() as int, old(buf)@.len() as int)
            &&& final(buf)@ == stored@ + final(rest)@
        },
        data@.len() > old(buf)@.len() ==> {
            &&& r == Err::<(&[u8], &mut [u8]), OtError>(error_of(OT_ERROR_NO_BUFS))
            &&& final(buf)@ == old(buf)@
        },
{
    let n = data.len();
    if n > buf.len() {
        return Err(OtError::new(OT_ERROR_NO_BUFS));
    }
    let (data_buf, rem_buf) = buf.split_at_mut(n);
    let mut i: usize = 0;
    while i < n
        invariant
            i <= n,
            n == data@.len(),
            data_buf@.len() == n,
            forall|j: int| 0 <= j < i ==> data_buf@[j] == data@[j],
        decreases n - i,
    {
        data_buf[i] = data[i];
        i += 1;
    }
    assert(data_buf@ =~= data@);
    Ok((data_buf, rem_buf))
}

/// Whether a NUL occurs in `bytes`.
pub fn contains_nul(bytes: &[u8]) -> (found: bool)
    ensures
        found == bytes@.contains(0u8),
{
    let mut i: usize = 0;
    while i < bytes.len()
        invariant
            i <= bytes@.len(),
            forall|j: int| 0 <= j < i ==> bytes@[j] != 0u8,
        decreases bytes@.len() - i,
    {
        if bytes[i] == 0 {
            return true;
        }
        i += 1;
    }
    false
}

/// Reads the C string that starts at `offset` in `buf`: the bytes up to the
/// first NUL, without it. There is none where `offset` lies outside `buf`
/// or no NUL follows it.
pub fn c_str_at<'a>(buf: &'a [u8], offset: usize) -> (r: Option<&'a [u8]>)
    ensures
        match c_str_in(buf@, offset as int) {
            Some(s) => r matches Some(found) && found@ == s,
            None => r is None,
        },
        r matches Some(found) ==> offset + found@.len() < buf@.len() && is_c_str_of(
            buf@.subrange(offset as int, buf@.len() as int),
            found@,
        ),
{
    if offset >= buf.len() {
        return None;
    }
    let ghost tail = buf@.subrange(offset as int, buf@.len() as int);
    let mut end: usize = offset;
    while end < buf.len()
        invariant
            offset <= end <= buf@.len(),
            tail == buf@.subrange(offset as int, buf@.len() as int),
            forall|j: int| 0 <= j < end - offset ==> tail[j] != 0u8,
        decreases buf@.len() - end,
    {
        if buf[end] == 0 {
            let s = vstd::slice::slice_subrange(buf, offset, end);
            proof {
                assert(tail.subrange(0, s@.len() as int) =~= s@);
                assert(tail[s@.len() as int] == buf@[end as int]);
                assert(is_c_str_of(tail, s@));
                lemma_c_str_unique(tail, s@, c_str_in(buf@, offset as int).unwrap());
            }
            return Some(s);
        }
        end += 1;
    }
    proof {
        if c_str_in(buf@, offset as int) is Some {
            let s = c_str_in(buf@, offset as int).unwrap();
            assert(tail[s.len() as int] == 0u8);
        }
    }
    None
}

/// `count` elements of `size` bytes fit in `avail` bytes exactly when
/// `count` is at most the whole number of elements that `avail` holds.
proof fn lemma_room_by_division(avail: int, size: int, count: int)
    requires
        size > 0,
        count >= 0,
    ensures
        avail >= 0 ==> (count * size <= avail <==> count <= avail / size),
        avail < 0 ==> count * size > avail,
{
    if avail >= 0 {
        lemma_fundamental_div_mod(avail, size);
        lemma_mod_pos_bound(avail, size);
        let q = avail / size;
        if count <= q {
            assert(count * size <= q * size) by (nonlinear_arith)
                requires
                    count <= q,
                    size > 0,
            ;
            assert(size * q == q * size) by (nonlinear_arith);
        } else {
            assert(count * size >= (q + 1) * size) by (nonlinear_arith)
                requires
                    count >= q + 1,
                    size > 0,
            ;
            assert((q + 1) * size == size * q + size) by (nonlinear_arith);
        }
    } else {
        assert(count * size >= 0) by (nonlinear_arith)
            requires
                count >= 0,
                size > 0,
        ;
    }
}

/// A carved region starts at a multiple of the alignment, and no such
/// address lies between the buffer's start and the region.
pub proof fn lemma_padding_least(addr: int, align: int)
    requires
        addr >= 0,
        align > 0,
    ensures
        0 <= padding_for(addr, align) < align,
        is_aligned(addr + padding_for(addr, align), align),
        forall|a: int| addr <= a < addr + padding_for(addr, align) ==> !#[trigger] is_aligned(a, align),
{
    lemma_fundamental_div_mod(addr, align);
    lemma_mod_pos_bound(addr, align);
    let q = addr / align;
    let r = addr % align;
    if r == 0 {
    } else {
        assert(addr + (align - r) == (q + 1) * align) by (nonlinear_arith)
            requires
                addr == align * q + r,
        ;
        lemma_mod_multiples_basic(q + 1, align);
        assert forall|a: int| addr <= a < addr + (align - r) implies !#[trigger] is_aligned(
            a,
            align,
        ) by {
            let ra = a - align * q;
            assert(align * q == q * align) by (nonlinear_arith);
            lemma_fundamental_div_mod_converse(a, align, q, ra);
        }
    }
}

/// Carving always finds the placement if there is one.
///
/// A carve that succeeds hands out a region that starts at a multiple of the
/// alignment and has the bytes of the elements asked for. A region with
/// bytes lies in the buffer, at the first multiple of the alignment in it,
/// and ends where the rest begins, so that the two share no byte. A carve
/// fails only when the elements fit at no multiple of the alignment inside
/// the buffer.
pub proof fn law_carving(layout: ElemLayout, addr: usize, len: usize, count: usize)
    requires
        layout.wf(),
        addr + len <= usize::MAX,
    ensures
        match placement(layout, addr as int, len as int, count as int) {
            Some(p) => {
                &&& is_aligned(p.start, layout.align as int)
                &&& p.bytes == count * layout.size
                &&& 0 <= p.pad && 0 <= p.bytes && p.pad + p.bytes <= len
                &&& p.bytes > 0 ==> p.start == addr + p.pad
                &&& p.bytes == 0 ==> p.pad == 0
                &&& forall|a: int|
                    addr <= a < addr + p.pad ==> !#[trigger] is_aligned(a, layout.align as int)
            },
            None => {
                &&& count > 0 && layout.size > 0
                &&& forall|start: int|
                    addr <= start && #[trigger] is_aligned(start, layout.align as int) ==> start
                        + count * layout.size > addr + len
            },
        },
{
    let align = layout.align as int;
    lemma_padding_least(addr as int, align);
    if count == 0 || layout.size == 0 {
        vstd::arithmetic::div_mod::lemma_mod_self_0(align);
        assert(count * layout.size == 0) by (nonlinear_arith)
            requires
                count == 0 || layout.size == 0,
        ;
    } else {
        let pad = padding_for(addr as int, align);
        assert(count * layout.size > 0) by (nonlinear_arith)
            requires
                count > 0,
                layout.size > 0,
        ;
        if pad + count * layout.size <= len {
        } else {
            assert forall|start: int| addr <= start && #[trigger] is_aligned(
                start,
                align,
            ) implies start + count * layout.size > addr + len by {
                if start < addr + pad {
                    assert(!is_aligned(start, align));
                }
            }
        }
    }
}

/// A string that was stored is read back as it was.
///
/// Whatever follows the stored bytes, the C string at their start is the
/// string's bytes, which decode to the string; the NUL stands right behind
/// the string's last byte.
pub proof fn law_store_str_round_trip(str: &str, rest: Seq<u8>)
    requires
        !str.spec_bytes().contains(0u8),
    ensures
        is_c_str_of(str.spec_bytes().push(0u8) + rest, str.spec_bytes()),
        decode_utf8(str.spec_bytes()) == str@,
        forall|s: Seq<u8>| is_c_str_of(str.spec_bytes().push(0u8) + rest, s) ==> s == str.spec_bytes(),
{
    let bytes = str.spec_bytes();
    let stored = bytes.push(0u8) + rest;
    assert(stored.subrange(0, bytes.len() as int) =~= bytes);
    encode_utf8_decode_utf8(str@);
    assert forall|s: Seq<u8>| is_c_str_of(stored, s) implies s == bytes by {
        lemma_c_str_unique(stored, s, bytes);
    }
}

/// Where the bytes of a C string with content `s` stand at `offset` in
/// `bytes`, the C string at `offset` is `s`.
pub proof fn lemma_c_str_in(bytes: Seq<u8>, offset: int, s: Seq<u8>)
    requires
        0 <= offset,
        offset + s.len() < bytes.len(),
        bytes.subrange(offset, offset + s.len() + 1) == s.push(0u8),
        !s.contains(0u8),
    ensures
        c_str_in(bytes, offset) == Some(s),
{
    let tail = bytes.subrange(offset, bytes.len() as int);
    let stored = bytes.subrange(offset, offset + s.len() + 1);
    assert(tail.subrange(0, s.len() as int) =~= s) by {
        assert forall|i: int| 0 <= i < s.len() implies tail[i] == s[i] by {
            assert(stored[i] == s.push(0u8)[i]);
        }
    }
    assert(tail[s.len() as int] == 0u8) by {
        assert(stored[s.len() as int] == s.push(0u8)[s.len() as int]);
    }
    assert(is_c_str_of(tail, s));
    lemma_c_str_unique(tail, s, c_str_in(bytes, offset).unwrap());
}

/// A buffer starts with one C string at most.
pub proof fn lemma_c_str_unique(bytes: Seq<u8>, s1: Seq<u8>, s2: Seq<u8>)
    requires
        is_c_str_of(bytes, s1),
        is_c_str_of(bytes, s2),
    ensures
        s1 == s2,
{
    if s1.len() < s2.len() {
        assert(s2[s1.len() as int] == bytes.subrange(0, s2.len() as int)[s1.len() as int]);
        assert(s2.contains(0u8));
    } else if s2.len() < s1.len() {
        assert(s1[s2.len() as int] == bytes.subrange(0, s1.len() as int)[s2.len() as int]);
        assert(s1.contains(0u8));
    } else {
        assert(s1 =~= s2);
    }
}

} // verus!
