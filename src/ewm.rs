//! Root-window hints of the Extended Window Manager Hints convention.
use byteorder::ByteOrder;
use vstd::prelude::*;
use vstd::slice::slice_subrange;

verus! {

/// The root-window properties the compositor reacts to.
#[allow(non_camel_case_types)]
#[derive(Debug, Clone, Copy, PartialEq, Eq)]
pub enum RootWindowHintCodes {
    _NET_CLIENT_LIST_STACKING,
    _NET_ACTIVE_WINDOW,
}

/// The atoms the server interned for the recognised hint names.
#[derive(Debug, Clone, Copy, PartialEq, Eq)]
pub struct RootHintAtoms {
    pub client_list_stacking: u32,
    pub active_window: u32,
}

impl RootHintAtoms {
    pub open spec fn spec_hint_of(self, atom: u32) -> Option<RootWindowHintCodes> {
        if atom == self.client_list_stacking {
            Some(RootWindowHintCodes::_NET_CLIENT_LIST_STACKING)
        } else if atom == self.active_window {
            Some(RootWindowHintCodes::_NET_ACTIVE_WINDOW)
        } else {
            None
        }
    }

    /// Which recognised hint, if any, an atom names.
    pub fn hint_of(&self, atom: u32) -> (r: Option<RootWindowHintCodes>)
        ensures
            r == self.spec_hint_of(atom),
    {
        if atom == self.client_list_stacking {
            Some(RootWindowHintCodes::_NET_CLIENT_LIST_STACKING)
        } else if atom == self.active_window {
            Some(RootWindowHintCodes::_NET_ACTIVE_WINDOW)
        } else {
            None
        }
    }
}

/// The unsigned 32-bit number stored little-endian in the four bytes at `at`.
pub open spec fn le_u32_at(b: Seq<u8>, at: int) -> int {
    b[at] + 256 * b[at + 1] + 65536 * b[at + 2] + 16777216 * b[at + 3]
}

/// Relies on byteorder's `LittleEndian::read_u32`: it reads the first four
/// bytes, least significant first (and panics on fewer than four).
#[verifier::external_body]
fn read_u32_le(buf: &[u8]) -> (r: u32)
    requires
        buf@.len() >= 4,
    ensures
        r as int == le_u32_at(buf@, 0),
{
    byteorder::LittleEndian::read_u32(buf)
}

/// The window ids packed as little-endian `u32`s in a property value; a
/// trailing group of fewer than four bytes is ignored.
pub open spec fn spec_decode_window_ids(value: Seq<u8>) -> Seq<u32> {
    Seq::new((value.len() / 4) as nat, |k: int| le_u32_at(value, 4 * k) as u32)
}

/// Decodes the payload of `_NET_CLIENT_LIST_STACKING` (or any list of
/// 32-bit window ids) into the ids, in order.
pub fn decode_window_ids(value: &[u8]) -> (r: Vec<u32>)
    ensures
        r@ == spec_decode_window_ids(value@),
{
    let len: usize = value.len();
    let n: usize = len / 4;
    let mut out: Vec<u32> = Vec::new();
    let mut k: usize = 0;
    while k < n
        invariant
            len == value@.len(),
            n == value@.len() / 4,
            k <= n,
            out@.len() == k,
            forall|i: int| 0 <= i < k ==> out@[i] as int == le_u32_at(value@, 4 * i),
        decreases n - k,
    {
        assert(4 * k + 4 <= value@.len()) by (nonlinear_arith)
            requires
                k < n,
                n == value@.len() / 4,
        ;
        let part = slice_subrange(value, 4 * k, 4 * k + 4);
        let id = read_u32_le(part);
        out.push(id);
        k = k + 1;
    }
    assert(out@ =~= spec_decode_window_ids(value@));
    out
}

} // verus!
