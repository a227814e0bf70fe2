//! Fixed-size values as the bytes that a bounded encoder takes in.
use vstd::prelude::*;

verus! {

/// A fixed-size value that is pushed as its little-endian bytes.
pub trait ValueBytes {
    /// The value's bytes, least significant first.
    spec fn le_bytes(&self) -> Seq<u8>;

    fn to_le_vec(&self) -> (r: Vec<u8>)
        ensures
            r@ == self.le_bytes(),
    ;
}

impl ValueBytes for u8 {
    open spec fn le_bytes(&self) -> Seq<u8> {
        seq![*self]
    }

    fn to_le_vec(&self) -> (r: Vec<u8>) {
        vec![*self]
    }
}

impl ValueBytes for u16 {
    open spec fn le_bytes(&self) -> Seq<u8> {
        seq![*self as u8, (*self >> 8u16) as u8]
    }

    fn to_le_vec(&self) -> (r: Vec<u8>) {
        let r = vec![*self as u8, (*self >> 8u16) as u8];
        assert(r@ =~= self.le_bytes());
        r
    }
}

impl ValueBytes for u32 {
    open spec fn le_bytes(&self) -> Seq<u8> {
        seq![
            *self as u8,
            (*self >> 8u32) as u8,
            (*self >> 16u32) as u8,
            (*self >> 24u32) as u8,
        ]
    }

    fn to_le_vec(&self) -> (r: Vec<u8>) {
        let v = *self;
        let r = vec![v as u8, (v >> 8u32) as u8, (v >> 16u32) as u8, (v >> 24u32) as u8];
        assert(r@ =~= self.le_bytes());
        r
    }
}

impl ValueBytes for u64 {
    open spec fn le_bytes(&self) -> Seq<u8> {
        seq![
            *self as u8,
            (*self >> 8u64) as u8,
            (*self >> 16u64) as u8,
            (*self >> 24u64) as u8,
            (*self >> 32u64) as u8,
            (*self >> 40u64) as u8,
            (*self >> 48u64) as u8,
            (*self >> 56u64) as u8,
        ]
    }

    fn to_le_vec(&self) -> (r: Vec<u8>) {
        let v = *self;
        let r = vec![
            v as u8,
            (v >> 8u64) as u8,
            (v >> 16u64) as u8,
            (v >> 24u64) as u8,
            (v >> 32u64) as u8,
            (v >> 40u64) as u8,
            (v >> 48u64) as u8,
            (v >> 56u64) as u8,
        ];
        assert(r@ =~= self.le_bytes());
        r
    }
}

} // verus!
