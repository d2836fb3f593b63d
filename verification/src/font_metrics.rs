//! Packed per-character metric indices, in the style of TeX font metrics.

use vstd::prelude::*;

verus! {

/// The metric indices of one character, packed into a `u32`: the width
/// index in the bottom byte, then four bits each of height and depth index,
/// six bits of italic index and ten bits of options.
#[derive(Debug, Clone, Copy, PartialEq, Eq, Structural)]
pub struct CharIndices(pub u32);

impl CharIndices {
    /// Pack a character's metric indices.
    pub fn of_indices(width: usize, height: usize, depth: usize, italic: usize, options:
        usize) -> (r: CharIndices)
        requires
            width < 256,
            height < 16,
            depth < 16,
            italic < 64,
            options < 1024,
        ensures
            r.0 == (((options as u32) << 22) | ((italic as u32) << 16) | ((depth as u32) << 12)
                | ((height as u32) << 8) | (width as u32)),
    {
        CharIndices(
            ((options as u32) << 22) | ((italic as u32) << 16) | ((depth as u32) << 12) | ((
            height as u32) << 8) | (width as u32),
        )
    }

    /// The width index.
    pub fn width_index(&self) -> (r: usize)
        ensures
            r == (self.0 & 0xff) as usize,
    {
        (self.0 & 0xff) as usize
    }

    /// The height index.
    pub fn height_index(&self) -> (r: usize)
        ensures
            r == ((self.0 >> 8) & 0xf) as usize,
    {
        ((self.0 >> 8) & 0xf) as usize
    }

    /// The depth index.
    pub fn depth_index(&self) -> (r: usize)
        ensures
            r == ((self.0 >> 12) & 0xf) as usize,
    {
        ((self.0 >> 12) & 0xf) as usize
    }

    /// The italic index.
    pub fn italic_index(&self) -> (r: usize)
        ensures
            r == ((self.0 >> 16) & 0x3f) as usize,
    {
        ((self.0 >> 16) & 0x3f) as usize
    }

    /// The option bits.
    pub fn options(&self) -> (r: usize)
        ensures
            r == ((self.0 >> 22) & 0x3ff) as usize,
    {
        ((self.0 >> 22) & 0x3ff) as usize
    }
}

/// Unpacking packed metric indices recovers each index exactly.
pub proof fn lemma_char_indices_roundtrip(width: u32, height: u32, depth: u32, italic: u32,
    options: u32)
    requires
        width < 256,
        height < 16,
        depth < 16,
        italic < 64,
        options < 1024,
    ensures
        ({
            let v = (options << 22) | (italic << 16) | (depth << 12) | (height << 8) | width;
            &&& (v & 0xff) == width
            &&& ((v >> 8) & 0xf) == height
            &&& ((v >> 12) & 0xf) == depth
            &&& ((v >> 16) & 0x3f) == italic
            &&& ((v >> 22) & 0x3ff) == options
        }),
{
    let v = (options << 22) | (italic << 16) | (depth << 12) | (height << 8) | width;
    assert((v & 0xff) == width && ((v >> 8) & 0xf) == height && ((v >> 12) & 0xf) == depth && ((
    v >> 16) & 0x3f) == italic && ((v >> 22) & 0x3ff) == options) by (bit_vector)
        requires
            v == (options << 22) | (italic << 16) | (depth << 12) | (height << 8) | width,
            width < 256,
            height < 16,
            depth < 16,
            italic < 64,
            options < 1024,
    ;
}

} // verus!
