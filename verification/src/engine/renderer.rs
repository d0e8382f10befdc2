use vstd::prelude::*;

verus! {

/// Width in pixels of the image that the raycaster renders.
pub const RENDER_WIDTH: u32 = 960;

/// Height in pixels of the image that the raycaster renders.
pub const RENDER_HEIGHT: u32 = 540;

/// Number of columns that one raycast compute workgroup handles.
pub const WORKGROUP_SIZE: u32 = 64;

/// Number of raycast workgroups to dispatch for `render_width` columns:
/// the fewest groups of 64 columns that cover them all.
pub fn dispatch_count(render_width: u32) -> (groups: u32)
    requires
        render_width + WORKGROUP_SIZE - 1 <= u32::MAX,
    ensures
        groups == (render_width + WORKGROUP_SIZE - 1) / (WORKGROUP_SIZE as int),
        groups * WORKGROUP_SIZE >= render_width,
        groups == 0 || (groups - 1) * WORKGROUP_SIZE < render_width,
{
    (render_width + 63) / 64
}

/// Byte `k` (0 = least significant) of a word.
pub open spec fn word_byte(w: u32, k: int) -> u8 {
    let shift: int = if k == 0 {
        1
    } else if k == 1 {
        0x100
    } else if k == 2 {
        0x1_0000
    } else {
        0x100_0000
    };
    ((w as int / shift) % 0x100) as u8
}

/// Words laid out in memory on a little-endian machine.
pub open spec fn le_bytes(words: Seq<u32>) -> Seq<u8> {
    Seq::new(4 * words.len(), |j: int| word_byte(words[j / 4], j % 4))
}

/// Words laid out in memory on a big-endian machine.
pub open spec fn be_bytes(words: Seq<u32>) -> Seq<u8> {
    Seq::new(4 * words.len(), |j: int| word_byte(words[j / 4], 3 - j % 4))
}

/// `bytemuck::cast_slice` from words to bytes: the memory of the words, read
/// as bytes. Viewing `u32` as `u8` never fails, so it does not panic, and the
/// result has four bytes per word. Their order is the machine's: little-endian
/// or big-endian, which of the two is not stated.
#[verifier::external_body]
fn cast_words(words: &[u32]) -> (bytes: &[u8])
    ensures
        bytes@ == le_bytes(words@) || bytes@ == be_bytes(words@),
{
    bytemuck::cast_slice(words)
}

/// The bytes of `words` as a GPU buffer takes them: four per word, in the
/// machine's byte order.
pub fn word_bytes(words: &[u32]) -> (bytes: Vec<u8>)
    ensures
        bytes@ == le_bytes(words@) || bytes@ == be_bytes(words@),
        bytes@.len() == 4 * words@.len(),
{
    let raw = cast_words(words);
    let mut bytes: Vec<u8> = Vec::new();
    let mut i: usize = 0;
    while i < raw.len()
        invariant
            i <= raw@.len(),
            bytes@ == raw@.take(i as int),
        decreases raw@.len() - i,
    {
        bytes.push(raw[i]);
        i += 1;
        assert(bytes@ =~= raw@.take(i as int));
    }
    assert(raw@.take(raw@.len() as int) =~= raw@);
    bytes
}

} // verus!
