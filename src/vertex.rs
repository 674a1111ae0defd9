use crate::texture::TextureId;
use vstd::prelude::*;

verus! {

/// Bytes of one vertex in the shared vertex buffer: position and texture
/// coordinates (16), color (4), texture unit (2), padding (2).
pub const VERTEX_STRIDE: usize = 24;

/// Bytes of one sprite in the shared vertex buffer: four vertices.
pub const SPRITE_STRIDE: usize = 96;

/// Offset in a vertex of its position, two 32-bit floats.
pub const POSITION_OFFSET: usize = 0;

/// Offset in a vertex of its texture coordinates, two 32-bit floats.
pub const UV_OFFSET: usize = 8;

/// Offset in a vertex of its color, four bytes.
pub const COLOR_OFFSET: usize = 16;

/// Offset in a vertex of its texture unit, a 16-bit integer.
pub const UNIT_OFFSET: usize = 20;

/// A sprite ready to be written in the vertex buffer.
///
/// `corners` holds, for the bottom-left, bottom-right, top-left and top-right
/// corners in that order, the native bytes of four 32-bit floats: the
/// corner's position x and y in world space, then its texture coordinates u
/// and v.
#[derive(Clone, Copy, Debug)]
pub struct SpriteQuad {
    pub corners: [[u8; 16]; 4],
    /// RGBA color multiplier.
    pub color: [u8; 4],
    pub texture: TextureId,
}

/// The two bytes of `v` in the given byte order.
pub open spec fn u16_bytes(v: u16, little_endian: bool) -> Seq<u8> {
    let lo = (v % 256) as u8;
    let hi = (v / 256) as u8;
    if little_endian {
        seq![lo, hi]
    } else {
        seq![hi, lo]
    }
}

/// The bytes of one vertex: its attributes, the color, the texture unit and
/// two bytes of padding.
pub open spec fn vertex_bytes(attributes: Seq<u8>, color: Seq<u8>, unit: Seq<u8>) -> Seq<u8> {
    attributes + color + unit + seq![0u8, 0u8]
}

/// Where the fields of a vertex lie in its bytes.
pub proof fn lemma_vertex_layout(attributes: Seq<u8>, color: Seq<u8>, unit: Seq<u8>)
    requires
        attributes.len() == 16,
        color.len() == 4,
        unit.len() == 2,
    ensures
        ({
            let v = vertex_bytes(attributes, color, unit);
            &&& v.len() == VERTEX_STRIDE
            &&& v.subrange(POSITION_OFFSET as int, UV_OFFSET as int) == attributes.subrange(0, 8)
            &&& v.subrange(UV_OFFSET as int, COLOR_OFFSET as int) == attributes.subrange(8, 16)
            &&& v.subrange(COLOR_OFFSET as int, UNIT_OFFSET as int) == color
            &&& v.subrange(UNIT_OFFSET as int, UNIT_OFFSET + 2) == unit
            &&& v[22] == 0 && v[23] == 0
        }),
{
    let v = vertex_bytes(attributes, color, unit);
    assert(v.subrange(0, 8) =~= attributes.subrange(0, 8));
    assert(v.subrange(8, 16) =~= attributes.subrange(8, 16));
    assert(v.subrange(16, 20) =~= color);
    assert(v.subrange(20, 22) =~= unit);
}

/// The bytes of one sprite drawn with texture unit `unit`: its four vertices.
pub open spec fn quad_bytes(q: SpriteQuad, unit: u16, little_endian: bool) -> Seq<u8> {
    let u = u16_bytes(unit, little_endian);
    vertex_bytes(q.corners@[0]@, q.color@, u) + vertex_bytes(q.corners@[1]@, q.color@, u)
        + vertex_bytes(q.corners@[2]@, q.color@, u) + vertex_bytes(q.corners@[3]@, q.color@, u)
}

/// The bytes of a batch of sprites, each drawn with its texture unit.
pub open spec fn batch_bytes(
    quads: Seq<SpriteQuad>,
    units: Seq<u32>,
    little_endian: bool,
) -> Seq<u8>
    decreases quads.len(),
{
    if quads.len() == 0 {
        Seq::empty()
    } else {
        batch_bytes(quads.drop_last(), units, little_endian) + quad_bytes(
            quads.last(),
            units[quads.len() - 1] as u16,
            little_endian,
        )
    }
}

/// Appends `bytes` to `out`.
fn push_bytes(out: &mut Vec<u8>, bytes: &[u8])
    ensures
        final(out)@ == old(out)@ + bytes@,
{
    let ghost start = out@;
    let mut k: usize = 0;
    while k < bytes.len()
        invariant
            k <= bytes@.len(),
            out@ == start + bytes@.take(k as int),
        decreases bytes@.len() - k,
    {
        proof {
            assert(bytes@.take(k + 1) =~= bytes@.take(k as int).push(bytes@[k as int]));
        }
        out.push(bytes[k]);
        k += 1;
    }
    proof {
        assert(bytes@.take(bytes@.len() as int) =~= bytes@);
    }
}

/// The two bytes of `v` in the given byte order.
pub fn unit_bytes(v: u16, little_endian: bool) -> (r: [u8; 2])
    ensures
        r@ == u16_bytes(v, little_endian),
{
    let lo = (v % 256) as u8;
    let hi = (v / 256) as u8;
    let r = if little_endian {
        [lo, hi]
    } else {
        [hi, lo]
    };
    proof {
        assert(r@ =~= u16_bytes(v, little_endian));
    }
    r
}

/// Appends one vertex to `out`.
fn push_vertex(out: &mut Vec<u8>, attributes: &[u8; 16], color: &[u8; 4], unit: &[u8; 2])
    ensures
        final(out)@ == old(out)@ + vertex_bytes(attributes@, color@, unit@),
{
    let ghost start = out@;
    push_bytes(out, attributes.as_slice());
    push_bytes(out, color.as_slice());
    push_bytes(out, unit.as_slice());
    let pad: [u8; 2] = [0, 0];
    push_bytes(out, pad.as_slice());
    proof {
        assert(pad@ =~= seq![0u8, 0u8]);
        assert(out@ =~= start + vertex_bytes(attributes@, color@, unit@));
    }
}

/// Appends the four vertices of `q`, drawn with texture unit `unit`, to
/// `out`: for each corner its position and texture coordinates, the color,
/// the unit in the given byte order, and two bytes of padding.
pub fn write_quad(out: &mut Vec<u8>, q: &SpriteQuad, unit: u16, little_endian: bool)
    ensures
        final(out)@ == old(out)@ + quad_bytes(*q, unit, little_endian),
{
    let ghost start = out@;
    let u = unit_bytes(unit, little_endian);
    push_vertex(out, &q.corners[0], &q.color, &u);
    push_vertex(out, &q.corners[1], &q.color, &u);
    push_vertex(out, &q.corners[2], &q.color, &u);
    push_vertex(out, &q.corners[3], &q.color, &u);
    proof {
        assert(out@ =~= start + quad_bytes(*q, unit, little_endian));
    }
}

/// The length of the bytes of a batch.
pub proof fn lemma_batch_bytes_len(quads: Seq<SpriteQuad>, units: Seq<u32>, little_endian: bool)
    ensures
        batch_bytes(quads, units, little_endian).len() == quads.len() * 96,
    decreases quads.len(),
{
    if quads.len() > 0 {
        lemma_batch_bytes_len(quads.drop_last(), units, little_endian);
    }
}

} // verus!
