use vstd::prelude::*;

verus! {

/// Number of LEDs on the ring.
pub const RING_LEN: usize = 12;

/// Number of LEDs in one quadrant of the ring.
pub const QUADRANT_LEN: usize = 3;

/// Zero bytes sent after the pixel data: the latch gap of the LED protocol.
pub const LATCH_LEN: usize = 20;

/// The SPI clock that gives each encoded protocol bit its timing: three times
/// the protocol's 800 kHz bit rate.
pub const SPI_CLOCK_HZ: u32 = 2_400_000;

/// A color with 8 bits per channel.
#[derive(Clone, Copy, Debug, PartialEq, Eq, Structural)]
pub struct Rgb {
    pub r: u8,
    pub g: u8,
    pub b: u8,
}

/// The color that shows a door's state: dim green when closed, red when open.
pub fn closed_to_color(closed: bool) -> (c: Rgb)
    ensures
        closed ==> c == (Rgb { r: 0x00, g: 0x0f, b: 0x01 }),
        !closed ==> c == (Rgb { r: 0x14, g: 0x00, b: 0x00 }),
{
    if closed {
        Rgb { r: 0x00, g: 0x0f, b: 0x01 }
    } else {
        Rgb { r: 0x14, g: 0x00, b: 0x00 }
    }
}

/// Whether bit `index` (0 is the least significant) of `value` is set.
pub open spec fn bit_set(value: u8, index: u8) -> bool {
    (value >> index) & 1u8 == 1u8
}

/// The four SPI bits standing for one protocol bit: a long high for 1, a
/// short high for 0.
pub open spec fn bit_pattern(set: bool) -> u8 {
    if set {
        0b1110u8
    } else {
        0b1000u8
    }
}

/// One SPI byte carrying two protocol bits: the higher in the high nibble.
pub open spec fn crumb_byte(high: bool, low: bool) -> u8 {
    (bit_pattern(high) << 4u8) | bit_pattern(low)
}

/// The four SPI bytes of one channel value, most significant bits first.
pub open spec fn channel_bytes(value: u8) -> Seq<u8> {
    seq![
        crumb_byte(bit_set(value, 7), bit_set(value, 6)),
        crumb_byte(bit_set(value, 5), bit_set(value, 4)),
        crumb_byte(bit_set(value, 3), bit_set(value, 2)),
        crumb_byte(bit_set(value, 1), bit_set(value, 0)),
    ]
}

/// The twelve SPI bytes of one LED: green, then red, then blue.
pub open spec fn pixel_bytes(c: Rgb) -> Seq<u8> {
    channel_bytes(c.g) + channel_bytes(c.r) + channel_bytes(c.b)
}

/// The SPI bytes of all the LEDs, in order.
pub open spec fn pixels_bytes(colors: Seq<Rgb>) -> Seq<u8>
    decreases colors.len(),
{
    if colors.len() == 0 {
        Seq::empty()
    } else {
        pixels_bytes(colors.drop_last()) + pixel_bytes(colors.last())
    }
}

/// A whole frame: one idle zero byte, the LEDs' bytes, and the latch gap.
pub open spec fn frame(colors: Seq<Rgb>) -> Seq<u8> {
    seq![0u8] + pixels_bytes(colors) + Seq::new(LATCH_LEN as nat, |i: int| 0u8)
}

/// The two protocol bits that one SPI byte carries: each pattern's second bit
/// tells a long high from a short one.
pub open spec fn crumb_bits(byte: u8) -> u8 {
    ((byte >> 5u8) & 2u8) | ((byte >> 2u8) & 1u8)
}

/// The channel value that four SPI bytes carry.
pub open spec fn decode_channel(bytes: Seq<u8>) -> u8 {
    (crumb_bits(bytes[0]) << 6u8) | (crumb_bits(bytes[1]) << 4u8) | (crumb_bits(bytes[2]) << 2u8)
        | crumb_bits(bytes[3])
}

/// The `n` LED colors that a frame carries.
pub open spec fn decode_frame(bytes: Seq<u8>, n: nat) -> Seq<Rgb> {
    Seq::new(
        n,
        |i: int|
            Rgb {
                g: decode_channel(bytes.subrange(1 + 12 * i, 5 + 12 * i)),
                r: decode_channel(bytes.subrange(5 + 12 * i, 9 + 12 * i)),
                b: decode_channel(bytes.subrange(9 + 12 * i, 13 + 12 * i)),
            },
    )
}

fn pattern(set: bool) -> (r: u8)
    ensures
        r == bit_pattern(set),
{
    if set {
        0b1110u8
    } else {
        0b1000u8
    }
}

fn crumb(high: bool, low: bool) -> (r: u8)
    ensures
        r == crumb_byte(high, low),
{
    (pattern(high) << 4u8) | pattern(low)
}

fn push_channel(out: &mut Vec<u8>, value: u8)
    ensures
        final(out)@ == old(out)@ + channel_bytes(value),
{
    out.push(crumb((value >> 7u8) & 1u8 == 1u8, (value >> 6u8) & 1u8 == 1u8));
    out.push(crumb((value >> 5u8) & 1u8 == 1u8, (value >> 4u8) & 1u8 == 1u8));
    out.push(crumb((value >> 3u8) & 1u8 == 1u8, (value >> 2u8) & 1u8 == 1u8));
    out.push(crumb((value >> 1u8) & 1u8 == 1u8, (value >> 0u8) & 1u8 == 1u8));
    assert(final(out)@ =~= old(out)@ + channel_bytes(value));
}

/// Encodes the colors into the SPI bytes that make the LEDs show them.
pub fn encode(colors: &Vec<Rgb>) -> (r: Vec<u8>)
    ensures
        r@ == frame(colors@),
{
    let mut out: Vec<u8> = Vec::new();
    out.push(0u8);
    let mut i: usize = 0;
    while i < colors.len()
        invariant
            i <= colors.len(),
            out@ == seq![0u8] + pixels_bytes(colors@.take(i as int)),
        decreases colors.len() - i,
    {
        let c = colors[i];
        push_channel(&mut out, c.g);
        push_channel(&mut out, c.r);
        push_channel(&mut out, c.b);
        assert(colors@.take(i + 1).drop_last() =~= colors@.take(i as int));
        assert(out@ =~= seq![0u8] + pixels_bytes(colors@.take(i + 1)));
        i = i + 1;
    }
    assert(colors@.take(i as int) =~= colors@);
    let ghost data = out@;
    let mut k: usize = 0;
    while k < LATCH_LEN
        invariant
            k <= LATCH_LEN,
            out@ == data + Seq::new(k as nat, |j: int| 0u8),
        decreases LATCH_LEN - k,
    {
        out.push(0u8);
        k = k + 1;
        assert(out@ =~= data + Seq::new(k as nat, |j: int| 0u8));
    }
    out
}

proof fn lemma_channel_round_trip(value: u8)
    ensures
        decode_channel(channel_bytes(value)) == value,
{
    assert(crumb_bits(crumb_byte(bit_set(value, 7), bit_set(value, 6))) == (value >> 6u8) & 3u8)
        by (bit_vector);
    assert(crumb_bits(crumb_byte(bit_set(value, 5), bit_set(value, 4))) == (value >> 4u8) & 3u8)
        by (bit_vector);
    assert(crumb_bits(crumb_byte(bit_set(value, 3), bit_set(value, 2))) == (value >> 2u8) & 3u8)
        by (bit_vector);
    assert(crumb_bits(crumb_byte(bit_set(value, 1), bit_set(value, 0))) == value & 3u8)
        by (bit_vector);
    assert((((value >> 6u8) & 3u8) << 6u8) | (((value >> 4u8) & 3u8) << 4u8) | (((value >> 2u8)
        & 3u8) << 2u8) | (value & 3u8) == value) by (bit_vector);
}

proof fn lemma_pixels_layout(colors: Seq<Rgb>)
    ensures
        pixels_bytes(colors).len() == 12 * colors.len(),
        forall|i: int|
            0 <= i < colors.len() ==> #[trigger] pixels_bytes(colors).subrange(12 * i, 12 * i + 12)
                == pixel_bytes(colors[i]),
    decreases colors.len(),
{
    if colors.len() > 0 {
        let earlier = colors.drop_last();
        lemma_pixels_layout(earlier);
        let p = pixels_bytes(earlier);
        let q = pixel_bytes(colors.last());
        assert forall|i: int| 0 <= i < colors.len() implies #[trigger] pixels_bytes(colors).subrange(
            12 * i,
            12 * i + 12,
        ) == pixel_bytes(colors[i]) by {
            if i < colors.len() - 1 {
                assert(p.subrange(12 * i, 12 * i + 12) == pixel_bytes(earlier[i]));
                assert((p + q).subrange(12 * i, 12 * i + 12) =~= p.subrange(12 * i, 12 * i + 12));
            } else {
                assert((p + q).subrange(12 * i, 12 * i + 12) =~= q);
            }
        }
    }
}

/// The layout of an encoded frame of `n` LEDs: `1 + 12 * n + 20` bytes, the
/// first and the last twenty zero, and between them, for each LED in order,
/// four bytes each of its green, red and blue channels. The colors can be
/// read back from it.
pub proof fn lemma_frame_layout(colors: Seq<Rgb>)
    ensures
        frame(colors).len() == 1 + 12 * colors.len() + LATCH_LEN,
        frame(colors)[0] == 0,
        forall|j: int|
            1 + 12 * colors.len() <= j < frame(colors).len() ==> #[trigger] frame(colors)[j] == 0,
        forall|i: int|
            0 <= i < colors.len() ==> {
                &&& #[trigger] frame(colors).subrange(1 + 12 * i, 5 + 12 * i) == channel_bytes(
                    colors[i].g,
                )
                &&& frame(colors).subrange(5 + 12 * i, 9 + 12 * i) == channel_bytes(colors[i].r)
                &&& frame(colors).subrange(9 + 12 * i, 13 + 12 * i) == channel_bytes(colors[i].b)
            },
        decode_frame(frame(colors), colors.len()) == colors,
{
    lemma_pixels_layout(colors);
    let f = frame(colors);
    let data = pixels_bytes(colors);
    assert forall|i: int| 0 <= i < colors.len() implies {
        &&& #[trigger] f.subrange(1 + 12 * i, 5 + 12 * i) == channel_bytes(colors[i].g)
        &&& f.subrange(5 + 12 * i, 9 + 12 * i) == channel_bytes(colors[i].r)
        &&& f.subrange(9 + 12 * i, 13 + 12 * i) == channel_bytes(colors[i].b)
    } by {
        let px = data.subrange(12 * i, 12 * i + 12);
        assert(px == pixel_bytes(colors[i]));
        assert(f.subrange(1 + 12 * i, 5 + 12 * i) =~= px.subrange(0, 4));
        assert(f.subrange(5 + 12 * i, 9 + 12 * i) =~= px.subrange(4, 8));
        assert(f.subrange(9 + 12 * i, 13 + 12 * i) =~= px.subrange(8, 12));
        assert(px.subrange(0, 4) =~= channel_bytes(colors[i].g));
        assert(px.subrange(4, 8) =~= channel_bytes(colors[i].r));
        assert(px.subrange(8, 12) =~= channel_bytes(colors[i].b));
    }
    assert forall|i: int| 0 <= i < colors.len() implies #[trigger] decode_frame(f, colors.len())[i]
        == colors[i] by {
        lemma_channel_round_trip(colors[i].g);
        lemma_channel_round_trip(colors[i].r);
        lemma_channel_round_trip(colors[i].b);
    }
    assert(decode_frame(f, colors.len()) =~= colors);
}

/// One quarter of the ring, three LEDs that show one door's state.
#[derive(Clone, Copy, Debug, PartialEq, Eq, Structural)]
pub enum Quadrant {
    TopRight,
    BottomRight,
    BottomLeft,
    TopLeft,
}

impl Quadrant {
    /// The quadrant's place around the ring, from the top right clockwise.
    pub open spec fn index(self) -> int {
        match self {
            Quadrant::TopRight => 0,
            Quadrant::BottomRight => 1,
            Quadrant::BottomLeft => 2,
            Quadrant::TopLeft => 3,
        }
    }

    fn position(self) -> (r: usize)
        ensures
            r == self.index(),
    {
        match self {
            Quadrant::TopRight => 0,
            Quadrant::BottomRight => 1,
            Quadrant::BottomLeft => 2,
            Quadrant::TopLeft => 3,
        }
    }
}

/// The ring's LED colors built from the colors of its four quadrants: LED `i`
/// belongs to quadrant `i / 3`.
pub open spec fn ring_slots(quadrants: Seq<Rgb>) -> Seq<Rgb> {
    Seq::new(RING_LEN as nat, |i: int| quadrants[i / QUADRANT_LEN as int])
}

/// The color buffer of a ring of addressable LEDs, set a quadrant at a time.
#[derive(Debug)]
pub struct RgbRing {
    colors: Vec<Rgb>,
}

impl RgbRing {
    /// The three LEDs of each quadrant always share one color.
    #[verifier::type_invariant]
    spec fn uniform_quadrants(&self) -> bool {
        &&& self.colors@.len() == RING_LEN
        &&& self.colors@ == ring_slots(self.quadrants())
    }

    /// The colors of the four quadrants, from the top right clockwise.
    pub closed spec fn quadrants(&self) -> Seq<Rgb> {
        Seq::new(4, |q: int| self.colors@[QUADRANT_LEN * q])
    }

    /// A ring with every LED off.
    pub fn new() -> (r: RgbRing)
        ensures
            r.quadrants() == Seq::new(4, |q: int| Rgb { r: 0, g: 0, b: 0 }),
    {
        let mut quadrants: Vec<Rgb> = Vec::new();
        let mut q: usize = 0;
        while q < 4
            invariant
                q <= 4,
                quadrants@ == Seq::new(q as nat, |j: int| Rgb { r: 0, g: 0, b: 0 }),
            decreases 4 - q,
        {
            quadrants.push(Rgb { r: 0, g: 0, b: 0 });
            q = q + 1;
            assert(quadrants@ =~= Seq::new(q as nat, |j: int| Rgb { r: 0, g: 0, b: 0 }));
        }
        RgbRing::from_quadrants(&quadrants)
    }

    fn from_quadrants(quadrants: &Vec<Rgb>) -> (r: RgbRing)
        requires
            quadrants.len() == 4,
        ensures
            r.quadrants() == quadrants@,
    {
        let mut colors: Vec<Rgb> = Vec::new();
        let mut i: usize = 0;
        while i < RING_LEN
            invariant
                i <= RING_LEN,
                quadrants.len() == 4,
                colors@ == ring_slots(quadrants@).take(i as int),
            decreases RING_LEN - i,
        {
            colors.push(quadrants[i / QUADRANT_LEN]);
            i = i + 1;
            assert(colors@ =~= ring_slots(quadrants@).take(i as int));
        }
        assert(colors@ =~= ring_slots(quadrants@));
        assert(Seq::new(4, |q: int| colors@[QUADRANT_LEN * q]) =~= quadrants@);
        RgbRing { colors }
    }

    /// Shows `color` on the three LEDs of the quadrant.
    pub fn set_quadrant(&mut self, quadrant: Quadrant, color: Rgb)
        ensures
            final(self).quadrants() == old(self).quadrants().update(quadrant.index(), color),
    {
        proof {
            use_type_invariant(&*self);
        }
        let mut quadrants: Vec<Rgb> = Vec::new();
        let mut q: usize = 0;
        while q < 4
            invariant
                q <= 4,
                self.colors@.len() == RING_LEN,
                quadrants@ == self.quadrants().take(q as int),
            decreases 4 - q,
        {
            quadrants.push(self.colors[QUADRANT_LEN * q]);
            q = q + 1;
            assert(quadrants@ =~= self.quadrants().take(q as int));
        }
        assert(quadrants@ =~= self.quadrants());
        quadrants.set(quadrant.position(), color);
        *self = RgbRing::from_quadrants(&quadrants);
    }

    pub fn set_top_right(&mut self, color: Rgb)
        ensures
            final(self).quadrants() == old(self).quadrants().update(0, color),
    {
        self.set_quadrant(Quadrant::TopRight, color)
    }

    pub fn set_bottom_right(&mut self, color: Rgb)
        ensures
            final(self).quadrants() == old(self).quadrants().update(1, color),
    {
        self.set_quadrant(Quadrant::BottomRight, color)
    }

    pub fn set_bottom_left(&mut self, color: Rgb)
        ensures
            final(self).quadrants() == old(self).quadrants().update(2, color),
    {
        self.set_quadrant(Quadrant::BottomLeft, color)
    }

    pub fn set_top_left(&mut self, color: Rgb)
        ensures
            final(self).quadrants() == old(self).quadrants().update(3, color),
    {
        self.set_quadrant(Quadrant::TopLeft, color)
    }

    /// The full frame that shows the ring's current colors.
    pub fn render(&self) -> (r: Vec<u8>)
        ensures
            r@ == frame(ring_slots(self.quadrants())),
    {
        proof {
            use_type_invariant(self);
        }
        encode(&self.colors)
    }
}

/// Setting a quadrant and rendering gives the frame of the buffer built
/// directly: the quadrant's three LEDs in the new color, every other LED as
/// it was.
pub proof fn lemma_set_quadrant_then_render(quadrants: Seq<Rgb>, quadrant: Quadrant, color: Rgb)
    requires
        quadrants.len() == 4,
    ensures
        frame(ring_slots(quadrants.update(quadrant.index(), color))) == frame(
            Seq::new(
                RING_LEN as nat,
                |i: int|
                    if QUADRANT_LEN * quadrant.index() <= i < QUADRANT_LEN * quadrant.index()
                        + QUADRANT_LEN {
                        color
                    } else {
                        ring_slots(quadrants)[i]
                    },
            ),
        ),
{
    assert(ring_slots(quadrants.update(quadrant.index(), color)) =~= Seq::new(
        RING_LEN as nat,
        |i: int|
            if QUADRANT_LEN * quadrant.index() <= i < QUADRANT_LEN * quadrant.index()
                + QUADRANT_LEN {
                color
            } else {
                ring_slots(quadrants)[i]
            },
    ));
}

} // verus!
