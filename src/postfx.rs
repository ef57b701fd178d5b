use vstd::prelude::*;
use crate::screen_buffer::channel;

verus! {

/// The retained weight of the previous frame, out of 256, that emulates
/// phosphor afterglow by default.
pub const DEFAULT_BLEED_NUM: u16 = 196;

/// An opaque color from three channels in `0..=255`.
pub open spec fn pack_rgb(r: int, g: int, b: int) -> u32 {
    0xff00_0000u32 | ((r as u32) << 16u32) | ((g as u32) << 8u32) | (b as u32)
}

/// The weight of the previous frame: `bleed` clamped to 256.
pub open spec fn previous_weight(bleed: u16) -> int {
    if bleed <= 256 {
        bleed as int
    } else {
        256
    }
}

/// The weight of the new frame.
pub open spec fn current_weight(bleed: u16) -> int {
    256 - previous_weight(bleed)
}

/// One blended channel, truncated.
pub open spec fn blend_channel(current: int, previous: int, current_w: int, previous_w: int) -> int {
    (current * current_w + previous * previous_w) / 256
}

/// The blend of two colors, channel by channel, made opaque.
pub open spec fn blend_pixel(current: u32, previous: u32, current_w: int, previous_w: int) -> u32 {
    pack_rgb(
        blend_channel(channel(current, 16), channel(previous, 16), current_w, previous_w),
        blend_channel(channel(current, 8), channel(previous, 8), current_w, previous_w),
        blend_channel(channel(current, 0), channel(previous, 0), current_w, previous_w),
    )
}

proof fn lemma_channel_range(c: u32, shift: u32)
    ensures
        0 <= channel(c, shift) <= 255,
{
    assert((c >> shift) & 0xff <= 0xff) by (bit_vector);
}

/// Unpacking a packed color gives its channels back.
pub proof fn lemma_pack_channels(r: int, g: int, b: int)
    requires
        0 <= r <= 255,
        0 <= g <= 255,
        0 <= b <= 255,
    ensures
        channel(pack_rgb(r, g, b), 16) == r,
        channel(pack_rgb(r, g, b), 8) == g,
        channel(pack_rgb(r, g, b), 0) == b,
{
    let (r8, g8, b8) = (r as u32, g as u32, b as u32);
    assert(((0xff00_0000u32 | (r8 << 16u32) | (g8 << 8u32) | b8) >> 16u32) & 0xff == r8
        && ((0xff00_0000u32 | (r8 << 16u32) | (g8 << 8u32) | b8) >> 8u32) & 0xff == g8 && ((
    0xff00_0000u32 | (r8 << 16u32) | (g8 << 8u32) | b8) >> 0u32) & 0xff == b8) by (bit_vector)
        requires
            r8 <= 255,
            g8 <= 255,
            b8 <= 255,
    ;
}

/// A blended channel stays in `0..=255` when the weights sum to 256.
proof fn lemma_blend_channel_range(current: int, previous: int, current_w: int, previous_w: int)
    requires
        0 <= current <= 255,
        0 <= previous <= 255,
        0 <= current_w,
        0 <= previous_w,
        current_w + previous_w == 256,
    ensures
        0 <= current * current_w + previous * previous_w <= 255 * 256,
        0 <= blend_channel(current, previous, current_w, previous_w) <= 255,
{
    assert(0 <= current * current_w + previous * previous_w <= 255 * 256) by (nonlinear_arith)
        requires
            0 <= current <= 255,
            0 <= previous <= 255,
            0 <= current_w,
            0 <= previous_w,
            current_w + previous_w == 256,
    ;
}

/// The two weights always sum to 256; a bleed above 256 keeps only the
/// previous frame.
pub proof fn lemma_weights_split(bleed: u16)
    ensures
        current_weight(bleed) + previous_weight(bleed) == 256,
        0 <= current_weight(bleed) <= 256,
        bleed <= 256 ==> previous_weight(bleed) == bleed,
        bleed > 256 ==> previous_weight(bleed) == 256 && current_weight(bleed) == 0,
{
}

/// Each channel of a blended color is the truncated weighted average of the
/// two input channels.
pub proof fn lemma_blend_pixel_channels(current: u32, previous: u32, bleed: u16)
    ensures
        forall|shift: u32|
            shift == 0 || shift == 8 || shift == 16 ==> #[trigger] channel(
                blend_pixel(current, previous, current_weight(bleed), previous_weight(bleed)),
                shift,
            ) == (channel(current, shift) * current_weight(bleed) + channel(previous, shift)
                * previous_weight(bleed)) / 256,
{
    let (cw, pw) = (current_weight(bleed), previous_weight(bleed));
    lemma_channel_range(current, 16);
    lemma_channel_range(current, 8);
    lemma_channel_range(current, 0);
    lemma_channel_range(previous, 16);
    lemma_channel_range(previous, 8);
    lemma_channel_range(previous, 0);
    lemma_blend_channel_range(channel(current, 16), channel(previous, 16), cw, pw);
    lemma_blend_channel_range(channel(current, 8), channel(previous, 8), cw, pw);
    lemma_blend_channel_range(channel(current, 0), channel(previous, 0), cw, pw);
    lemma_pack_channels(
        blend_channel(channel(current, 16), channel(previous, 16), cw, pw),
        blend_channel(channel(current, 8), channel(previous, 8), cw, pw),
        blend_channel(channel(current, 0), channel(previous, 0), cw, pw),
    );
}

/// Blending a color with itself keeps every channel, whatever the weights.
pub proof fn lemma_blend_steady_state(c: u32, bleed: u16)
    ensures
        forall|shift: u32|
            shift == 0 || shift == 8 || shift == 16 ==> #[trigger] channel(
                blend_pixel(c, c, current_weight(bleed), previous_weight(bleed)),
                shift,
            ) == channel(c, shift),
{
    lemma_blend_pixel_channels(c, c, bleed);
    let (cw, pw) = (current_weight(bleed), previous_weight(bleed));
    assert forall|shift: u32| shift == 0 || shift == 8 || shift == 16 implies #[trigger] channel(
        blend_pixel(c, c, cw, pw),
        shift,
    ) == channel(c, shift) by {
        let v = channel(c, shift);
        assert((v * cw + v * pw) / 256 == v) by (nonlinear_arith)
            requires
                cw + pw == 256,
        ;
    }
}

/// Phosphor persistence: blends each new frame into the displayed one.
#[derive(Debug, Clone, Copy)]
pub struct PersistenceBlend {
    bleed_num: u16,
}

impl View for PersistenceBlend {
    type V = u16;

    closed spec fn view(&self) -> u16 {
        self.bleed_num
    }
}

impl Default for PersistenceBlend {
    fn default() -> (r: Self)
        ensures
            r@ == DEFAULT_BLEED_NUM,
    {
        PersistenceBlend { bleed_num: DEFAULT_BLEED_NUM }
    }
}

impl PersistenceBlend {
    /// A blend that keeps `bleed_num`/256 of the displayed frame (at most all of it).
    pub fn new(bleed_num: u16) -> (r: Self)
        ensures
            r@ == bleed_num,
    {
        PersistenceBlend { bleed_num }
    }

    pub fn bleed_num(&self) -> (r: u16)
        ensures
            r == self@,
    {
        self.bleed_num
    }

    pub fn previous_weight_num(&self) -> (r: u16)
        ensures
            r == previous_weight(self@),
    {
        if self.bleed_num < 256 {
            self.bleed_num
        } else {
            256
        }
    }

    pub fn current_weight_num(&self) -> (r: u16)
        ensures
            r == current_weight(self@),
            r + previous_weight(self@) == 256,
    {
        256u16.saturating_sub(self.previous_weight_num())
    }

    /// Blends `src` into `dst`, pixel by pixel:
    /// `dst[i] = (src[i] * current + dst[i] * previous) / 256` on each channel.
    pub fn apply(&self, src: &[u32], dst: &mut [u32])
        requires
            src@.len() == old(dst)@.len(),
        ensures
            final(dst)@ == Seq::new(
                src@.len(),
                |i: int|
                    blend_pixel(
                        src@[i],
                        old(dst)@[i],
                        current_weight(self@),
                        previous_weight(self@),
                    ),
            ),
    {
        let prev_w = self.previous_weight_num();
        let cur_w = self.current_weight_num();
        let n = src.len();
        let mut i: usize = 0;
        while i < n
            invariant
                n == src@.len(),
                dst@.len() == n,
                i <= n,
                prev_w == previous_weight(self@),
                cur_w == current_weight(self@),
                forall|k: int|
                    0 <= k < i ==> dst@[k] == blend_pixel(
                        src@[k],
                        old(dst)@[k],
                        cur_w as int,
                        prev_w as int,
                    ),
                forall|k: int| i <= k < n ==> dst@[k] == old(dst)@[k],
            decreases n - i,
        {
            let v = blend_rgb(src[i], dst[i], cur_w, prev_w);
            dst[i] = v;
            i = i + 1;
        }
        assert(dst@ =~= Seq::new(
            src@.len(),
            |k: int| blend_pixel(src@[k], old(dst)@[k], current_weight(self@), previous_weight(self@)),
        ));
    }
}

fn blend_rgb(current: u32, previous: u32, current_w: u16, previous_w: u16) -> (r: u32)
    requires
        current_w + previous_w == 256,
    ensures
        r == blend_pixel(current, previous, current_w as int, previous_w as int),
{
    proof {
        lemma_channel_range(current, 16);
        lemma_channel_range(current, 8);
        lemma_channel_range(current, 0);
        lemma_channel_range(previous, 16);
        lemma_channel_range(previous, 8);
        lemma_channel_range(previous, 0);
    }
    let cr = ((current >> 16) & 0xff) as u16;
    let cg = ((current >> 8) & 0xff) as u16;
    let cb = (current & 0xff) as u16;
    let pr = ((previous >> 16) & 0xff) as u16;
    let pg = ((previous >> 8) & 0xff) as u16;
    let pb = (previous & 0xff) as u16;
    assert(current & 0xff == (current >> 0u32) & 0xff && previous & 0xff == (previous >> 0u32) & 0xff)
        by (bit_vector);
    proof {
        lemma_blend_channel_range(cr as int, pr as int, current_w as int, previous_w as int);
        lemma_blend_channel_range(cg as int, pg as int, current_w as int, previous_w as int);
        lemma_blend_channel_range(cb as int, pb as int, current_w as int, previous_w as int);
    }
    let r = ((cr * current_w + pr * previous_w) / 256) as u32;
    let g = ((cg * current_w + pg * previous_w) / 256) as u32;
    let bl = ((cb * current_w + pb * previous_w) / 256) as u32;
    0xff00_0000 | (r << 16) | (g << 8) | bl
}

} // verus!
