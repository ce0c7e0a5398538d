//! Screen-capture ambilight: the average colour of a captured frame, the
//! names shown for monitors, and the run flag shared with the capture loop.
//! (Capturing the screen and running the loop is done by the application.)

use std::sync::atomic::{AtomicBool, Ordering};
use std::sync::Arc;
use vstd::prelude::*;

use crate::text::{chars_of, decimal, decimal_spec};

verus! {

/// A monitor that can be sampled.
pub struct MonitorInfo {
    pub index: usize,
    pub name: String,
    pub width: u32,
    pub height: u32,
    pub primary: bool,
}

/// The name shown for monitor `index`: its system name, unless that is
/// empty or a Windows device path (`\\.\DISPLAY1`), in which case
/// `Display <index + 1>`.
pub open spec fn display_name_spec(raw: Seq<char>, index: nat) -> Seq<char> {
    if raw.len() == 0 || (raw.len() >= 2 && raw[0] == '\\' && raw[1] == '\\') {
        seq!['D', 'i', 's', 'p', 'l', 'a', 'y', ' '] + decimal_spec(index + 1)
    } else {
        raw
    }
}

/// The name shown for monitor `index` (see `display_name_spec`).
pub fn monitor_display_name(raw: &str, index: usize) -> (r: String)
    requires
        index < usize::MAX,
    ensures
        r@ == display_name_spec(raw@, index as nat),
{
    let cs = chars_of(raw);
    if cs.len() == 0 || (cs.len() >= 2 && cs[0] == '\\' && cs[1] == '\\') {
        let prefix = vec![68u8, 105, 115, 112, 108, 97, 121, 32];
        let mut name = crate::text::ascii_string(prefix);
        let d = decimal((index + 1) as u64);
        name.append(d.as_str());
        assert(name@ =~= display_name_spec(raw@, index as nat));
        name
    } else {
        String::from_str(raw)
    }
}

/// A pixel is counted when its red, green and blue add up to more than 30,
/// so black bars do not wash the colour out.
pub open spec fn bright_at(buf: Seq<u8>, i: int) -> bool {
    buf[4 * i] + buf[4 * i + 1] + buf[4 * i + 2] > 30
}

/// Sum of channel `c` over the counted pixels sampled from pixel `i` on, every `step`.
pub open spec fn channel_sum(buf: Seq<u8>, step: int, c: int, i: int) -> int
    decreases buf.len() / 4 + step - i,
{
    if step < 1 || i < 0 || i >= buf.len() / 4 {
        0
    } else {
        (if bright_at(buf, i) {
            buf[4 * i + c] as int
        } else {
            0
        }) + channel_sum(buf, step, c, i + step)
    }
}

/// Number of counted pixels sampled from pixel `i` on, every `step`.
pub open spec fn bright_count(buf: Seq<u8>, step: int, i: int) -> int
    decreases buf.len() / 4 + step - i,
{
    if step < 1 || i < 0 || i >= buf.len() / 4 {
        0
    } else {
        (if bright_at(buf, i) {
            1int
        } else {
            0
        }) + bright_count(buf, step, i + step)
    }
}

/// The sampling stride: about 20,000 samples per frame whatever its size.
pub open spec fn sample_step(width: u32, height: u32) -> int {
    let total = (width as int) * (height as int);
    let q = if total / 20000 < 1 {
        1
    } else {
        total / 20000
    };
    let s = q as u64 as usize;
    if s < 1 {
        1
    } else {
        s as int
    }
}

/// The average colour of an RGBA frame: red, green and blue averaged over
/// the sampled pixels that are not near-black; black when the frame is empty
/// or every sample is near-black.
pub open spec fn average_color_spec(width: u32, height: u32, buf: Seq<u8>) -> (u8, u8, u8) {
    let step = sample_step(width, height);
    let n = bright_count(buf, step, 0);
    if width == 0 || height == 0 || n == 0 {
        (0, 0, 0)
    } else {
        (
            (channel_sum(buf, step, 0, 0) / n) as u8,
            (channel_sum(buf, step, 1, 0) / n) as u8,
            (channel_sum(buf, step, 2, 0) / n) as u8,
        )
    }
}

/// The average colour of a `width`x`height` RGBA8 frame (see `average_color_spec`).
pub fn average_color(width: u32, height: u32, buf: &[u8]) -> (r: (u8, u8, u8))
    requires
        buf@.len() / 4 * 255 <= u64::MAX,
    ensures
        r == average_color_spec(width, height, buf@),
{
    if width == 0 || height == 0 {
        return (0, 0, 0);
    }
    assert((width as u64) * (height as u64) <= u64::MAX) by (nonlinear_arith);
    let total: u64 = (width as u64) * (height as u64);
    let q: u64 = if total / 20000 < 1 {
        1
    } else {
        total / 20000
    };
    let s0: usize = q as usize;
    let step: usize = if s0 < 1 {
        1
    } else {
        s0
    };
    assert(step as int == sample_step(width, height));
    let len = buf.len();
    let px_count = len / 4;
    let mut sr: u64 = 0;
    let mut sg: u64 = 0;
    let mut sb: u64 = 0;
    let mut n: u64 = 0;
    let mut i: usize = 0;
    while i < px_count
        invariant
            len == buf@.len(),
            px_count == len / 4,
            px_count * 255 <= u64::MAX,
            step >= 1,
            step as int == sample_step(width, height),
            i == 0 || step <= i,
            sr <= 255 * n,
            sg <= 255 * n,
            sb <= 255 * n,
            n <= i,
            sr + channel_sum(buf@, step as int, 0, i as int) == channel_sum(buf@, step as int, 0, 0),
            sg + channel_sum(buf@, step as int, 1, i as int) == channel_sum(buf@, step as int, 1, 0),
            sb + channel_sum(buf@, step as int, 2, i as int) == channel_sum(buf@, step as int, 2, 0),
            n + bright_count(buf@, step as int, i as int) == bright_count(buf@, step as int, 0),
        decreases px_count + step - i,
    {
        let o = i * 4;
        let r = buf[o] as u64;
        let g = buf[o + 1] as u64;
        let b = buf[o + 2] as u64;
        if r + g + b > 30 {
            sr = sr + r;
            sg = sg + g;
            sb = sb + b;
            n = n + 1;
        }
        i = i + step;
    }
    if n == 0 {
        return (0, 0, 0);
    }
    ((sr / n) as u8, (sg / n) as u8, (sb / n) as u8)
}

/// The run flag shared by the ambilight controls and the capture loop.
pub struct Ambilight {
    running: Arc<AtomicBool>,
}

impl Ambilight {
    /// The shared flag this handle reads and writes.
    pub closed spec fn shared_flag(&self) -> Arc<AtomicBool> {
        self.running
    }

    /// Not running.
    pub fn new() -> (r: Ambilight) {
        Ambilight { running: Arc::new(AtomicBool::new(false)) }
    }

    /// Whether the capture loop is (meant to be) running. Another thread may
    /// change the flag at any time, so nothing is promised of the answer.
    pub fn is_running(&self) -> (r: bool) {
        self.running.load(Ordering::Relaxed)
    }

    /// Ask the capture loop to stop.
    pub fn stop(&self) {
        self.running.store(false, Ordering::Relaxed);
    }

    /// Mark the capture loop as running.
    pub fn mark_running(&self) {
        self.running.store(true, Ordering::Relaxed);
    }

    /// The shared flag, for the capture loop to watch.
    pub fn flag(&self) -> (r: Arc<AtomicBool>)
        ensures
            r == self.shared_flag(),
    {
        self.running.clone()
    }
}


/// When every counted pixel has value `v` in channel `c`, the channel sum
/// over the samples is `v` times the number of counted samples.
proof fn lemma_uniform_channel(buf: Seq<u8>, step: int, c: int, v: int, i: int)
    requires
        step >= 1,
        0 <= c < 3,
        forall|j: int| 0 <= j < buf.len() / 4 && #[trigger] bright_at(buf, j) ==> buf[4 * j + c] == v,
    ensures
        channel_sum(buf, step, c, i) == v * bright_count(buf, step, i),
    decreases buf.len() / 4 + step - i,
{
    if i >= 0 && i < buf.len() / 4 {
        lemma_uniform_channel(buf, step, c, v, i + step);
        if bright_at(buf, i) {
            assert(buf[4 * i + c] == v);
        }
        assert(v * bright_count(buf, step, i) == (if bright_at(buf, i) { v } else { 0 }) + v * bright_count(
            buf,
            step,
            i + step,
        )) by (nonlinear_arith)
            requires
                bright_count(buf, step, i) == (if bright_at(buf, i) { 1int } else { 0 }) + bright_count(
                    buf,
                    step,
                    i + step,
                ),
        ;
    }
}

/// With a stride of one, a counted pixel at or after `i` is counted.
proof fn lemma_counted_pixel(buf: Seq<u8>, i: int, k: int)
    requires
        0 <= i <= k < buf.len() / 4,
        bright_at(buf, k),
    ensures
        bright_count(buf, 1, i) >= 1,
    decreases k - i,
{
    if i < k {
        lemma_counted_pixel(buf, i + 1, k);
        assert(bright_count(buf, 1, i + 1) >= 0) by {
            lemma_count_nonneg(buf, 1, i + 1);
        }
    }
    lemma_count_nonneg(buf, 1, i + 1);
}

proof fn lemma_count_nonneg(buf: Seq<u8>, step: int, i: int)
    requires
        step >= 1,
    ensures
        bright_count(buf, step, i) >= 0,
    decreases buf.len() / 4 + step - i,
{
    if i >= 0 && i < buf.len() / 4 {
        lemma_count_nonneg(buf, step, i + step);
    }
}

/// The sampling stride spreads about 20,000 samples over the whole frame:
/// it is 1 for frames of fewer than 40,000 pixels, and otherwise the largest
/// stride that still leaves at least 20,000 samples.
pub proof fn law_sampling_stride(width: u32, height: u32)
    requires
        ((width as int) * (height as int)) / 20000 <= usize::MAX,
    ensures
        ({
            let t = (width as int) * (height as int);
            let s = sample_step(width, height);
            &&& s >= 1
            &&& t < 40000 ==> s == 1
            &&& t >= 20000 ==> s * 20000 <= t < (s + 1) * 20000
        }),
{
    let t = (width as int) * (height as int);
    assert(0 <= t) by (nonlinear_arith)
        requires
            t == (width as int) * (height as int),
    ;
    assert(t <= u64::MAX) by (nonlinear_arith)
        requires
            t == (width as int) * (height as int),
            width <= u32::MAX,
            height <= u32::MAX,
    ;
}

/// A frame of fewer than 40,000 pixels is sampled in full: when every pixel
/// that is not near-black has one colour, the frame averages to exactly that
/// colour, wherever the near-black pixels are.
pub proof fn law_small_frame_averages_every_pixel(width: u32, height: u32, buf: Seq<u8>, k: int)
    requires
        width > 0,
        height > 0,
        (width as int) * (height as int) < 40000,
        0 <= k < buf.len() / 4,
        bright_at(buf, k),
        forall|j: int|
            0 <= j < buf.len() / 4 && #[trigger] bright_at(buf, j) ==> buf[4 * j] == buf[4 * k] && buf[4 * j
                + 1] == buf[4 * k + 1] && buf[4 * j + 2] == buf[4 * k + 2],
    ensures
        average_color_spec(width, height, buf) == (buf[4 * k], buf[4 * k + 1], buf[4 * k + 2]),
{
    law_sampling_stride(width, height);
    let n = bright_count(buf, 1, 0);
    lemma_counted_pixel(buf, 0, k);
    lemma_uniform_channel(buf, 1, 0, buf[4 * k] as int, 0);
    lemma_uniform_channel(buf, 1, 1, buf[4 * k + 1] as int, 0);
    lemma_uniform_channel(buf, 1, 2, buf[4 * k + 2] as int, 0);
    assert forall|v: int| 0 <= v < 256 implies #[trigger] ((v * n) / n) == v by {
        assert((v * n) / n == v) by (nonlinear_arith)
            requires
                n >= 1,
        ;
    }
    assert((buf[4 * k] as int * n) / n == buf[4 * k] as int);
    assert((buf[4 * k + 1] as int * n) / n == buf[4 * k + 1] as int);
    assert((buf[4 * k + 2] as int * n) / n == buf[4 * k + 2] as int);
}

} // verus!
