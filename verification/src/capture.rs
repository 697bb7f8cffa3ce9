//! Capture settings and the decisions of the capture loop: the settings
//! window's keys, frame pacing and the choice of monitor.
use vstd::prelude::*;
use crate::text::{chars_of, push_decimal_chars, push_str_chars, spec_decimal, string_of};

verus! {

/// The capture settings as the user sets them: size and frame rate.
#[derive(Debug, Clone, Copy, PartialEq, Eq)]
pub struct CaptureSettings {
    pub width: u32,
    pub height: u32,
    pub fps: u32,
}

/// The settings at start: 1280 x 720 at 30 frames per second.
pub open spec fn spec_default_settings() -> CaptureSettings {
    CaptureSettings { width: 1280, height: 720, fps: 30 }
}

/// The size at which the screen is captured and encoded, and the frame rate,
/// shared so that it can be changed while the screen is streamed: the capture
/// loop reads it anew for every frame.
#[derive(Debug, Clone)]
pub struct CaptureConfig {
    pub width: u32,
    pub height: u32,
    pub fps: std::sync::Arc<std::sync::atomic::AtomicU32>,
}

impl CaptureConfig {
    /// A configuration with the given settings, its frame rate in a new shared
    /// counter that starts at `settings.fps`.
    pub fn from_settings(settings: CaptureSettings) -> (c: CaptureConfig)
        ensures
            c.width == settings.width,
            c.height == settings.height,
    {
        CaptureConfig {
            width: settings.width,
            height: settings.height,
            fps: std::sync::Arc::new(std::sync::atomic::AtomicU32::new(settings.fps)),
        }
    }
}

impl Default for CaptureConfig {
    /// 1280 x 720, with a new shared frame-rate counter that starts at 30.
    fn default() -> (c: CaptureConfig)
        ensures
            c.width == 1280,
            c.height == 720,
    {
        CaptureConfig::from_settings(CaptureSettings { width: 1280, height: 720, fps: 30 })
    }
}

/// The keys pressed in one pass of the settings window.
#[derive(Debug, Clone, Copy, PartialEq, Eq)]
pub struct SettingsKeys {
    pub up: bool,
    pub down: bool,
    pub right: bool,
    pub left: bool,
    pub plus: bool,
    pub minus: bool,
}

/// `x + d`, held at `u32::MAX`.
pub open spec fn spec_sat_add(x: u32, d: u32) -> u32 {
    if x + d > u32::MAX { u32::MAX } else { (x + d) as u32 }
}

/// `x - d`, held at 0.
pub open spec fn spec_sat_sub(x: u32, d: u32) -> u32 {
    if x < d { 0 } else { (x - d) as u32 }
}

/// The settings after one pass of the settings window: up and down change the
/// height by 10, right and left the width by 10, plus and minus the frame rate
/// by 1, each held within `u32`.
pub open spec fn spec_apply_keys(c: CaptureSettings, k: SettingsKeys) -> CaptureSettings {
    let h1 = if k.up { spec_sat_add(c.height, 10) } else { c.height };
    let h2 = if k.down { spec_sat_sub(h1, 10) } else { h1 };
    let w1 = if k.right { spec_sat_add(c.width, 10) } else { c.width };
    let w2 = if k.left { spec_sat_sub(w1, 10) } else { w1 };
    let f1 = if k.plus { spec_sat_add(c.fps, 1) } else { c.fps };
    let f2 = if k.minus { spec_sat_sub(f1, 1) } else { f1 };
    CaptureSettings { width: w2, height: h2, fps: f2 }
}

/// Applies the keys pressed in one pass of the settings window.
pub fn apply_settings_keys(c: CaptureSettings, k: SettingsKeys) -> (r: CaptureSettings)
    ensures
        r == spec_apply_keys(c, k),
{
    let mut height = c.height;
    let mut width = c.width;
    let mut fps = c.fps;
    if k.up {
        height = height.saturating_add(10);
    }
    if k.down {
        height = height.saturating_sub(10);
    }
    if k.right {
        width = width.saturating_add(10);
    }
    if k.left {
        width = width.saturating_sub(10);
    }
    if k.plus {
        fps = fps.saturating_add(1);
    }
    if k.minus {
        fps = fps.saturating_sub(1);
    }
    CaptureSettings { width, height, fps }
}

/// How one pass of the settings window acts on each setting: Up and Down
/// change only the height, Right and Left only the width, plus and minus only
/// the frame rate; a step is 10 pixels or 1 frame per second, and a value is
/// held between 0 and `u32::MAX` after each step, the raise coming first.
pub proof fn lemma_settings_keys(c: CaptureSettings, k: SettingsKeys)
    ensures
        ({
            let r = spec_apply_keys(c, k);
            let (w, h, f) = (c.width as int, c.height as int, c.fps as int);
            &&& (!k.up && !k.down) ==> r.height == h
            &&& (k.up && !k.down) ==> r.height == (if h + 10 > 0xffff_ffff { 0xffff_ffff } else { h + 10 })
            &&& (!k.up && k.down) ==> r.height == (if h < 10 { 0 } else { h - 10 })
            &&& (k.up && k.down) ==> r.height == (if h + 10 > 0xffff_ffff { 0xffff_ffff - 10 } else { h })
            &&& (!k.right && !k.left) ==> r.width == w
            &&& (k.right && !k.left) ==> r.width == (if w + 10 > 0xffff_ffff { 0xffff_ffff } else { w + 10 })
            &&& (!k.right && k.left) ==> r.width == (if w < 10 { 0 } else { w - 10 })
            &&& (k.right && k.left) ==> r.width == (if w + 10 > 0xffff_ffff { 0xffff_ffff - 10 } else { w })
            &&& (!k.plus && !k.minus) ==> r.fps == f
            &&& (k.plus && !k.minus) ==> r.fps == (if f + 1 > 0xffff_ffff { 0xffff_ffff } else { f + 1 })
            &&& (!k.plus && k.minus) ==> r.fps == (if f < 1 { 0 } else { f - 1 })
            &&& (k.plus && k.minus) ==> r.fps == (if f + 1 > 0xffff_ffff { 0xffff_ffff - 1 } else { f })
        }),
{
}

/// Escape gives 1280 x 720 at 30 frames per second; Enter keeps the settings shown.
pub proof fn lemma_finish_settings(c: CaptureSettings)
    ensures
        spec_finish_settings(true, c).width == 1280,
        spec_finish_settings(true, c).height == 720,
        spec_finish_settings(true, c).fps == 30,
        spec_finish_settings(false, c) == c,
{
}

/// The settings window's title for the given settings.
pub open spec fn spec_settings_title(c: CaptureSettings) -> Seq<char> {
    "2ndScreen - "@ + spec_decimal(c.width as nat) + "x"@ + spec_decimal(c.height as nat) + " @ "@
        + spec_decimal(c.fps as nat) + "fps (Enter=OK Esc=Anuluj)"@
}

/// The settings window's title, which shows the current settings.
pub fn settings_title(c: CaptureSettings) -> (t: String)
    ensures
        t@ == spec_settings_title(c),
{
    let mut v = chars_of("2ndScreen - ");
    push_decimal_chars(&mut v, c.width as u64);
    push_str_chars(&mut v, "x");
    push_decimal_chars(&mut v, c.height as u64);
    push_str_chars(&mut v, " @ ");
    push_decimal_chars(&mut v, c.fps as u64);
    push_str_chars(&mut v, "fps (Enter=OK Esc=Anuluj)");
    string_of(v.as_slice())
}

/// The settings window's width and height in pixels.
pub const SETTINGS_WINDOW_WIDTH: usize = 480;
pub const SETTINGS_WINDOW_HEIGHT: usize = 200;

/// The colour of one pixel of the settings window's background.
pub open spec fn spec_gradient_pixel(x: int, y: int, fps: u32) -> u32 {
    let v = ((x + y) % 256) * (fps % 255);
    (0xFF00_0000 + v % 0x100_0000) as u32
}

/// The settings window's background: a gradient that depends on the frame
/// rate, row by row.
pub fn settings_background(fps: u32) -> (buf: Vec<u32>)
    ensures
        buf@.len() == SETTINGS_WINDOW_WIDTH * SETTINGS_WINDOW_HEIGHT,
        forall|y: int, x: int| 0 <= y < 200 && 0 <= x < 480 ==>
            #[trigger] buf@[y * 480 + x] == spec_gradient_pixel(x, y, fps),
{
    let mut buf: Vec<u32> = Vec::new();
    let f: u32 = fps % 255;
    for y in 0..200usize
        invariant
            f == fps % 255,
            buf@.len() == y * 480,
            forall|yy: int, x: int| 0 <= yy < y && 0 <= x < 480 ==>
                #[trigger] buf@[yy * 480 + x] == spec_gradient_pixel(x, yy, fps),
    {
        for x in 0..480usize
            invariant
                f == fps % 255,
                y < 200,
                buf@.len() == y * 480 + x,
                forall|yy: int, xx: int| 0 <= yy < y && 0 <= xx < 480 ==>
                    #[trigger] buf@[yy * 480 + xx] == spec_gradient_pixel(xx, yy, fps),
                forall|xx: int| 0 <= xx < x ==>
                    #[trigger] buf@[y * 480 + xx] == spec_gradient_pixel(xx, y as int, fps),
        {
            let s: u32 = ((x + y) % 256) as u32;
            assert(s * f <= 255 * 254) by (nonlinear_arith)
                requires
                    s < 256,
                    f < 255,
            ;
            let v: u32 = s * f;
            let p: u32 = 0xFF00_0000 | (v & 0x00FF_FFFF);
            assert(p == 0xFF00_0000 + v % 0x100_0000) by (bit_vector)
                requires
                    p == 0xFF00_0000 | (v & 0x00FF_FFFF),
                    v <= 255 * 254,
            ;
            let ghost old_buf = buf@;
            buf.push(p);
            assert forall|yy: int, xx: int| 0 <= yy < y && 0 <= xx < 480 implies
                #[trigger] buf@[yy * 480 + xx] == spec_gradient_pixel(xx, yy, fps) by {
                assert(yy * 480 + xx < y * 480) by (nonlinear_arith)
                    requires
                        yy < y,
                        xx < 480,
                ;
                assert(buf@[yy * 480 + xx] == old_buf[yy * 480 + xx]);
            }
        }
        assert forall|yy: int, x: int| 0 <= yy < y + 1 && 0 <= x < 480 implies
            #[trigger] buf@[yy * 480 + x] == spec_gradient_pixel(x, yy, fps) by {
            if yy == y {
            }
        }
    }
    buf
}

/// The settings chosen in the settings window: the defaults where it was left
/// with Escape, else the settings shown.
pub open spec fn spec_finish_settings(escaped: bool, c: CaptureSettings) -> CaptureSettings {
    if escaped { spec_default_settings() } else { c }
}

/// The configuration chosen in the settings window: the defaults where it was
/// left with Escape, else the settings shown, the frame rate in a new shared
/// counter.
pub fn finish_settings(escaped: bool, c: CaptureSettings) -> (r: CaptureConfig)
    ensures
        r.width == spec_finish_settings(escaped, c).width,
        r.height == spec_finish_settings(escaped, c).height,
{
    if escaped {
        CaptureConfig::default()
    } else {
        CaptureConfig::from_settings(c)
    }
}

/// The time between frames, in milliseconds: a second over the frame rate,
/// with a frame rate of 0 taken as 1.
pub fn frame_delay_ms(fps: u32) -> (ms: u64)
    ensures
        ms == 1000int / (if fps == 0 { 1int } else { fps as int }),
{
    let f: u32 = if fps > 1 { fps } else { 1 };
    1000 / (f as u64)
}

/// How long to sleep after a frame, in nanoseconds: what is left of the frame
/// delay after the time the frame took, or nothing where it took longer.
pub fn remaining_sleep_ns(delay_ms: u64, elapsed_ns: u128) -> (ns: u128)
    ensures
        ns == if elapsed_ns < delay_ms * 1_000_000 { delay_ms * 1_000_000 - elapsed_ns } else { 0 },
{
    let delay_ns: u128 = (delay_ms as u128) * 1_000_000;
    if elapsed_ns < delay_ns {
        delay_ns - elapsed_ns
    } else {
        0
    }
}

/// Whether `i` is the index of the first primary monitor, or 0 where none is primary.
pub open spec fn spec_first_primary_or_first(primary: Seq<bool>, i: int) -> bool {
    if exists|j: int| 0 <= j < primary.len() && primary[j] {
        primary[i] && forall|j: int| 0 <= j < i ==> !primary[j]
    } else {
        i == 0
    }
}

/// The monitor chosen for capture.
#[derive(Debug, Clone, Copy, PartialEq, Eq)]
pub struct MonitorChoice {
    /// Its index in the monitor list.
    pub index: usize,
    /// Whether it is a primary monitor; where it is not, no monitor was primary
    /// and the user is told that the first one is taken.
    pub primary: bool,
}

/// The monitor to capture, given which monitors are primary: the first primary
/// one, else the first one; `None` where there is no monitor.
pub fn choose_monitor(primary: &Vec<bool>) -> (r: Option<MonitorChoice>)
    ensures
        primary@.len() == 0 ==> r is None,
        primary@.len() > 0 ==> (r matches Some(c) && c.index < primary@.len()
            && spec_first_primary_or_first(primary@, c.index as int)
            && c.primary == primary@[c.index as int]
            && (c.primary <==> exists|j: int| 0 <= j < primary@.len() && primary@[j])),
{
    let n = primary.len();
    if n == 0 {
        return None;
    }
    for i in 0..n
        invariant
            n == primary@.len(),
            forall|j: int| 0 <= j < i ==> !primary@[j],
    {
        if primary[i] {
            return Some(MonitorChoice { index: i, primary: true });
        }
    }
    Some(MonitorChoice { index: 0, primary: primary[0] })
}

} // verus!
