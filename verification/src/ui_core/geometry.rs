//! Shared platform cells read while rendering: safe-area insets, keyboard
//! inset and media-query data.
//!
//! Each cell is an `Arc` of atomics, so every clone reads and writes the same
//! memory: one `set` is visible to all holders. The cells store logical-pixel
//! values as IEEE-754 `f32` bit patterns (`f32::to_bits`); callers convert at
//! the edge with `f32::from_bits`.
//!
//! What a read returns depends on the writes made through any clone, possibly
//! from another thread, so no read result is pinned down here.

use std::sync::atomic::{AtomicBool, AtomicU32, AtomicU64, Ordering};
use std::sync::Arc;
use vstd::prelude::*;

verus! {

/// Marker type for logical (DPI-independent) coordinates.
#[derive(Clone, Copy, Debug, Default, PartialEq, Eq, Structural)]
pub struct Logical;

/// Marker type for physical (screen pixel) coordinates.
#[derive(Clone, Copy, Debug, Default, PartialEq, Eq, Structural)]
pub struct Physical;

/// Marker type for absolute coordinates (relative to the window origin).
#[derive(Clone, Copy, Debug, Default, PartialEq, Eq, Structural)]
pub struct Absolute;

/// Marker type for relative coordinates (relative to the parent container).
#[derive(Clone, Copy, Debug, Default, PartialEq, Eq, Structural)]
pub struct Relative;

/// `Arc::clone`: another pointer to the same allocation, so the same
/// contents.
#[verifier::external_body]
fn share_cell<T>(cell: &Arc<T>) -> (res: Arc<T>)
    ensures
        res == *cell,
{
    Arc::clone(cell)
}

/// Bit pattern of the `f64` value `1.0`.
pub const ONE_F64_BITS: u64 = 0x3ff0_0000_0000_0000u64;

/// Shared handle to the DPI scale factor (an `f64` bit pattern).
///
/// One `set()` call updates the value for every holder of a clone.
pub struct ScaleSource {
    inner: Arc<AtomicU64>,
}

impl Clone for ScaleSource {
    /// Another handle on the same cell.
    fn clone(&self) -> (res: Self)
        ensures
            res == *self,
    {
        ScaleSource { inner: share_cell(&self.inner) }
    }
}

impl ScaleSource {
    /// Create a new scale source with the given initial factor.
    pub fn new(initial: u64) -> (res: Self) {
        ScaleSource { inner: Arc::new(AtomicU64::new(initial)) }
    }

    /// Read the current scale factor.
    pub fn get(&self) -> (res: u64) {
        self.inner.load(Ordering::Relaxed)
    }

    /// Update the scale factor. Visible to all holders immediately.
    pub fn set(&self, value: u64) {
        self.inner.store(value, Ordering::Relaxed);
    }
}

impl Default for ScaleSource {
    /// Scale factor one.
    fn default() -> (res: Self) {
        Self::new(ONE_F64_BITS)
    }
}

/// Bit pattern of the `f32` value `0.0`.
pub const ZERO_F32_BITS: u32 = 0u32;

/// Bit pattern of the `f32` value `1.0`.
pub const ONE_F32_BITS: u32 = 0x3f80_0000u32;

/// Safe-area insets (logical pixels) as `f32` bit patterns, in the field
/// order `left, right, top, bottom`.
#[derive(Clone, Copy, Debug, PartialEq, Eq, Structural)]
pub struct EdgeInsetBits {
    pub left: u32,
    pub right: u32,
    pub top: u32,
    pub bottom: u32,
}

/// Shared handle to the device safe-area insets (logical pixels).
///
/// One `set()` call updates the value for every holder of a clone. On
/// desktop the insets stay zero.
pub struct SafeAreaSource {
    inner: Arc<SafeAreaInner>,
}

struct SafeAreaInner {
    left: AtomicU32,
    right: AtomicU32,
    top: AtomicU32,
    bottom: AtomicU32,
}

impl Clone for SafeAreaSource {
    /// Another handle on the same cell.
    fn clone(&self) -> (res: Self)
        ensures
            res == *self,
    {
        SafeAreaSource { inner: share_cell(&self.inner) }
    }
}

impl SafeAreaSource {
    /// Create a new source with the given insets (`f32` bit patterns).
    pub fn new(left: u32, right: u32, top: u32, bottom: u32) -> (res: Self) {
        SafeAreaSource {
            inner: Arc::new(
                SafeAreaInner {
                    left: AtomicU32::new(left),
                    right: AtomicU32::new(right),
                    top: AtomicU32::new(top),
                    bottom: AtomicU32::new(bottom),
                },
            ),
        }
    }

    /// Read the current insets.
    pub fn get(&self) -> (res: EdgeInsetBits) {
        EdgeInsetBits {
            left: self.inner.left.load(Ordering::Relaxed),
            right: self.inner.right.load(Ordering::Relaxed),
            top: self.inner.top.load(Ordering::Relaxed),
            bottom: self.inner.bottom.load(Ordering::Relaxed),
        }
    }

    /// Update the insets. Visible to all holders immediately.
    pub fn set(&self, left: u32, right: u32, top: u32, bottom: u32) {
        self.inner.left.store(left, Ordering::Relaxed);
        self.inner.right.store(right, Ordering::Relaxed);
        self.inner.top.store(top, Ordering::Relaxed);
        self.inner.bottom.store(bottom, Ordering::Relaxed);
    }
}

impl Default for SafeAreaSource {
    /// All four insets zero.
    fn default() -> (res: Self) {
        Self::new(ZERO_F32_BITS, ZERO_F32_BITS, ZERO_F32_BITS, ZERO_F32_BITS)
    }
}

/// Shared cell holding the current keyboard height (logical px, `f32` bits).
/// Stays zero on desktop / Android.
pub struct KeyboardInsetSource {
    inner: Arc<KeyboardInsetInner>,
}

struct KeyboardInsetInner {
    current_height: AtomicU32,
}

impl Clone for KeyboardInsetSource {
    /// Another handle on the same cell.
    fn clone(&self) -> (res: Self)
        ensures
            res == *self,
    {
        KeyboardInsetSource { inner: share_cell(&self.inner) }
    }
}

impl KeyboardInsetSource {
    /// A cell holding height zero.
    pub fn new() -> (res: Self) {
        KeyboardInsetSource {
            inner: Arc::new(KeyboardInsetInner { current_height: AtomicU32::new(ZERO_F32_BITS) }),
        }
    }

    /// The current height.
    pub fn get(&self) -> (res: u32) {
        self.inner.current_height.load(Ordering::Relaxed)
    }

    /// Update the height. Visible to all holders immediately.
    pub fn set(&self, current_height: u32) {
        self.inner.current_height.store(current_height, Ordering::Relaxed);
    }
}

impl Default for KeyboardInsetSource {
    fn default() -> (res: Self) {
        Self::new()
    }
}

/// Snapshot of the platform-derived parts of the media-query data: window
/// size (logical px) and device pixel ratio as `f32` bit patterns, and
/// whether the platform is in dark mode.
#[derive(Clone, Copy, Debug, PartialEq, Eq, Structural)]
pub struct MediaQueryDataSourceSnapshot {
    pub width: u32,
    pub height: u32,
    pub device_pixel_ratio: u32,
    pub is_dark: bool,
}

/// Shared cell holding the platform-derived media-query data.
pub struct MediaQueryDataSource {
    inner: Arc<MediaQueryDataInner>,
}

struct MediaQueryDataInner {
    size_w: AtomicU32,
    size_h: AtomicU32,
    device_pixel_ratio: AtomicU32,
    is_dark: AtomicBool,
}

impl Clone for MediaQueryDataSource {
    /// Another handle on the same cell.
    fn clone(&self) -> (res: Self)
        ensures
            res == *self,
    {
        MediaQueryDataSource { inner: share_cell(&self.inner) }
    }
}

impl MediaQueryDataSource {
    /// A cell holding size zero, pixel ratio one and light mode.
    pub fn new() -> (res: Self) {
        MediaQueryDataSource {
            inner: Arc::new(
                MediaQueryDataInner {
                    size_w: AtomicU32::new(ZERO_F32_BITS),
                    size_h: AtomicU32::new(ZERO_F32_BITS),
                    device_pixel_ratio: AtomicU32::new(ONE_F32_BITS),
                    is_dark: AtomicBool::new(false),
                },
            ),
        }
    }

    /// Update every field. Visible to all holders immediately.
    pub fn set(&self, width: u32, height: u32, device_pixel_ratio: u32, is_dark: bool) {
        self.inner.size_w.store(width, Ordering::Relaxed);
        self.inner.size_h.store(height, Ordering::Relaxed);
        self.inner.device_pixel_ratio.store(device_pixel_ratio, Ordering::Relaxed);
        self.inner.is_dark.store(is_dark, Ordering::Relaxed);
    }

    /// Read every field.
    pub fn get(&self) -> (res: MediaQueryDataSourceSnapshot) {
        MediaQueryDataSourceSnapshot {
            width: self.inner.size_w.load(Ordering::Relaxed),
            height: self.inner.size_h.load(Ordering::Relaxed),
            device_pixel_ratio: self.inner.device_pixel_ratio.load(Ordering::Relaxed),
            is_dark: self.inner.is_dark.load(Ordering::Relaxed),
        }
    }
}

impl Default for MediaQueryDataSource {
    fn default() -> (res: Self) {
        Self::new()
    }
}

} // verus!
