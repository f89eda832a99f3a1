use std::collections::HashMap;
use std::rc::Rc;

use vexo::animation::curve::{keyboard_curve, CurveKind};
use vexo::animation::AnimationDirection;
use vexo::demo::{Message, State};
use vexo::dirty::DirtyTracking;
use vexo::id::RenderObjectKey;
use vexo::ui_core::color::{hex_channels, Rgba8};
use vexo::im::{format_timestamp, latest_preview, ChatMessage, ConvId, Conversation, MessageAuthor};

#[test]
fn test_mark_needs_layout() {
    let mut tracking = DirtyTracking::new();
    let key = RenderObjectKey::from_raw(1);
    tracking.mark_needs_layout(key);
    assert!(tracking.needs_layout(key));
}

#[test]
fn test_mark_needs_paint() {
    let mut tracking = DirtyTracking::new();
    let key = RenderObjectKey::from_raw(1);
    tracking.mark_needs_paint(key);
    assert!(tracking.needs_paint(key));
}

#[test]
fn test_clear_layout() {
    let mut tracking = DirtyTracking::new();
    let key = RenderObjectKey::from_raw(1);
    tracking.mark_needs_layout(key);
    tracking.clear_layout(key);
    assert!(!tracking.needs_layout(key));
}

#[test]
fn test_drain_layout() {
    let mut tracking = DirtyTracking::new();
    let key1 = RenderObjectKey::from_raw(1);
    let key2 = RenderObjectKey::from_raw(2);
    tracking.mark_needs_layout(key1);
    tracking.mark_needs_layout(key2);
    let ids: Vec<_> = tracking.drain_layout();
    assert_eq!(ids.len(), 2);
    assert!(tracking.is_layout_empty());
}

#[test]
fn frame_request_only_on_empty_to_nonempty() {
    let mut t = DirtyTracking::default();
    assert!(!t.take_frame_request_needed());
    t.mark_needs_layout(RenderObjectKey::from_raw(1));
    t.mark_needs_layout(RenderObjectKey::from_raw(2));
    assert!(t.take_frame_request_needed());
    assert!(!t.take_frame_request_needed());
    // The layout set is not empty any more: no new request.
    t.mark_needs_layout(RenderObjectKey::from_raw(3));
    assert!(!t.take_frame_request_needed());
    // Paint set going non-empty requests a frame.
    t.mark_needs_paint(RenderObjectKey::from_raw(3));
    assert!(t.take_frame_request_needed());
    assert_eq!(t.layout_count(), 3);
    assert_eq!(t.paint_count(), 1);
}

#[test]
fn drain_paint_clear_and_counts() {
    let mut t = DirtyTracking::new();
    t.mark_needs_paint(RenderObjectKey::from_raw(7));
    t.mark_needs_paint(RenderObjectKey::from_raw(7));
    t.mark_needs_paint(RenderObjectKey::from_raw(8));
    assert_eq!(t.paint_count(), 2);
    let mut drained: Vec<u64> = t.drain_paint().iter().map(|k| k.as_raw()).collect();
    drained.sort();
    assert_eq!(drained, vec![7, 8]);
    assert!(t.is_paint_empty());
    t.mark_needs_layout(RenderObjectKey::from_raw(1));
    t.mark_needs_paint(RenderObjectKey::from_raw(1));
    t.clear_paint(RenderObjectKey::from_raw(1));
    assert!(!t.needs_paint(RenderObjectKey::from_raw(1)));
    assert!(t.needs_layout(RenderObjectKey::from_raw(1)));
    t.clear();
    assert!(t.is_layout_empty());
    assert!(t.is_paint_empty());
}

#[test]
fn curve_raw_7_maps_to_ease_in_out() {
    assert_eq!(keyboard_curve(7), CurveKind::EaseInOut);
}

#[test]
fn keyboard_curve_reads_low_two_bits() {
    assert_eq!(keyboard_curve(0), CurveKind::EaseInOut);
    assert_eq!(keyboard_curve(1), CurveKind::EaseIn);
    assert_eq!(keyboard_curve(2), CurveKind::EaseOut);
    assert_eq!(keyboard_curve(3), CurveKind::Linear);
    assert_eq!(keyboard_curve(5), CurveKind::EaseIn);
    assert_eq!(keyboard_curve(6), CurveKind::EaseOut);
    assert_eq!(keyboard_curve(255), CurveKind::Linear);
}

#[test]
fn animation_direction_is_comparable() {
    assert_ne!(AnimationDirection::Forward, AnimationDirection::Reverse);
    assert_eq!(AnimationDirection::Stopped, AnimationDirection::Stopped);
}

#[test]
fn demo_state_counts_clicks() {
    let mut s = State::new();
    assert_eq!(s.click_count(), 0);
    s.update(Message::Clicked);
    s.update(Message::Nothing);
    s.update(Message::Clicked);
    assert_eq!(s.click_count(), 2);
}

fn conv(id: u32, preview: &str, ts: u64) -> Conversation {
    Conversation {
        id: ConvId(id),
        name: "Alice".into(),
        avatar_bytes: Rc::from(vec![1u8, 2, 3]),
        unread_count: 2,
        last_preview: preview.into(),
        last_timestamp: ts,
    }
}

fn msg(text: &str, ts: u64) -> ChatMessage {
    ChatMessage { author: MessageAuthor::Me, text: text.into(), timestamp: ts }
}

#[test]
fn test_latest_preview_uses_last_message() {
    let c = conv(1, "See you tomorrow!", 1732347520);
    let mut messages: HashMap<u32, Vec<ChatMessage>> = HashMap::new();
    messages.insert(1, vec![msg("Hi", 1732340000)]);
    messages.get_mut(&1).unwrap().push(msg("New latest message", 1732399999));
    let (preview, ts) = latest_preview(&c, &messages);
    assert_eq!(preview, "New latest message");
    assert_eq!(ts, 1732399999);
}

#[test]
fn test_latest_preview_falls_back_for_empty_vec() {
    let c = conv(4, "Let me check and get back", 1732345000);
    let mut messages: HashMap<u32, Vec<ChatMessage>> = HashMap::new();
    messages.insert(4, vec![]);
    let (preview, ts) = latest_preview(&c, &messages);
    assert_eq!(preview, c.last_preview);
    assert_eq!(ts, c.last_timestamp);
}

#[test]
fn test_latest_preview_falls_back_when_absent_from_map() {
    let c = conv(1, "See you tomorrow!", 1732347520);
    let empty_map: HashMap<u32, Vec<ChatMessage>> = HashMap::new();
    let (preview, ts) = latest_preview(&c, &empty_map);
    assert_eq!(preview, c.last_preview);
    assert_eq!(ts, c.last_timestamp);
}

#[test]
fn format_timestamp_is_utc_clock_time() {
    assert_eq!(format_timestamp(0), "00:00");
    // 1732347520 = 2024-11-23 07:38:40 UTC.
    assert_eq!(format_timestamp(1732347520), "07:38");
    assert_eq!(format_timestamp(86399), "23:59");
    assert_eq!(format_timestamp(86400 + 3600 * 5 + 60 * 7 + 59), "05:07");
}

#[test]
fn test_color_from_hex() {
    let c = hex_channels(0xFF8000FF);
    assert!((c.r as f32 / 255.0 - 1.0).abs() < 0.01);
    assert!((c.g as f32 / 255.0 - 0.5).abs() < 0.01);
    assert!((c.b as f32 / 255.0 - 0.0).abs() < 0.01);
    assert!((c.a as f32 / 255.0 - 1.0).abs() < 0.01);
}

#[test]
fn hex_channels_six_digits_are_opaque() {
    assert_eq!(hex_channels(0xFF8000), Rgba8 { r: 0xFF, g: 0x80, b: 0x00, a: 0xFF });
    assert_eq!(hex_channels(0x000000), Rgba8 { r: 0, g: 0, b: 0, a: 0xFF });
    assert_eq!(hex_channels(0x11223344), Rgba8 { r: 0x11, g: 0x22, b: 0x33, a: 0x44 });
    assert_eq!(hex_channels(0xFFFFFF00), Rgba8 { r: 0xFF, g: 0xFF, b: 0xFF, a: 0x00 });
}
