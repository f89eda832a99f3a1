use std::sync::atomic::{AtomicUsize, Ordering};
use std::sync::Arc;

use vexo::animation::{AnimationTicker, TickCallback};

#[test]
fn test_ticker_new_is_empty() {
    let ticker = AnimationTicker::new();
    assert!(!ticker.has_active());
}

#[test]
fn test_ticker_register_makes_active() {
    let mut ticker = AnimationTicker::new();
    let cb: Arc<dyn Fn() + Send + Sync> = Arc::new(|| {});
    ticker.register(TickCallback::from_arc(cb));
    assert!(ticker.has_active());
}

#[test]
fn test_ticker_tick_fires_callbacks() {
    let mut ticker = AnimationTicker::new();
    let counter = Arc::new(AtomicUsize::new(0));
    let counter_clone = counter.clone();
    let cb: Arc<dyn Fn() + Send + Sync> = Arc::new(move || {
        counter_clone.fetch_add(1, Ordering::SeqCst);
    });
    ticker.register(TickCallback::from_arc(cb));
    ticker.tick();
    assert_eq!(counter.load(Ordering::SeqCst), 1);
    ticker.tick();
    assert_eq!(counter.load(Ordering::SeqCst), 2);
}

#[test]
fn test_ticker_unregister_removes_callback() {
    let mut ticker = AnimationTicker::new();
    let counter = Arc::new(AtomicUsize::new(0));
    let counter_clone = counter.clone();
    let cb: Arc<dyn Fn() + Send + Sync> = Arc::new(move || {
        counter_clone.fetch_add(1, Ordering::SeqCst);
    });
    let handle = ticker.register(TickCallback::from_arc(cb));
    ticker.tick();
    assert_eq!(counter.load(Ordering::SeqCst), 1);
    ticker.unregister(handle);
    assert!(!ticker.has_active());
    ticker.tick();
    assert_eq!(counter.load(Ordering::SeqCst), 1);
}

#[test]
fn test_ticker_multiple_callbacks() {
    let mut ticker = AnimationTicker::new();
    let counter = Arc::new(AtomicUsize::new(0));
    let cb1: Arc<dyn Fn() + Send + Sync> = {
        let c = counter.clone();
        Arc::new(move || {
            c.fetch_add(1, Ordering::SeqCst);
        })
    };
    let cb2: Arc<dyn Fn() + Send + Sync> = {
        let c = counter.clone();
        Arc::new(move || {
            c.fetch_add(10, Ordering::SeqCst);
        })
    };
    ticker.register(TickCallback::from_arc(cb1));
    ticker.register(TickCallback::from_arc(cb2));
    ticker.tick();
    assert_eq!(counter.load(Ordering::SeqCst), 11);
}

#[test]
fn ticker_handles_are_distinct_and_unregister_only_its_own() {
    let mut ticker = AnimationTicker::default();
    let counter = Arc::new(AtomicUsize::new(0));
    let c1 = counter.clone();
    let c2 = counter.clone();
    let h1 = ticker.register(TickCallback::from_arc(Arc::new(move || {
        c1.fetch_add(1, Ordering::SeqCst);
    })));
    let h2 = ticker.register(TickCallback::from_arc(Arc::new(move || {
        c2.fetch_add(100, Ordering::SeqCst);
    })));
    assert_ne!(h1, h2);
    ticker.unregister(h1);
    assert!(ticker.has_active());
    ticker.tick();
    assert_eq!(counter.load(Ordering::SeqCst), 100);
    ticker.unregister(h2);
    assert!(!ticker.has_active());
}

#[test]
fn ticker_register_then_unregister_restores_entries() {
    let mut ticker = AnimationTicker::new();
    let counter = Arc::new(AtomicUsize::new(0));
    let c1 = counter.clone();
    ticker.register(TickCallback::from_arc(Arc::new(move || {
        c1.fetch_add(1, Ordering::SeqCst);
    })));
    let h = ticker.register(TickCallback::from_arc(Arc::new(|| {})));
    ticker.unregister(h);
    ticker.tick();
    assert!(ticker.has_active());
    assert_eq!(counter.load(Ordering::SeqCst), 1);
    // Unregistering an unknown handle is harmless.
    ticker.unregister(h);
    assert!(ticker.has_active());
}
