use emergent::color_schemes::light::{paper, pencil, seabird, solarized};
use emergent::color_schemes::{ac, rgb, Rgb};
use emergent::{measure_fn, GenerationCache, ScopeFragment};

#[test]
fn rgb_splits_channels() {
    assert_eq!(rgb(0x123456), Rgb { r: 0x12, g: 0x34, b: 0x56 });
    assert_eq!(rgb(0xff00ff80), Rgb { r: 0x00, g: 0xff, b: 0x80 });
}

#[test]
fn ansi_colors_in_order() {
    let colors = ac([1, 2, 3, 4, 5, 6, 7, 0x010203]);
    assert_eq!(colors.black, rgb(1));
    assert_eq!(colors.white, Rgb { r: 1, g: 2, b: 3 });
}

#[test]
fn schemes() {
    assert_eq!(pencil().primary.background, Rgb { r: 0x42, g: 0x42, b: 0x42 });
    assert_eq!(seabird().normal.red, rgb(0xff4053));
    assert_eq!(solarized().bright.black, rgb(0x002b36));
    assert_eq!(paper().primary.foreground, Rgb { r: 0, g: 0, b: 0 });
}

#[test]
fn scope_fragment_text() {
    assert_eq!(ScopeFragment::from(String::from("errors")).to_string(), "'errors'");
    assert_eq!(ScopeFragment::from(0usize).to_string(), "0");
    assert_eq!(ScopeFragment::from(1207usize).to_string(), "1207");
    assert_eq!(ScopeFragment::Index(usize::MAX).to_string(), usize::MAX.to_string());
}

#[test]
fn measure_fn_returns_result() {
    assert_eq!(measure_fn("sum", || 2 + 3), 5);
}

#[test]
fn cache_resolves_once_per_key() {
    let mut cache: GenerationCache<String, u32> = GenerationCache::new(2);
    let mut calls = 0;
    assert_eq!(cache.resolve("a".to_string(), || { calls += 1; 1 }), 1);
    assert_eq!(cache.resolve("a".to_string(), || { calls += 1; 2 }), 1);
    assert_eq!(calls, 1);
    assert_eq!(cache.len(), 1);
}

#[test]
fn cache_flushes_unused_generations() {
    let mut cache: GenerationCache<u32, u32> = GenerationCache::new(1);
    cache.resolve(1, || 10);
    cache.mark_generation_done();
    // used in the generation before: still there.
    assert_eq!(cache.len(), 1);
    cache.resolve(2, || 20);
    cache.mark_generation_done();
    // key 1 was last used two generations ago.
    assert_eq!(cache.len(), 1);
    assert_eq!(cache.resolve(2, || 0), 20);
    assert_eq!(cache.resolve(1, || 11), 11);
}

#[test]
fn cache_keeps_everything_in_first_generations() {
    let mut cache: GenerationCache<u32, u32> = GenerationCache::new(3);
    cache.resolve(1, || 10);
    cache.mark_generation_done();
    cache.mark_generation_done();
    cache.mark_generation_done();
    assert_eq!(cache.len(), 1);
    cache.mark_generation_done();
    assert_eq!(cache.len(), 0);
}
