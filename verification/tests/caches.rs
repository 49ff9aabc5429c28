use std::collections::HashSet;

use cbz_viewer::domain::{BookPageMap, PageMapEntry, ViewerQuality};
use cbz_viewer::viewer::auto_spread_plan::{build_auto_spread_plan, AutoSpreadPlan};
use cbz_viewer::viewer::gpu_texture_history::GpuTextureHistory;
use cbz_viewer::viewer::gpu_warmup_cache::GpuWarmupCache;
use cbz_viewer::viewer::rgba_page_cache::{FrameSet, RgbaCacheKey, RgbaEvictionOutcome, RgbaPageCache};
use cbz_viewer::viewer::texture_entries::{
    GpuTextureHitKind, GpuTextureHitSource, TextureRef,
};
use cbz_viewer::viewer::working_set::{
    page_render_signature_rank, rank_is_before, Direction, DisplayRequirement,
    PageRenderSignatureKey, RenderSignature,
};

fn signature(w: u32, h: u32) -> RenderSignature {
    RenderSignature::from_decode_request(ViewerQuality::Balanced, w, h, 4096)
}

fn need(w: u32, h: u32) -> DisplayRequirement {
    DisplayRequirement::from_display_request(ViewerQuality::Balanced, w, h, 4096)
}

fn texture_key(page: u32, w: u32, h: u32) -> PageRenderSignatureKey {
    PageRenderSignatureKey {
        page,
        render_signature: signature(w, h),
    }
}

fn rgba_key(page: u32, w: u32, h: u32) -> RgbaCacheKey {
    RgbaCacheKey {
        page,
        render_signature: signature(w, h),
    }
}

fn texture(id: u64) -> TextureRef {
    TextureRef {
        id,
        width: 30,
        height: 40,
    }
}

fn still(id: u64, bytes: usize) -> FrameSet {
    FrameSet {
        id,
        frame_count: 1,
        first_frame_bytes: bytes,
        first_frame_width: 10,
        first_frame_height: 20,
        first_delay_ms: 0,
    }
}

fn pages(of: &[u32]) -> HashSet<u32> {
    of.iter().copied().collect()
}

fn book(portrait: &[bool]) -> BookPageMap {
    BookPageMap {
        pages: portrait
            .iter()
            .enumerate()
            .map(|(page, portrait)| PageMapEntry {
                width: 1000,
                height: if *portrait { 1500 } else { 700 },
                entry_name: format!("{}.jpg", page),
            })
            .collect(),
    }
}

fn anchors(plan: &AutoSpreadPlan) -> Vec<(u32, Option<u32>)> {
    plan.units.iter().map(|unit| unit.pages()).collect()
}

#[test]
fn portrait_neighbours_share_a_screen() {
    let plan = build_auto_spread_plan(&book(&[true, true, false, true, true, true]), false)
        .expect("every page has a size");
    assert_eq!(
        anchors(&plan),
        vec![(0, Some(1)), (2, None), (3, Some(4)), (5, None)]
    );
    assert_eq!(plan.anchor_for_logical_page(4), Some(3));
    assert_eq!(plan.pages_for_logical_page(1), Some((0, Some(1))));
    assert_eq!(plan.next_anchor(0), Some(2));
    assert_eq!(plan.previous_anchor(5), Some(3));
    assert_eq!(plan.next_anchor(5), None);
    assert_eq!(plan.previous_anchor(1), None);
    assert_eq!(plan.unit_index_for_logical_page(6), None);
    assert_eq!(plan.pages_for_unit_index(9), None);
}

#[test]
fn a_blank_leaves_the_cover_alone() {
    let plan = build_auto_spread_plan(&book(&[true, true, true]), true).expect("sizes are known");
    assert_eq!(anchors(&plan), vec![(0, None), (1, Some(2))]);
}

#[test]
fn no_plan_without_sizes() {
    let mut map = book(&[true, true]);
    map.pages[1].width = 0;
    assert!(build_auto_spread_plan(&map, false).is_none());
}

#[test]
fn every_page_is_in_one_unit_and_steps_undo_each_other() {
    let plan = build_auto_spread_plan(
        &book(&[true, false, true, true, true, true, false, true]),
        true,
    )
    .expect("sizes are known");
    let mut listed = Vec::new();
    for (first, second) in anchors(&plan) {
        listed.push(first);
        listed.extend(second);
    }
    assert_eq!(listed, (0..8).collect::<Vec<u32>>());
    for page in 0..8u32 {
        let anchor = plan.anchor_for_logical_page(page).expect("covered");
        if let Some(next) = plan.next_anchor(page) {
            assert_eq!(plan.previous_anchor(next), Some(anchor));
        }
        if let Some(previous) = plan.previous_anchor(page) {
            assert_eq!(plan.next_anchor(previous), Some(anchor));
        }
    }
}

#[test]
fn signatures_may_fall_short_by_five_percent() {
    assert!(signature(1000, 1000).is_suitable_for(need(1050, 1050)));
    assert!(!signature(1000, 1000).is_suitable_for(need(1051, 1000)));
    assert!(!signature(1000, 1000).is_suitable_for(need(1000, 1051)));
    assert_eq!(
        signature(1000, 1000).mismatch_reason(need(1051, 1000)),
        Some("insufficient resolution")
    );
    assert_eq!(signature(1000, 1000).mismatch_reason(need(900, 900)), None);
    let other = DisplayRequirement::from_display_request(ViewerQuality::Speed, 1, 1, 4096);
    assert_eq!(signature(9, 9).mismatch_reason(other), Some("quality mismatch"));
    let other = DisplayRequirement::from_display_request(ViewerQuality::Balanced, 1, 1, 2048);
    assert_eq!(signature(9, 9).mismatch_reason(other), Some("max_tex_side mismatch"));
}

#[test]
fn nearer_sizes_rank_first() {
    let near = page_render_signature_rank(3, signature(1010, 1000), 3, need(1000, 1000), 8)
        .expect("suitable");
    let far = page_render_signature_rank(3, signature(2000, 2000), 3, need(1000, 1000), 4)
        .expect("suitable");
    assert_eq!(near, (10, 1010, 1000, 8));
    assert_eq!(far, (2000, 2000, 2000, 4));
    assert!(rank_is_before(near, far));
    assert!(!rank_is_before(far, near));
    assert!(!rank_is_before(near, near));
    assert_eq!(
        page_render_signature_rank(4, signature(1000, 1000), 3, need(1000, 1000), 8),
        None
    );
}

#[test]
fn searches_favour_the_direction_of_reading() {
    let forward: Vec<i64> = (0..6).map(|i| Direction::Forward.signed_offset(i)).collect();
    assert_eq!(forward, vec![1, 2, -1, 3, -2, 4]);
    let backward: Vec<i64> = (0..6).map(|i| Direction::Backward.signed_offset(i)).collect();
    assert_eq!(backward, vec![-1, -2, 1, -3, 2, -4]);
    assert_eq!(Direction::from_nav_delta(3), Some(Direction::Forward));
    assert_eq!(Direction::from_nav_delta(-1), Some(Direction::Backward));
    assert_eq!(Direction::from_nav_delta(0), None);
    assert_eq!(Direction::Forward.as_str(), "forward");
    assert_eq!(Direction::Backward.as_str(), "backward");
}

#[test]
fn history_lets_the_oldest_go() {
    let mut history = GpuTextureHistory::new(300);
    assert!(history.insert(texture_key(1, 100, 100), texture(11), 100));
    assert!(history.insert(texture_key(2, 100, 100), texture(12), 100));
    assert!(history.insert(texture_key(3, 100, 100), texture(13), 100));
    assert!(history.touch(&texture_key(1, 100, 100)));
    assert!(!history.touch(&texture_key(9, 100, 100)));
    assert!(history.insert(texture_key(4, 100, 100), texture(14), 150));
    let held: Vec<u32> = history.entry_snapshots().iter().map(|e| e.page).collect();
    assert_eq!(held, vec![1, 4]);
    assert_eq!(history.current_bytes(), 250);
    let snapshot = history.snapshot();
    assert_eq!(snapshot.insert_count, 4);
    assert_eq!(snapshot.evict_count, 2);
    assert!(!history.insert(texture_key(5, 100, 100), texture(15), 301));
    assert_eq!(history.entry_count(), 2);
}

#[test]
fn history_replaces_what_a_key_held() {
    let mut history = GpuTextureHistory::new(300);
    history.insert(texture_key(1, 100, 100), texture(11), 100);
    history.insert(texture_key(1, 100, 100), texture(12), 40);
    assert_eq!(history.entry_count(), 1);
    assert_eq!(history.current_bytes(), 40);
    let hit = history.peek_suitable(1, need(100, 100)).expect("held");
    assert_eq!(hit.texture.id, 12);
    assert_eq!(hit.hit_kind, GpuTextureHitKind::Exact);
    assert_eq!(hit.source, GpuTextureHitSource::History);
    assert_eq!((hit.texture_width, hit.texture_height), (30, 40));
    history.clear("book");
    assert_eq!(history.current_bytes(), 0);
    assert_eq!(history.snapshot().last_clear_reason, Some("book"));
    assert_eq!(history.snapshot().clear_count, 1);
    assert!(history.peek_suitable(1, need(100, 100)).is_none());
}

#[test]
fn history_counts_its_lookups() {
    let mut history = GpuTextureHistory::new(10);
    history.record_hit();
    history.record_hit();
    history.record_miss();
    history.record_partial_spread_hit();
    history.record_partial_reuse();
    let snapshot = history.snapshot();
    assert_eq!(snapshot.full_hit_count, 2);
    assert_eq!(snapshot.miss_count, 1);
    assert_eq!(snapshot.partial_spread_hit_count, 1);
    assert_eq!(snapshot.partial_reuse_count, 1);
    assert_eq!(snapshot.max_bytes, 10);
}

#[test]
fn the_best_texture_is_found() {
    let mut history = GpuTextureHistory::new(3000);
    history.insert(texture_key(1, 200, 200), texture(11), 100);
    history.insert(texture_key(1, 110, 110), texture(12), 100);
    history.insert(texture_key(2, 100, 100), texture(13), 100);
    let hit = history.peek_suitable(1, need(100, 100)).expect("held");
    assert_eq!(hit.texture.id, 12);
    assert_eq!(hit.hit_kind, GpuTextureHitKind::Suitable);
    assert_eq!(GpuTextureHitKind::Suitable.as_str(), "suitable");
    assert_eq!(GpuTextureHitSource::Warmup.as_str(), "warmup");
}

#[test]
fn warm_textures_are_promoted_or_dropped() {
    let mut cache = GpuWarmupCache::new(300);
    assert!(cache.insert(texture_key(1, 100, 100), texture(11), 100));
    assert!(cache.insert(texture_key(2, 100, 100), texture(12), 100));
    assert_eq!(
        cache.promote_to_history(&texture_key(1, 100, 100)),
        Some((texture(11), 100))
    );
    assert_eq!(cache.promote_to_history(&texture_key(1, 100, 100)), None);
    assert_eq!(
        cache.remove_without_promotion(&texture_key(2, 100, 100)),
        Some((texture(12), 100))
    );
    let snapshot = cache.snapshot();
    assert_eq!(snapshot.promotion_count, 1);
    assert_eq!(snapshot.unused_evict_count, 0);
    assert_eq!(snapshot.current_bytes, 0);
    assert_eq!(cache.entry_count(), 0);
}

#[test]
fn warm_textures_stay_within_the_budget() {
    let mut cache = GpuWarmupCache::new(250);
    for page in 0..10u32 {
        assert!(cache.insert(texture_key(page, 100, 100), texture(page as u64), 100));
        assert!(cache.current_bytes() <= cache.max_bytes());
    }
    let held: Vec<u32> = cache.entry_snapshots().iter().map(|e| e.page).collect();
    assert_eq!(held, vec![8, 9]);
    assert_eq!(cache.snapshot().evict_count, 8);
    assert_eq!(cache.snapshot().unused_evict_count, 8);
    assert!(!cache.insert(texture_key(11, 100, 100), texture(1), 251));
    assert_eq!(
        cache.peek_suitable(9, need(100, 100)).map(|hit| hit.source),
        Some(GpuTextureHitSource::Warmup)
    );
}

#[test]
fn pages_go_least_recently_used_first() {
    let mut cache = RgbaPageCache::new();
    let none = pages(&[]);
    cache.set_max_bytes_with_context(300, 0, &none);
    for page in 1..=3u32 {
        assert!(cache.insert(rgba_key(page, 100, 100), still(page as u64, 100), "test", 0, &none));
    }
    assert_eq!(cache.get(&rgba_key(1, 100, 100)), Some(still(1, 100)));
    let outcome =
        cache.insert_with_context(rgba_key(9, 100, 100), still(9, 100), "test", 5, &none);
    assert!(outcome.inserted && outcome.inserted_survived);
    assert_eq!(
        outcome.eviction,
        RgbaEvictionOutcome {
            evicted_count: 1,
            evicted_bytes: 100,
            nearest_evicted_distance: Some(3),
            protected_evicted: false,
        }
    );
    assert_eq!(cache.page_order(), vec![3, 1, 9]);
}

#[test]
fn protected_pages_go_last() {
    let mut cache = RgbaPageCache::new();
    cache.set_max_bytes_with_context(200, 0, &pages(&[]));
    cache.insert(rgba_key(1, 100, 100), still(1, 100), "test", 0, &pages(&[]));
    cache.insert(rgba_key(2, 100, 100), still(2, 100), "test", 0, &pages(&[]));
    let outcome =
        cache.insert_with_context(rgba_key(3, 100, 100), still(3, 100), "test", 0, &pages(&[1]));
    assert!(!outcome.eviction.protected_evicted);
    assert_eq!(cache.page_order(), vec![1, 3]);
    let outcome = cache.set_max_bytes_with_context(0, 0, &pages(&[1]));
    assert!(outcome.protected_evicted);
    assert_eq!(outcome.evicted_count, 2);
    assert_eq!(cache.current_bytes(), 0);
}

#[test]
fn animations_and_giants_are_not_kept() {
    let mut cache = RgbaPageCache::new();
    let none = pages(&[]);
    assert!(!cache.insert(rgba_key(1, 100, 100), still(1, 1), "test", 0, &none));
    cache.set_max_bytes_with_context(100, 0, &none);
    let moving = FrameSet {
        frame_count: 2,
        ..still(1, 10)
    };
    assert!(!cache.insert(rgba_key(1, 100, 100), moving, "test", 0, &none));
    assert!(!cache.insert(rgba_key(1, 100, 100), still(1, 101), "test", 0, &none));
    assert!(cache.insert(rgba_key(1, 100, 100), still(1, 100), "test", 0, &none));
    assert_eq!(RgbaPageCache::static_rgba_bytes(&moving), None);
    assert_eq!(RgbaPageCache::static_rgba_bytes(&still(1, 100)), Some(100));
    assert_eq!(cache.mutation_revision(), 1);
}

#[test]
fn only_candidates_make_room() {
    let mut cache = RgbaPageCache::new();
    let none = pages(&[]);
    cache.set_max_bytes_with_context(300, 0, &none);
    for page in 1..=3u32 {
        cache.insert(rgba_key(page, 100, 100), still(page as u64, 100), "test", 0, &none);
    }
    let outcome = cache.insert_with_eviction_candidates(
        rgba_key(4, 100, 100),
        still(4, 100),
        "test",
        &vec![3, 1],
        &none,
    );
    assert!(outcome.inserted_survived);
    assert_eq!(cache.page_order(), vec![1, 2, 4]);
    let outcome = cache.insert_with_eviction_candidates(
        rgba_key(5, 100, 100),
        still(5, 100),
        "test",
        &vec![8],
        &none,
    );
    assert!(outcome.inserted);
    assert!(!outcome.inserted_survived);
    assert_eq!(cache.page_order(), vec![1, 2, 4]);
    assert_eq!(cache.current_bytes(), 300);
}

#[test]
fn pages_are_found_by_requirement() {
    let mut cache = RgbaPageCache::new();
    let none = pages(&[]);
    cache.set_max_bytes_with_context(3000, 0, &none);
    cache.insert(rgba_key(1, 200, 200), still(1, 100), "interactive", 0, &none);
    cache.insert(rgba_key(1, 105, 105), still(2, 100), "bg", 0, &none);
    cache.insert(rgba_key(2, 50, 50), still(3, 100), "bg", 0, &none);
    assert_eq!(
        cache.best_suitable_candidate(1, need(100, 100)),
        Some(rgba_key(1, 105, 105))
    );
    assert_eq!(
        cache.get_suitable(1, need(190, 190)),
        Some((still(1, 100), signature(200, 200)))
    );
    assert_eq!(cache.page_order(), vec![1, 2]);
    assert_eq!(cache.peek_suitable(2, need(100, 100)), None);
    assert_eq!(
        cache.peek_exact(&rgba_key(2, 50, 50)),
        Some((still(3, 100), signature(50, 50), "bg"))
    );
    assert_eq!(cache.bytes_of(&rgba_key(2, 50, 50)), 100);
    assert!(cache.contains_page(2));
    assert!(cache.contains(&rgba_key(2, 50, 50)));
    assert!(!cache.contains(&rgba_key(2, 51, 50)));
    let removed = cache.remove_page(1);
    assert_eq!((removed.evicted_count, removed.evicted_bytes), (2, 200));
    assert!(!cache.contains_page(1));
    assert_eq!(cache.ready_entry_snapshots().len(), 1);
    assert_eq!(cache.entry_count(), 1);
}

#[test]
fn the_cache_stays_within_its_budget() {
    let mut cache = RgbaPageCache::new();
    let sound = |cache: &RgbaPageCache| {
        let held = cache.ready_entry_snapshots();
        assert_eq!(cache.current_bytes(), held.iter().map(|entry| entry.bytes).sum::<usize>());
        assert!(cache.current_bytes() <= cache.max_bytes());
        assert_eq!(cache.entry_count(), held.len());
        let listed: HashSet<u32> = cache.page_order().into_iter().collect();
        assert_eq!(listed.len(), cache.page_order().len());
        assert_eq!(listed, held.iter().map(|entry| entry.page).collect::<HashSet<u32>>());
    };
    cache.set_max_bytes_with_context(500, 0, &pages(&[]));
    let mut n: u32 = 7;
    for step in 0..200u32 {
        n = n.wrapping_mul(1_664_525).wrapping_add(1_013_904_223);
        let page = (n >> 8) % 6;
        let bytes = ((n >> 16) % 200) as usize;
        let key = rgba_key(page, 100 + (n >> 4) % 2, 100);
        match step % 6 {
            0 | 1 => {
                cache.insert(key, still(1, bytes), "test", page, &pages(&[1]));
            }
            2 => {
                let candidates = vec![(page + 1) % 6, (page + 2) % 6];
                cache.insert_with_eviction_candidates(
                    key,
                    still(1, bytes),
                    "test",
                    &candidates,
                    &pages(&[2]),
                );
            }
            3 => {
                cache.get(&key);
            }
            4 => {
                cache.set_max_bytes_with_context(300 + bytes, page, &pages(&[3]));
            }
            _ => {
                cache.remove_page(page);
            }
        }
        sound(&cache);
    }
}
