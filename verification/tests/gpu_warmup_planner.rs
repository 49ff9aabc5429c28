use std::collections::HashMap;

use cbz_viewer::domain::ViewerQuality;
use cbz_viewer::viewer::gpu_warmup_planner::{
    entry_satisfies_requirement, plan_gpu_warmup, resolve_future_candidate,
    GpuWarmupCandidateSnapshot, GpuWarmupPlanSnapshot, RgbaReadyEntrySnapshot,
};
use cbz_viewer::viewer::rgba_page_cache::RgbaCacheKey;
use cbz_viewer::viewer::working_set::{
    DisplayRequirement, GpuTextureEntrySnapshot, PageRenderSignatureKey, RenderSignature,
};

fn make_signature(width: u32, height: u32) -> RenderSignature {
    RenderSignature::from_decode_request(ViewerQuality::Balanced, width, height, 4096)
}

fn make_entry(page: u32, width: u32, height: u32) -> GpuTextureEntrySnapshot {
    GpuTextureEntrySnapshot {
        key: PageRenderSignatureKey {
            page,
            render_signature: make_signature(width, height),
        },
        page,
        bytes: 256,
    }
}

fn requirement(width: u32, height: u32) -> DisplayRequirement {
    DisplayRequirement::from_display_request(ViewerQuality::Balanced, width, height, 4096)
}

fn make_candidate(page: u32, distance: u32, bytes: usize) -> GpuWarmupCandidateSnapshot {
    GpuWarmupCandidateSnapshot {
        rgba_key: RgbaCacheKey {
            page,
            render_signature: make_signature(1000, 500),
        },
        key: PageRenderSignatureKey {
            page,
            render_signature: make_signature(1000, 500),
        },
        page,
        bytes,
        distance,
        requirement: requirement(1000, 500),
    }
}

#[test]
fn resolve_future_candidate_requires_ready_entry() {
    let ready_entries = vec![RgbaReadyEntrySnapshot {
        key: RgbaCacheKey {
            page: 10,
            render_signature: make_signature(1200, 600),
        },
        page: 10,
        bytes: 256,
        signature: make_signature(1200, 600),
        source: "ready",
    }];
    let requirement =
        DisplayRequirement::from_display_request(ViewerQuality::Balanced, 1100, 550, 4096);
    assert!(resolve_future_candidate(10, 5, requirement, &ready_entries).is_some());
    assert!(resolve_future_candidate(10, 5, requirement, &[]).is_none());
}

#[test]
fn warm_entries_survive_when_still_desired_even_without_ready_supply() {
    let warm_entries = vec![make_entry(10, 1000, 500)];
    let mut desired_future_requirements = HashMap::new();
    desired_future_requirements.insert(
        10,
        DisplayRequirement::from_display_request(ViewerQuality::Balanced, 1000, 500, 4096),
    );

    let plan = plan_gpu_warmup(
        5,
        0,
        1024,
        &[],
        &warm_entries,
        &[],
        &desired_future_requirements,
    );

    assert_eq!(plan.summary().stale_evict_count, 0);
    assert_eq!(plan.summary().warm_count, 1);
    assert!(plan.stale_evict_candidates.is_empty());
}

#[test]
fn warm_entries_outside_desired_future_are_evicted() {
    let warm_entries = vec![make_entry(10, 1000, 500)];
    let desired_future_requirements = HashMap::new();

    let plan = plan_gpu_warmup(
        5,
        0,
        1024,
        &[],
        &warm_entries,
        &[],
        &desired_future_requirements,
    );

    assert_eq!(plan.summary().stale_evict_count, 1);
    assert_eq!(
        plan.stale_evict_candidates[0].reason,
        "outside_desired_future"
    );
    assert_eq!(plan.summary().warm_count, 0);
}

#[test]
fn nearest_missing_page_is_uploaded_into_free_space() {
    let mut desired = HashMap::new();
    desired.insert(7, requirement(1000, 500));
    desired.insert(6, requirement(1000, 500));
    let plan = plan_gpu_warmup(
        5,
        2,
        1024,
        &[make_candidate(7, 2, 256), make_candidate(6, 1, 256)],
        &[],
        &[],
        &desired,
    );
    let upload = plan.upload_candidate.expect("something is missing");
    assert_eq!(upload.page, 6);
    assert_eq!(plan.summary().upload_mode, Some("free-space"));
    assert_eq!(plan.summary().pending_uploads, 1);
    assert_eq!(plan.summary().free_bytes, 1024);
    assert_eq!(plan.summary().idle_reason, None);
}

#[test]
fn further_pages_give_way_to_a_nearer_one() {
    let mut desired = HashMap::new();
    desired.insert(6, requirement(1000, 500));
    desired.insert(9, requirement(1000, 500));
    let plan = plan_gpu_warmup(
        5,
        1,
        256,
        &[make_candidate(6, 1, 256)],
        &[make_entry(9, 1000, 500)],
        &[],
        &desired,
    );
    assert_eq!(plan.upload_candidate.map(|upload| upload.page), Some(6));
    assert_eq!(plan.replacement_evict_candidates.len(), 1);
    assert_eq!(plan.replacement_evict_candidates[0].page, 9);
    assert_eq!(plan.replacement_evict_candidates[0].reason, "rank_replacement");
}

#[test]
fn nearer_pages_do_not_give_way() {
    let mut desired = HashMap::new();
    desired.insert(6, requirement(1000, 500));
    desired.insert(9, requirement(1000, 500));
    let plan = plan_gpu_warmup(
        5,
        1,
        256,
        &[make_candidate(9, 4, 256)],
        &[make_entry(6, 1000, 500)],
        &[],
        &desired,
    );
    assert!(plan.upload_candidate.is_none());
    assert!(plan.replacement_evict_candidates.is_empty());
    assert_eq!(plan.summary().idle_reason, Some("no-rank-improvement"));
}

#[test]
fn idle_plans_say_why() {
    let desired = HashMap::new();
    let plan = plan_gpu_warmup(5, 0, 1024, &[], &[], &[], &desired);
    assert_eq!(plan.summary().idle_reason, Some("no-l2-ready"));
    let mut desired = HashMap::new();
    desired.insert(6, requirement(1000, 500));
    let plan = plan_gpu_warmup(
        5,
        1,
        1024,
        &[make_candidate(6, 1, 256)],
        &[make_entry(6, 1000, 500)],
        &[],
        &desired,
    );
    assert_eq!(plan.summary().idle_reason, Some("already-cached"));
    let plan = plan_gpu_warmup(
        5,
        1,
        100,
        &[make_candidate(6, 1, 256)],
        &[],
        &[],
        &desired,
    );
    assert_eq!(plan.summary().idle_reason, Some("no-suitable-entry"));
}

#[test]
fn textures_satisfy_pages_of_their_size_only() {
    assert!(entry_satisfies_requirement(&make_entry(6, 1000, 500), 6, requirement(1000, 500)));
    assert!(!entry_satisfies_requirement(&make_entry(6, 1000, 500), 7, requirement(1000, 500)));
    assert!(!entry_satisfies_requirement(&make_entry(6, 100, 50), 6, requirement(1000, 500)));
    assert_eq!(GpuWarmupPlanSnapshot::default().upload_count, 0);
}

#[test]
fn plans_forget_the_order_of_candidates() {
    let mut desired = HashMap::new();
    for page in 6..10u32 {
        desired.insert(page, requirement(1000, 500));
    }
    let one = [make_candidate(8, 3, 256), make_candidate(6, 1, 256), make_candidate(7, 2, 300)];
    let other = [one[1], one[2], one[0]];
    let plan = |candidates: &[GpuWarmupCandidateSnapshot]| {
        plan_gpu_warmup(
            5,
            3,
            256,
            candidates,
            &[make_entry(9, 1000, 500)],
            &[],
            &desired,
        )
    };
    assert_eq!(plan(&one).summary(), plan(&other).summary());
    assert_eq!(plan(&one).upload_candidate, plan(&other).upload_candidate);
    assert_eq!(
        plan(&one).replacement_evict_candidates,
        plan(&other).replacement_evict_candidates
    );
}
