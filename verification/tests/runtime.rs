use key_pdf::geometry::{PixelRect, RasterSize, TileKey};
use key_pdf::runtime::cache::{CachePolicy, CachePolicyError, MAX_RENDER_CACHE_ENTRIES};
use key_pdf::runtime::cancellation::{CancellationSource, Cancelled};
use key_pdf::runtime::demand::{
    ColorMode, DemandError, DemandIntent, PreviewCenter, TextDemandPurpose,
};
use key_pdf::runtime::priority::DemandPriority;
use key_pdf::runtime::scheduler::{
    CompletionDisposition, LatestWinsQueue, ScheduleOutcome, SchedulerError,
};
use key_pdf::runtime::session::{
    AllocationError, DocumentSession, DocumentSessionManager, SessionError,
};

#[test]
fn defaults_match_the_current_reader_budgets() {
    let policy = CachePolicy::default();
    assert_eq!(policy.render_entries(), 48);
    assert_eq!(policy.render_bytes(), 128 * 1024 * 1024);
    assert_eq!(policy.text_pages(), 16);
    assert!(policy.render_cache_enabled());
}

#[test]
fn caches_can_be_disabled_but_not_partially_configured() {
    let disabled = CachePolicy::try_new(0, 0, 0, 0, 0, 0).unwrap();
    assert!(!disabled.render_cache_enabled());
    assert!(!disabled.text_cache_enabled());
    assert!(!disabled.preview_cache_enabled());
    assert_eq!(
        CachePolicy::try_new(1, 0, 0, 0, 0, 0),
        Err(CachePolicyError::InconsistentDisabledBudget("render"))
    );
}

#[test]
fn pathological_budgets_are_rejected() {
    assert_eq!(
        CachePolicy::try_new(MAX_RENDER_CACHE_ENTRIES + 1, 1, 0, 0, 0, 0),
        Err(CachePolicyError::EntryLimitExceeded("render"))
    );
}

#[test]
fn a_cache_budget_error_names_its_cache() {
    assert_eq!(
        CachePolicy::try_new(0, 0, 0, 7, 0, 0),
        Err(CachePolicyError::InconsistentDisabledBudget("text"))
    );
    let error = CachePolicy::try_new(1, usize::MAX, 0, 0, 0, 0).unwrap_err();
    assert_eq!(error, CachePolicyError::SizeLimitExceeded("render"));
    assert_eq!(error.message(), "render cache budget is too large");
}

#[test]
fn cancellation_is_shared_idempotent_and_read_only_to_workers() {
    let source = CancellationSource::new();
    let first = source.token();
    let second = first.clone();
    assert_eq!(first.checkpoint(), Ok(()));
    assert!(source.cancel());
    assert!(!source.cancel());
    assert_eq!(first.checkpoint(), Err(Cancelled));
    assert!(second.is_cancelled());
}

#[test]
fn either_of_two_flags_stops_combined_work() {
    let session = CancellationSource::new();
    let operation = CancellationSource::new();
    let both = session.token().combined(&operation.token());
    assert_eq!(both.checkpoint(), Ok(()));
    operation.cancel();
    assert_eq!(both.checkpoint(), Err(Cancelled));
    assert!(!session.is_cancelled());
    assert_eq!(Cancelled.message(), "operation cancelled");
}

fn session() -> DocumentSession {
    DocumentSessionManager::new().begin().unwrap()
}

#[test]
fn render_demands_validate_regions_before_allocating_work() {
    let session = session();
    let key = TileKey {
        page: 2,
        raster: RasterSize {
            width: 1_000,
            height: 1_500,
        },
        column: 0,
        row: 0,
    };
    let core = PixelRect {
        x: 100,
        y: 200,
        width: 300,
        height: 400,
    };
    let render = PixelRect {
        x: 90,
        y: 190,
        width: 320,
        height: 420,
    };
    let demand = session
        .render_demand(
            key,
            core,
            render,
            ColorMode::Original,
            DemandPriority::visible(),
            DemandIntent::Visible,
        )
        .unwrap();
    assert_eq!(demand.page(), 2);
    assert_eq!(demand.core_rect(), core);

    let invalid = PixelRect { x: 950, ..core };
    assert_eq!(
        session.render_demand(
            key,
            invalid,
            render,
            ColorMode::Original,
            DemandPriority::visible(),
            DemandIntent::Visible,
        ),
        Err(DemandError::RegionOutsideRaster)
    );
}

#[test]
fn each_flaw_of_a_render_demand_has_its_own_error() {
    let session = session();
    let key = TileKey {
        page: 0,
        raster: RasterSize {
            width: 100,
            height: 100,
        },
        column: 0,
        row: 0,
    };
    let whole = PixelRect {
        x: 0,
        y: 0,
        width: 100,
        height: 100,
    };
    let ask = |key, core, render| {
        session.render_demand(
            key,
            core,
            render,
            ColorMode::Original,
            DemandPriority::visible(),
            DemandIntent::Visible,
        )
    };
    let no_raster = TileKey {
        raster: RasterSize {
            width: 0,
            height: 100,
        },
        ..key
    };
    assert_eq!(ask(no_raster, whole, whole), Err(DemandError::EmptyRaster));
    let empty = PixelRect { width: 0, ..whole };
    assert_eq!(ask(key, empty, whole), Err(DemandError::EmptyRegion));
    let far = PixelRect { x: u32::MAX, ..whole };
    assert_eq!(ask(key, far, whole), Err(DemandError::RegionOutsideRaster));
    let half = PixelRect { width: 50, ..whole };
    assert_eq!(
        ask(key, whole, half),
        Err(DemandError::CoreOutsideRenderRegion)
    );
    assert_eq!(
        DemandError::CoreOutsideRenderRegion.message(),
        "tile core must be contained by its render region"
    );
    assert!(ask(key, half, whole).is_ok());
}

#[test]
fn preview_crop_is_bounded_and_clamped_at_edges() {
    let demand = session()
        .preview_demand(
            1,
            RasterSize {
                width: 1_000,
                height: 700,
            },
            RasterSize {
                width: 360,
                height: 204,
            },
            PreviewCenter::Pixel { x: 1_000, y: 0 },
            ColorMode::Original,
            DemandPriority::interactive(),
        )
        .unwrap();
    assert_eq!(demand.region().x, 640);
    assert_eq!(demand.region().y, 0);
    assert_eq!(demand.region().width, 360);
    assert_eq!(demand.region().height, 204);
}

#[test]
fn previews_are_cut_round_their_center_and_need_one() {
    let raster = RasterSize {
        width: 1_000,
        height: 700,
    };
    let output = RasterSize {
        width: 100,
        height: 50,
    };
    let ask = |center| {
        session().preview_demand(
            0,
            raster,
            output,
            center,
            ColorMode::Original,
            DemandPriority::interactive(),
        )
    };
    let region = ask(PreviewCenter::Pixel { x: 500, y: 300 }).unwrap().region();
    assert_eq!((region.x, region.y), (450, 275));
    assert_eq!(
        ask(PreviewCenter::NotFinite),
        Err(DemandError::NonFiniteCoordinate)
    );
}

#[test]
fn replacement_and_bounded_eviction_are_deterministic() {
    let mut queue = LatestWinsQueue::new(2);
    let first = queue.schedule("a", DemandPriority::visible(), 1);
    let replaced = queue.schedule("a", DemandPriority::prefetch(), 2);
    assert!(replaced.revision().unwrap() > first.revision().unwrap());
    assert_eq!(
        replaced,
        ScheduleOutcome::Replaced {
            revision: replaced.revision().unwrap(),
            previous: 1,
        }
    );
    queue.schedule("b", DemandPriority::background(), 3);
    let evicted = queue.schedule("c", DemandPriority::background(), 4);
    assert!(matches!(
        evicted,
        ScheduleOutcome::Evicted { evicted, .. } if evicted.key() == &"b" && evicted.value() == &3
    ));
    assert_eq!(queue.len(), 2);
}

#[test]
fn lower_priority_work_cannot_displace_a_full_visible_queue() {
    let mut queue = LatestWinsQueue::new(1);
    queue.schedule("visible", DemandPriority::visible(), 1);
    assert_eq!(
        queue.schedule("background", DemandPriority::background(), 2),
        ScheduleOutcome::Rejected { value: 2 }
    );
    assert!(queue.contains_key(&"visible"));
}

#[test]
fn newer_same_key_demand_suppresses_an_in_flight_completion() {
    let mut queue = LatestWinsQueue::new(4);
    queue.schedule("tile", DemandPriority::visible(), "old");
    let old = queue.pop_next().unwrap();
    assert!(queue.is_latest(&old));
    assert!(!old.is_cancelled());
    queue.schedule("tile", DemandPriority::visible(), "new");
    assert!(old.is_cancelled());
    assert!(!queue.is_latest(&old));
    assert_eq!(queue.finish(&old), CompletionDisposition::Stale);

    let new = queue.pop_next().unwrap();
    assert_eq!(new.value(), &"new");
    assert_eq!(queue.finish(&new), CompletionDisposition::Publish);
}

#[test]
fn clear_pending_invalidates_in_flight_and_latest_equal_priority_runs_first() {
    let mut queue = LatestWinsQueue::new(4);
    queue.schedule(1, DemandPriority::visible(), "first");
    queue.schedule(2, DemandPriority::visible(), "latest");
    let latest = queue.pop_next().unwrap();
    assert_eq!(latest.value(), &"latest");
    queue.clear_pending();
    assert!(latest.is_cancelled());
    assert_eq!(queue.finish(&latest), CompletionDisposition::Stale);
}

#[test]
fn explicit_cancel_reaches_in_flight_operation_token() {
    let mut queue = LatestWinsQueue::new(2);
    queue.schedule("tile", DemandPriority::visible(), "render");
    let in_flight = queue.pop_next().unwrap();
    let worker_token = in_flight.cancellation();

    assert_eq!(queue.cancel(&"tile"), None);
    assert!(worker_token.is_cancelled());
    assert_eq!(queue.finish(&in_flight), CompletionDisposition::Stale);
}

#[test]
fn the_same_key_is_never_executed_concurrently() {
    let mut queue = LatestWinsQueue::with_max_in_flight(4, 2).unwrap();
    queue.schedule("tile", DemandPriority::visible(), "old");
    let old = queue.pop_next().unwrap();
    queue.schedule("tile", DemandPriority::visible(), "new");
    assert!(queue.pop_next().is_none());
    assert_eq!(queue.finish(&old), CompletionDisposition::Stale);
    let new = queue.pop_next().unwrap();
    assert_eq!(new.value(), &"new");
    assert_eq!(queue.finish(&new), CompletionDisposition::Publish);
}

#[test]
fn a_queue_that_can_run_nothing_is_refused() {
    assert!(LatestWinsQueue::<u64, u64>::with_max_in_flight(4, 0).is_err());
    assert_eq!(
        SchedulerError.message(),
        "maximum in-flight demand count must be non-zero"
    );
    let mut empty = LatestWinsQueue::new(0);
    assert_eq!(
        empty.schedule(1, DemandPriority::visible(), 5),
        ScheduleOutcome::Rejected { value: 5 }
    );
}

#[test]
fn finishing_twice_is_noticed() {
    let mut queue = LatestWinsQueue::new(1);
    queue.schedule(1, DemandPriority::visible(), 5);
    let demand = queue.pop_next().unwrap();
    assert_eq!(queue.in_flight_len(), 1);
    assert_eq!(queue.finish(&demand), CompletionDisposition::Publish);
    assert_eq!(queue.finish(&demand), CompletionDisposition::Unknown);
}

#[derive(Debug)]
enum TestResource {}

#[test]
fn starting_a_session_cancels_and_invalidates_the_previous_generation() {
    let mut manager = DocumentSessionManager::new();
    let first = manager.begin().unwrap();
    let request = first.next_request_id().unwrap();
    let handle = first.allocate_resource::<TestResource>().unwrap();
    assert_eq!(request.get(), 1);
    assert!(first.owns(handle));
    assert!(manager.is_current(first.generation()));

    let second = manager.begin().unwrap();
    assert!(first.is_cancelled());
    assert!(!manager.is_current(first.generation()));
    assert!(manager.is_current(second.generation()));
    assert!(!second.owns(handle));
    assert_ne!(first.generation(), second.generation());
}

#[test]
fn close_cancels_all_clones() {
    let mut manager = DocumentSessionManager::new();
    let session = manager.begin().unwrap();
    let clone = session.clone();
    assert_eq!(manager.close(), Some(session.generation()));
    assert!(clone.is_cancelled());
    assert!(manager.current().is_none());
}

#[test]
fn requests_of_one_session_are_numbered_one_after_another() {
    let session = session();
    let clone = session.clone();
    assert_eq!(session.next_request_id().unwrap().get(), 1);
    assert_eq!(clone.next_request_id().unwrap().get(), 2);
    let text = session
        .text_demand(
            4,
            TextDemandPurpose::Copy,
            DemandPriority::interactive(),
            DemandIntent::Explicit,
        )
        .unwrap();
    assert_eq!(text.page(), 4);
    assert_eq!(text.stamp().request().get(), 3);
    assert_eq!(text.stamp().generation(), session.generation());
}

#[test]
fn exhausted_counters_say_so() {
    assert_eq!(
        AllocationError::RequestIdsExhausted.message(),
        "document request IDs exhausted"
    );
    assert_eq!(
        DemandError::Allocation(AllocationError::ResourceIdsExhausted).message(),
        "document resource IDs exhausted"
    );
    assert_eq!(
        SessionError::GenerationsExhausted.message(),
        "document generations exhausted"
    );
    assert_eq!(
        key_pdf::runtime::session::request_from_number(None),
        Err(AllocationError::RequestIdsExhausted)
    );
    assert_eq!(
        key_pdf::runtime::session::resource_from_number(None),
        Err(AllocationError::ResourceIdsExhausted)
    );
}

#[test]
fn a_popped_demand_hands_out_its_flag_and_its_value() {
    let mut queue = LatestWinsQueue::new(2);
    queue.schedule("a", DemandPriority::visible(), 7);
    let demand = queue.pop_next().unwrap();
    let source = demand.cancellation_source();
    assert!(!demand.cancellation().is_cancelled());
    source.cancel();
    assert!(demand.cancellation().is_cancelled());
    assert_eq!(demand.into_value(), 7);
}

#[test]
fn requests_and_resources_of_a_session_are_counted_apart() {
    let mut sessions = DocumentSessionManager::new();
    let session = sessions.begin().unwrap();
    let clone = session.clone();
    let first = session.allocate_resource::<u8>().unwrap();
    for expected in 1..=5 {
        let asked = if expected % 2 == 0 { &session } else { &clone };
        assert_eq!(asked.next_request_id().unwrap().get(), expected);
    }
    let second = clone.allocate_resource::<u16>().unwrap();
    assert_eq!(first.id().get(), 1);
    assert_eq!(second.id().get(), 2);
    assert_eq!(first.generation(), session.generation());
    assert_eq!(second.generation(), session.generation());
    let other = sessions.begin().unwrap();
    assert_eq!(other.next_request_id().unwrap().get(), 1);
}

#[test]
fn copies_of_a_demand_share_its_flag() {
    let mut queue = LatestWinsQueue::new(4);
    assert!(matches!(
        queue.schedule(1_u64, DemandPriority::visible(), "first"),
        ScheduleOutcome::Queued { .. }
    ));
    let demand = queue.pop_next().unwrap();
    let copy = demand.clone();
    let token = demand.cancellation();
    assert_eq!(copy, demand);
    assert!(!copy.is_cancelled());
    assert!(copy.cancel());
    assert!(!demand.cancel());
    assert!(demand.is_cancelled());
    assert!(token.is_cancelled());
    assert!(demand.cancellation_source().is_cancelled());
    assert!(queue.is_latest(&demand));
    assert_eq!(queue.finish(&demand), CompletionDisposition::Publish);
}

#[test]
fn a_copied_queue_goes_its_own_way() {
    let mut queue = LatestWinsQueue::new(2);
    assert!(matches!(
        queue.schedule(1_u64, DemandPriority::visible(), "one"),
        ScheduleOutcome::Queued { .. }
    ));
    let mut copy = queue.clone();
    assert_eq!(copy.capacity(), 2);
    assert_eq!(copy.len(), 1);
    let taken = copy.pop_next().unwrap();
    assert_eq!(*taken.value(), "one");
    assert_eq!(queue.len(), 1);
    assert!(taken.cancel());
    assert!(queue.pop_next().unwrap().is_cancelled());
}

#[test]
fn a_generation_is_current_until_its_session_is_ended() {
    let mut manager = DocumentSessionManager::new();
    let session = manager.begin().unwrap();
    let clone = session.clone();
    assert!(manager.is_current(session.generation()));
    assert!(clone.cancel());
    assert!(!manager.is_current(session.generation()));
    assert!(manager.current().is_some());
    let other = manager.begin().unwrap();
    assert!(manager.is_current(other.generation()));
    assert!(!manager.is_current(session.generation()));
}
