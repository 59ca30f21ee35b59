use webcam_background::cache::{RenderSnapshot, WebcamImage, STARTUP_HEIGHT, STARTUP_WIDTH};
use webcam_background::drain::{LatestFrame, Webcam};
use webcam_background::frame::{rgb8_to_rgba8, RgbFrame, RgbaFrame};
use webcam_background::gpu::{
    background_sampler, quad_indices, quad_vertex_layout, AddressMode, BackgroundNode,
    DrawCommand, FilterMode, GpuResourceError, QUAD_INDEX_COUNT,
};
use webcam_background::graph::{splice_edits, EdgeEdit, StageGraph, WiringError};

fn rgb(width: u32, height: u32, fill: u8) -> RgbFrame {
    RgbFrame::from_raw(width, height, vec![fill; (3 * width * height) as usize]).unwrap()
}

fn snapshot_of(frame: RgbaFrame) -> RenderSnapshot {
    let mut cache = WebcamImage::new();
    cache.set(frame);
    cache.snapshot()
}

#[test]
fn from_raw_checks_length() {
    assert!(RgbFrame::from_raw(2, 2, vec![0; 12]).is_some());
    assert!(RgbFrame::from_raw(2, 2, vec![0; 11]).is_none());
    assert!(RgbFrame::from_raw(2, 2, vec![0; 16]).is_none());
    assert!(RgbaFrame::from_raw(2, 2, vec![0; 16]).is_some());
    assert!(RgbaFrame::from_raw(2, 2, vec![0; 12]).is_none());
    assert!(RgbFrame::from_raw(0, 5, vec![]).is_some());
}

#[test]
fn expansion_appends_opaque_alpha_per_pixel() {
    let data: Vec<u8> = (0..18u8).collect();
    let img = RgbFrame::from_raw(3, 2, data.clone()).unwrap();
    let out = rgb8_to_rgba8(img);
    assert_eq!(out.width(), 3);
    assert_eq!(out.height(), 2);
    let bytes = out.as_bytes();
    assert_eq!(bytes.len(), 24);
    for p in 0..6 {
        assert_eq!(bytes[4 * p], data[3 * p]);
        assert_eq!(bytes[4 * p + 1], data[3 * p + 1]);
        assert_eq!(bytes[4 * p + 2], data[3 * p + 2]);
        assert_eq!(bytes[4 * p + 3], 255);
    }
}

#[test]
fn expansion_of_a_single_pixel() {
    let img = RgbFrame::from_raw(1, 1, vec![10, 20, 30]).unwrap();
    assert_eq!(rgb8_to_rgba8(img).into_raw(), vec![10, 20, 30, 255]);
}

#[test]
fn expansion_of_an_empty_frame() {
    let img = RgbFrame::from_raw(0, 0, vec![]).unwrap();
    let out = rgb8_to_rgba8(img);
    assert!(out.as_bytes().is_empty());
}

#[test]
fn blank_frame_is_all_zero() {
    let f = RgbaFrame::blank(3, 2);
    assert_eq!(f.into_raw(), vec![0u8; 24]);
}

#[test]
fn latest_frame_keeps_the_last_offer() {
    let mut latest = LatestFrame::new();
    latest.offer(rgb(1, 1, 1));
    latest.offer(rgb(1, 1, 2));
    latest.offer(rgb(2, 1, 3));
    let kept = latest.take().unwrap();
    assert_eq!(kept.width(), 2);
    assert_eq!(kept.as_bytes(), &[3u8; 6][..]);
    assert!(LatestFrame::new().take().is_none());
}

#[test]
fn drain_keeps_the_last_frame_pushed() {
    let (tx, rx) = crossbeam_channel::unbounded();
    for fill in 1..=5u8 {
        tx.send(rgb(2, 2, fill)).unwrap();
    }
    let mut webcam = Webcam::new(rx);
    let got = webcam.drain_latest().unwrap();
    assert_eq!(got.as_bytes(), &[5u8; 12][..]);
    assert!(webcam.receiver().is_empty());
    assert!(webcam.drain_latest().is_none());
}

#[test]
fn drain_leaves_frames_sent_after_it_for_the_next_one() {
    let (tx, rx) = crossbeam_channel::unbounded();
    let mut webcam = Webcam::new(rx);
    tx.send(rgb(1, 1, 1)).unwrap();
    assert_eq!(webcam.drain_latest().unwrap().as_bytes(), &[1u8, 1, 1][..]);
    tx.send(rgb(1, 1, 2)).unwrap();
    tx.send(rgb(1, 1, 3)).unwrap();
    assert_eq!(webcam.drain_latest().unwrap().as_bytes(), &[3u8, 3, 3][..]);
    assert!(webcam.drain_latest().is_none());
}

#[test]
fn drain_of_an_empty_channel_yields_nothing() {
    let (_tx, rx) = crossbeam_channel::unbounded::<RgbFrame>();
    let mut webcam = Webcam::new(rx);
    assert!(webcam.drain_latest().is_none());
}

#[test]
fn drain_after_senders_are_gone_still_yields_queued_frames() {
    let (tx, rx) = crossbeam_channel::unbounded();
    tx.send(rgb(1, 1, 7)).unwrap();
    drop(tx);
    let mut webcam = Webcam::new(rx);
    let got = webcam.drain_latest().unwrap();
    assert_eq!(got.as_bytes(), &[7u8, 7, 7][..]);
    assert!(webcam.drain_latest().is_none());
}

#[test]
fn webcam_drain_then_cache_holds_expanded_last_frame() {
    let (tx, receiver) = crossbeam_channel::unbounded();
    let mut webcam = Webcam::new(receiver);
    let mut cache = WebcamImage::new();
    tx.send(rgb(1, 2, 9)).unwrap();
    tx.send(rgb(2, 1, 4)).unwrap();
    cache.apply_drain(webcam.drain_latest());
    assert_eq!(cache.latest().width(), 2);
    assert_eq!(cache.latest().height(), 1);
    assert_eq!(cache.latest().as_bytes(), &[4u8, 4, 4, 255, 4, 4, 4, 255][..]);
}

#[test]
fn cache_starts_blank_640_by_480() {
    let cache = WebcamImage::new();
    assert_eq!(STARTUP_WIDTH, 640);
    assert_eq!(STARTUP_HEIGHT, 480);
    assert_eq!(cache.latest().width(), 640);
    assert_eq!(cache.latest().height(), 480);
    assert_eq!(cache.latest().as_bytes().len(), 640 * 480 * 4);
    assert!(cache.latest().as_bytes().iter().all(|b| *b == 0));
}

#[test]
fn drain_with_no_frame_leaves_cache_unchanged() {
    let mut cache = WebcamImage::new();
    cache.apply_drain(Some(rgb(1, 1, 8)));
    cache.apply_drain(None);
    assert_eq!(cache.latest().as_bytes(), &[8u8, 8, 8, 255][..]);
}

#[test]
fn snapshot_copies_the_cached_frame() {
    let mut cache = WebcamImage::new();
    cache.apply_drain(Some(rgb(2, 1, 3)));
    let snap = cache.snapshot();
    cache.apply_drain(Some(rgb(1, 1, 6)));
    assert_eq!(snap.frame().width(), 2);
    assert_eq!(snap.frame().as_bytes(), &[3u8, 3, 3, 255, 3, 3, 3, 255][..]);
    assert_eq!(cache.latest().as_bytes(), &[6u8, 6, 6, 255][..]);
}

#[test]
fn quad_geometry_constants() {
    assert_eq!(quad_indices(), vec![0u16, 1, 2, 2, 1, 3]);
    assert_eq!(QUAD_INDEX_COUNT, 6);
    let layout = quad_vertex_layout();
    assert_eq!(layout.array_stride, 20);
    assert_eq!(layout.position.offset, 0);
    assert_eq!(layout.position.shader_location, 0);
    assert_eq!(layout.position.components, 3);
    assert_eq!(layout.tex_coords.offset, 12);
    assert_eq!(layout.tex_coords.shader_location, 1);
    assert_eq!(layout.tex_coords.components, 2);
}

#[test]
fn sampler_policy_is_fixed() {
    let s = background_sampler();
    assert_eq!(s.address_mode, AddressMode::ClampToEdge);
    assert_eq!(s.mag_filter, FilterMode::Linear);
    assert_eq!(s.min_filter, FilterMode::Nearest);
    assert_eq!(s.mipmap_filter, FilterMode::Nearest);
}

#[test]
fn geometry_is_created_only_on_the_first_update() {
    let mut node = BackgroundNode::new();
    let mut creations = 0;
    for i in 1..=5u32 {
        let plan = node.update(&snapshot_of(RgbaFrame::blank(i, i))).unwrap();
        if plan.create_geometry {
            creations += 1;
        }
        assert!(plan.create_bound_set);
    }
    assert_eq!(creations, 1);
}

#[test]
fn texture_follows_the_latest_snapshot() {
    let mut node = BackgroundNode::new();
    let first = node.update(&snapshot_of(RgbaFrame::blank(640, 480))).unwrap();
    assert_eq!(first.texture.width, 640);
    assert_eq!(first.texture.height, 480);
    assert_eq!(first.texture.bytes_per_row, 2560);
    assert_eq!(first.texture.rows_per_image, 480);
    let second = node.update(&snapshot_of(RgbaFrame::blank(320, 200))).unwrap();
    assert_eq!(second.texture.width, 320);
    assert_eq!(second.texture.height, 200);
    assert_eq!(second.texture.bytes_per_row, 1280);
    assert!(!second.create_geometry);
}

#[test]
fn update_refuses_rows_wider_than_the_layout() {
    let mut node = BackgroundNode::new();
    let wide = RgbaFrame::from_raw(1 << 30, 0, vec![]).unwrap();
    assert_eq!(node.update(&snapshot_of(wide)), Err(GpuResourceError::RowTooWide));
    assert!(node.draw_plan(1).is_empty());
    let fits = RgbaFrame::from_raw((1 << 30) - 1, 0, vec![]).unwrap();
    assert_eq!(node.update(&snapshot_of(fits)).unwrap().texture.bytes_per_row, u32::MAX - 3);
}

#[test]
fn no_draw_before_the_first_update() {
    let node = BackgroundNode::new();
    assert!(node.draw_plan(3).is_empty());
}

#[test]
fn one_quad_draw_per_target_once_ready() {
    let mut node = BackgroundNode::new();
    node.update(&snapshot_of(RgbaFrame::blank(2, 2))).unwrap();
    let draws = node.draw_plan(3);
    assert_eq!(draws.len(), 3);
    for d in draws {
        assert_eq!(
            d,
            DrawCommand {
                load_existing: true,
                first_index: 0,
                index_count: 6,
                base_vertex: 0,
                instance_count: 1
            }
        );
    }
    assert!(node.draw_plan(0).is_empty());
}

#[test]
fn blank_capture_end_to_end() {
    let (tx, receiver) = crossbeam_channel::unbounded();
    let mut webcam = Webcam::new(receiver);
    tx.send(RgbFrame::from_raw(640, 480, vec![0u8; 640 * 480 * 3]).unwrap()).unwrap();
    let mut cache = WebcamImage::new();
    cache.apply_drain(webcam.drain_latest());
    let snap = cache.snapshot();
    let bytes = snap.frame().as_bytes();
    assert_eq!(snap.frame().width(), 640);
    assert_eq!(snap.frame().height(), 480);
    assert_eq!(bytes.len(), 640 * 480 * 4);
    for p in 0..640 * 480 {
        assert_eq!(&bytes[4 * p..4 * p + 4], &[0u8, 0, 0, 255][..]);
    }
    let mut node = BackgroundNode::new();
    node.update(&snap).unwrap();
    let draws = node.draw_plan(1);
    assert_eq!(draws.len(), 1);
    assert_eq!(draws[0].index_count, 6);
    assert!(draws[0].load_existing);
}

#[test]
fn silent_capture_keeps_startup_frame() {
    let (_tx, receiver) = crossbeam_channel::unbounded::<RgbFrame>();
    let mut webcam = Webcam::new(receiver);
    let mut cache = WebcamImage::new();
    let mut node = BackgroundNode::new();
    for _ in 0..50 {
        cache.apply_drain(webcam.drain_latest());
        let snap = cache.snapshot();
        assert_eq!(snap.frame().width(), 640);
        assert_eq!(snap.frame().height(), 480);
        assert!(snap.frame().as_bytes().iter().all(|b| *b == 0));
        node.update(&snap).unwrap();
        assert_eq!(node.draw_plan(1).len(), 1);
    }
}

const CLEAR: u64 = 1;
const DEPS: u64 = 2;
const MAIN: u64 = 3;
const UI: u64 = 4;
const BG: u64 = 10;

fn host_graph() -> StageGraph {
    let mut g = StageGraph::new();
    for s in [CLEAR, DEPS, MAIN, UI] {
        g.add_stage(s).unwrap();
    }
    g.add_edge(CLEAR, MAIN).unwrap();
    g.add_edge(DEPS, MAIN).unwrap();
    g.add_edge(MAIN, UI).unwrap();
    g
}

#[test]
fn splice_reroutes_through_the_compositing_stage() {
    let mut g = host_graph();
    assert_eq!(g.splice(CLEAR, DEPS, MAIN, BG), Ok(()));
    assert!(g.has_stage(BG));
    assert!(g.has_edge(CLEAR, BG));
    assert!(g.has_edge(DEPS, BG));
    assert!(g.has_edge(BG, MAIN));
    assert!(!g.has_edge(CLEAR, MAIN));
    assert!(!g.has_edge(DEPS, MAIN));
    assert!(g.has_edge(MAIN, UI));
}

#[test]
fn splice_edits_in_order() {
    assert_eq!(
        splice_edits(CLEAR, DEPS, MAIN, BG),
        vec![
            EdgeEdit::Add(CLEAR, BG),
            EdgeEdit::Add(DEPS, BG),
            EdgeEdit::Add(BG, MAIN),
            EdgeEdit::Remove(CLEAR, MAIN),
            EdgeEdit::Remove(DEPS, MAIN),
        ]
    );
}

#[test]
fn splice_errors_leave_graph_unchanged() {
    let mut g = host_graph();
    assert_eq!(g.splice(CLEAR, DEPS, MAIN, UI), Err(WiringError::StageExists(UI)));
    assert_eq!(g.splice(99, DEPS, MAIN, BG), Err(WiringError::UnknownStage(99)));
    assert_eq!(g.splice(CLEAR, 99, MAIN, BG), Err(WiringError::UnknownStage(99)));
    assert_eq!(g.splice(CLEAR, DEPS, 99, BG), Err(WiringError::UnknownStage(99)));
    assert_eq!(g.splice(CLEAR, CLEAR, MAIN, BG), Err(WiringError::EdgeExists(CLEAR, BG)));
    assert_eq!(g.splice(CLEAR, UI, MAIN, BG), Err(WiringError::EdgeMissing(UI, MAIN)));
    assert_eq!(g.splice(UI, DEPS, MAIN, BG), Err(WiringError::EdgeMissing(UI, MAIN)));
    assert!(!g.has_stage(BG));
    assert!(g.has_edge(CLEAR, MAIN));
    assert!(g.has_edge(DEPS, MAIN));
    assert_eq!(g.splice(CLEAR, DEPS, MAIN, BG), Ok(()));
    assert_eq!(g.splice(CLEAR, DEPS, MAIN, 11), Err(WiringError::EdgeMissing(CLEAR, MAIN)));
}

#[test]
fn edge_edits_report_their_errors() {
    let mut g = host_graph();
    assert_eq!(g.add_stage(CLEAR), Err(WiringError::StageExists(CLEAR)));
    assert_eq!(g.add_edge(CLEAR, 42), Err(WiringError::UnknownStage(42)));
    assert_eq!(g.add_edge(42, CLEAR), Err(WiringError::UnknownStage(42)));
    assert_eq!(g.add_edge(CLEAR, MAIN), Err(WiringError::EdgeExists(CLEAR, MAIN)));
    assert_eq!(g.remove_edge(MAIN, CLEAR), Err(WiringError::EdgeMissing(MAIN, CLEAR)));
    assert_eq!(g.remove_edge(42, CLEAR), Err(WiringError::UnknownStage(42)));
    assert_eq!(g.remove_edge(CLEAR, MAIN), Ok(()));
    assert!(!g.has_edge(CLEAR, MAIN));
    assert_eq!(g.add_edge(CLEAR, MAIN), Ok(()));
    assert!(g.has_edge(CLEAR, MAIN));
}
