use livesplit_gpu::arena::Arena;
use livesplit_gpu::surface::{AcquireOutcome, AfterAcquire, FrameStart, SurfaceState};
use livesplit_gpu::texture::plan_texture;
use livesplit_gpu::frame::{
    uniform_corner_order, DrawError, Frame, MeshHandle, Pipeline, ResourceCache, TextureHandle,
};

#[test]
fn arena_issues_fresh_handles_after_free() {
    let mut arena: Arena<&str> = Arena::new();
    let a = arena.insert("a");
    let b = arena.insert("b");
    assert_ne!(a, b);
    assert_eq!(arena.get(a), Some(&"a"));
    assert_eq!(arena.remove(a), Some("a"));
    assert_eq!(arena.get(a), None);
    assert_eq!(arena.remove(a), None);
    let c = arena.insert("c");
    assert_eq!(c.index, a.index);
    assert_ne!(c, a);
    assert_eq!(arena.get(a), None);
    assert_eq!(arena.get(c), Some(&"c"));
    assert!(arena.contains(b));
}

#[test]
fn zero_index_mesh_is_one_empty_draw() {
    let mut cache: ResourceCache<(), ()> = ResourceCache::new();
    let mesh = cache.create_mesh(None, 0);
    let mut frame: Frame<u8, (u32, u32)> = Frame::new();
    assert_eq!(frame.render_mesh(&cache, mesh, None, 7), Ok(()));
    let calls = frame.draw_calls();
    assert_eq!(calls.len(), 1);
    assert_eq!(calls[0].index_count, 0);
    assert_eq!(calls[0].mesh, mesh);
    assert_eq!(calls[0].pipeline, Pipeline::Colored);
    assert_eq!(cache.mesh_buffers(mesh), None);
}

#[test]
fn mesh_draw_covers_all_indices() {
    let mut cache: ResourceCache<&str, ()> = ResourceCache::new();
    let mesh = cache.create_mesh(Some("buffers"), 6);
    assert_eq!(cache.mesh(mesh).map(|m| m.index_count), Some(6));
    let mut frame: Frame<(), (u32, u32)> = Frame::new();
    assert_eq!(frame.render_mesh(&cache, mesh, None, ()), Ok(()));
    assert_eq!(frame.draw_calls().len(), 1);
    assert_eq!(frame.draw_calls()[0].index_count, 6);
}

#[test]
fn textured_draw_uses_textured_pipeline() {
    let mut cache: ResourceCache<(), &str> = ResourceCache::new();
    let mesh = cache.create_mesh(Some(()), 6);
    let texture = cache.create_texture("red");
    assert_eq!(cache.texture(texture), Some(&"red"));
    let mut frame: Frame<(), (u32, u32)> = Frame::new();
    assert_eq!(frame.render_mesh(&cache, mesh, Some(texture), ()), Ok(()));
    assert_eq!(frame.draw_calls()[0].pipeline, Pipeline::Textured);
    assert_eq!(frame.draw_calls()[0].texture, Some(texture));
}

#[test]
fn draws_keep_scene_order() {
    let mut cache: ResourceCache<(), ()> = ResourceCache::new();
    let a = cache.create_mesh(Some(()), 6);
    let b = cache.create_mesh(Some(()), 12);
    let mut frame: Frame<&str, (u32, u32)> = Frame::new();
    assert_eq!(frame.render_mesh(&cache, a, None, "under"), Ok(()));
    assert_eq!(frame.render_mesh(&cache, b, None, "over"), Ok(()));
    let calls = frame.draw_calls();
    assert_eq!(calls.len(), 2);
    assert_eq!(calls[0].mesh, a);
    assert_eq!(calls[0].bindings, "under");
    assert_eq!(calls[1].mesh, b);
    assert_eq!(calls[1].bindings, "over");
    cache.end_frame(&mut frame);
    assert!(frame.draw_calls().is_empty());
}

#[test]
fn freed_mesh_is_refused() {
    let mut cache: ResourceCache<&str, ()> = ResourceCache::new();
    let mesh = cache.create_mesh(Some("buffers"), 3);
    assert!(cache.free_mesh(mesh));
    assert!(!cache.free_mesh(mesh));
    assert!(cache.mesh(mesh).is_none());
    let mut frame: Frame<(), (u32, u32)> = Frame::new();
    assert_eq!(frame.render_mesh(&cache, mesh, None, ()), Err(DrawError::UnknownMesh));
    assert!(frame.draw_calls().is_empty());
}

#[test]
fn freed_texture_is_refused() {
    let mut cache: ResourceCache<(), &str> = ResourceCache::new();
    let mesh = cache.create_mesh(Some(()), 3);
    let texture = cache.create_texture("t");
    assert_eq!(cache.free_texture(texture), Some("t"));
    assert_eq!(cache.texture(texture), None);
    let mut frame: Frame<(), (u32, u32)> = Frame::new();
    assert_eq!(
        frame.render_mesh(&cache, mesh, Some(texture), ()),
        Err(DrawError::UnknownTexture)
    );
    assert!(frame.draw_calls().is_empty());
}

#[test]
fn mesh_handle_is_not_a_texture_handle() {
    let mut cache: ResourceCache<(), ()> = ResourceCache::new();
    let mesh = cache.create_mesh(Some(()), 3);
    let as_texture = TextureHandle(mesh.0);
    let mut frame: Frame<(), (u32, u32)> = Frame::new();
    assert_eq!(
        frame.render_mesh(&cache, mesh, Some(as_texture), ()),
        Err(DrawError::UnknownTexture)
    );
    assert_eq!(
        frame.render_mesh(&cache, MeshHandle(as_texture.0), None, ()),
        Ok(())
    );
}

#[test]
fn last_resize_hint_wins() {
    let mut frame: Frame<(), (u32, u32)> = Frame::new();
    assert_eq!(frame.take_resize_hint(), None);
    frame.request_resize((300, 400));
    frame.request_resize((300, 520));
    assert_eq!(frame.take_resize_hint(), Some((300, 520)));
    assert_eq!(frame.take_resize_hint(), None);
}

#[test]
fn corner_colors_in_uniform_order() {
    assert_eq!(uniform_corner_order(['a', 'b', 'c', 'd']), ['a', 'b', 'd', 'c']);
}

#[test]
fn full_target_textured_quad_records_one_textured_draw() {
    let (surface, _) = SurfaceState::new(300, 500);
    assert_eq!(surface.begin_frame(), FrameStart::Acquire);
    assert_eq!(surface.after_acquire(AcquireOutcome::Acquired), AfterAcquire::Draw);
    let red = [255u8, 0, 0, 255].repeat(4);
    let layout = plan_texture(2, 2, red.len()).unwrap();
    assert_eq!(layout.mip_level_count, 2);
    let mut cache: ResourceCache<&str, &str> = ResourceCache::new();
    let quad = cache.create_mesh(Some("quad"), 6);
    assert_eq!(cache.mesh_buffers(quad), Some(&"quad"));
    let texture = cache.create_texture("red");
    let white = [[1u8; 4]; 4];
    let mut frame: Frame<[[u8; 4]; 4], (u32, u32)> = Frame::new();
    assert_eq!(frame.render_mesh(&cache, quad, Some(texture), uniform_corner_order(white)), Ok(()));
    let calls = frame.draw_calls();
    assert_eq!(calls.len(), 1);
    assert_eq!(calls[0].pipeline, Pipeline::Textured);
    assert_eq!(calls[0].index_count, 6);
    assert_eq!(calls[0].texture, Some(texture));
    assert_eq!(calls[0].bindings, white);
    assert_eq!(frame.take_resize_hint(), None);
}

#[test]
fn draw_recorded_before_free_is_still_drawn() {
    let mut cache: ResourceCache<&str, ()> = ResourceCache::new();
    let mut frame: Frame<(), (u32, u32)> = Frame::new();
    let line = cache.create_mesh(Some("line"), 6);
    assert_eq!(frame.render_mesh(&cache, line, None, ()), Ok(()));
    assert!(cache.free_mesh(line));
    let point = cache.create_mesh(Some("point"), 3);
    assert_eq!(frame.render_mesh(&cache, point, None, ()), Ok(()));
    assert!(cache.free_mesh(point));
    let calls = frame.draw_calls();
    assert_eq!(calls.len(), 2);
    assert_eq!(cache.mesh_buffers(calls[0].mesh), Some(&"line"));
    assert_eq!(cache.mesh_buffers(calls[1].mesh), Some(&"point"));
    assert_eq!(frame.render_mesh(&cache, line, None, ()), Err(DrawError::UnknownMesh));
    cache.end_frame(&mut frame);
    assert!(frame.draw_calls().is_empty());
    assert_eq!(cache.mesh_buffers(line), None);
    assert_eq!(cache.mesh_buffers(point), None);
}

#[test]
fn end_frame_keeps_live_meshes_and_hint() {
    let mut cache: ResourceCache<&str, ()> = ResourceCache::new();
    let mut frame: Frame<(), (u32, u32)> = Frame::new();
    let kept = cache.create_mesh(Some("kept"), 6);
    let dropped = cache.create_mesh(Some("dropped"), 6);
    assert!(cache.free_mesh(dropped));
    frame.request_resize((1, 2));
    cache.end_frame(&mut frame);
    assert_eq!(cache.mesh_buffers(kept), Some(&"kept"));
    assert_eq!(cache.mesh(kept).map(|m| m.index_count), Some(6));
    assert_eq!(cache.mesh_buffers(dropped), None);
    assert_eq!(frame.take_resize_hint(), Some((1, 2)));
    let again = cache.create_mesh(Some("again"), 3);
    assert_ne!(again, dropped);
    assert_eq!(cache.mesh_buffers(dropped), None);
}
