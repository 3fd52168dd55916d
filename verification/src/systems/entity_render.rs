use vstd::prelude::*;

use crate::camera::{camera_wf, Camera};
use crate::components::{Actor, DrawEntry};
use crate::geometry::Point;
use crate::store::EntityStore;

verus! {

/// The entity layer's draw list over the first `n` slots: one entry per
/// live entity, in slot order, at its position relative to the viewport.
pub open spec fn entity_draw_list(actors: Seq<Option<Actor>>, cam: Camera, n: int) -> Seq<
    DrawEntry,
>
    decreases n,
{
    if n <= 0 {
        Seq::empty()
    } else if actors[n - 1] is Some {
        entity_draw_list(actors, cam, n - 1).push(
            DrawEntry {
                pos: Point {
                    x: (actors[n - 1]->Some_0.pos.x - cam.left_x) as i32,
                    y: (actors[n - 1]->Some_0.pos.y - cam.top_y) as i32,
                },
                color: actors[n - 1]->Some_0.render.color,
                glyph: actors[n - 1]->Some_0.render.glyph,
            },
        )
    } else {
        entity_draw_list(actors, cam, n - 1)
    }
}

/// Produce the entity layer: every live entity's glyph and colours, in slot
/// order, positioned relative to the viewport. Drawn after the map layer;
/// the whole list is rebuilt each tick.
pub fn entity_render(store: &EntityStore, camera: &Camera) -> (out: Vec<DrawEntry>)
    requires
        forall|e: int| #[trigger] store.alive(e) ==> crate::map::spec_in_bounds(
            store.actor(e).pos,
        ),
        camera_wf(*camera),
    ensures
        out@ == entity_draw_list(store.actors@, *camera, store.actors@.len() as int),
{
    let mut out: Vec<DrawEntry> = Vec::new();
    let n = store.actors.len();
    let mut e: usize = 0;
    proof {
        let p0 = choose|p: Point|
            crate::map::spec_in_bounds(p) && *camera == crate::camera::spec_camera_on(p);
        assert(camera.left_x == p0.x - crate::DISPLAY_WIDTH / 2);
    }
    while e < n
        invariant
            e <= n,
            n == store.actors@.len(),
            camera_wf(*camera),
            forall|ee: int| #[trigger]
                store.alive(ee) ==> crate::map::spec_in_bounds(store.actor(ee).pos),
            out@ == entity_draw_list(store.actors@, *camera, e as int),
        decreases n - e,
    {
        let slot = store.actors[e];
        if let Some(a) = slot {
            proof {
                assert(store.alive(e as int));
                let p0 = choose|p: Point|
                    crate::map::spec_in_bounds(p) && *camera == crate::camera::spec_camera_on(p);
                assert(camera.left_x == p0.x - crate::DISPLAY_WIDTH / 2);
                assert(camera.top_y == p0.y - crate::DISPLAY_HEIGHT / 2);
            }
            out.push(
                DrawEntry {
                    pos: Point { x: a.pos.x - camera.left_x, y: a.pos.y - camera.top_y },
                    color: a.render.color,
                    glyph: a.render.glyph,
                },
            );
        }
        e = e + 1;
    }
    out
}

} // verus!
