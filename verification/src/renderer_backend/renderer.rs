use std::collections::HashMap;
use vstd::prelude::*;

verus! {

broadcast use vstd::std_specs::hash::group_hash_axioms;

/// Which scene the renderer draws.
#[derive(PartialEq, Eq, Structural, Debug, Clone, Copy)]
pub enum ViewSelector {
    MapView,
    Lava,
    World3d,
}

impl ViewSelector {
    /// The position of the view in the cycle `MapView`, `Lava`, `World3d`.
    pub open spec fn position(self) -> int {
        match self {
            ViewSelector::MapView => 0,
            ViewSelector::Lava => 1,
            ViewSelector::World3d => 2,
        }
    }

    /// The view at `position` in the cycle, taken modulo its length.
    pub open spec fn at_position(position: int) -> ViewSelector {
        let p = position % 3;
        if p == 0 {
            ViewSelector::MapView
        } else if p == 1 {
            ViewSelector::Lava
        } else {
            ViewSelector::World3d
        }
    }

    /// The next view, wrapping from the last to the first.
    pub fn next_cycle(&self) -> (next: ViewSelector)
        ensures
            next == ViewSelector::at_position(self.position() + 1),
            *self == ViewSelector::MapView ==> next == ViewSelector::Lava,
            *self == ViewSelector::Lava ==> next == ViewSelector::World3d,
            *self == ViewSelector::World3d ==> next == ViewSelector::MapView,
    {
        match self {
            ViewSelector::MapView => ViewSelector::Lava,
            ViewSelector::Lava => ViewSelector::World3d,
            ViewSelector::World3d => ViewSelector::MapView,
        }
    }

    /// The previous view, wrapping from the first to the last.
    pub fn previous_cycle(&self) -> (previous: ViewSelector)
        ensures
            previous == ViewSelector::at_position(self.position() + 2),
            *self == ViewSelector::MapView ==> previous == ViewSelector::World3d,
            *self == ViewSelector::Lava ==> previous == ViewSelector::MapView,
            *self == ViewSelector::World3d ==> previous == ViewSelector::Lava,
    {
        match self {
            ViewSelector::MapView => ViewSelector::World3d,
            ViewSelector::Lava => ViewSelector::MapView,
            ViewSelector::World3d => ViewSelector::Lava,
        }
    }
}

/// Stepping back undoes stepping forward, and the other way round; three steps in
/// one direction come back to the start.
pub proof fn lemma_view_cycle(v: ViewSelector)
    ensures
        ViewSelector::at_position(ViewSelector::at_position(v.position() + 1).position() + 2) == v,
        ViewSelector::at_position(ViewSelector::at_position(v.position() + 2).position() + 1) == v,
        ViewSelector::at_position(v.position() + 3) == v,
        ViewSelector::at_position(v.position()) == v,
{
}

/// The surface size to configure for a framebuffer of `new_size` pixels: `None` while
/// either side is not positive (a minimised window), when the surface keeps its size.
pub fn resize_target(new_size: (i32, i32)) -> (size: Option<(u32, u32)>)
    ensures
        size == (if new_size.0 > 0 && new_size.1 > 0 {
            Some((new_size.0 as u32, new_size.1 as u32))
        } else {
            None
        }),
{
    if new_size.0 > 0 && new_size.1 > 0 {
        Some((new_size.0 as u32, new_size.1 as u32))
    } else {
        None
    }
}

/// The renderer's meshes, textures and fonts, each under an id that the store hands
/// out; the three kinds share one id space.
pub struct Resources<M, T, F> {
    meshes: HashMap<usize, M>,
    textures: HashMap<usize, T>,
    fonts: HashMap<usize, F>,
    next_resource_id: usize,
}

impl<M, T, F> Resources<M, T, F> {
    /// The meshes, by id.
    pub closed spec fn mesh_map(&self) -> Map<usize, M> {
        self.meshes@
    }

    /// The textures, by id.
    pub closed spec fn texture_map(&self) -> Map<usize, T> {
        self.textures@
    }

    /// The fonts, by id.
    pub closed spec fn font_map(&self) -> Map<usize, F> {
        self.fonts@
    }

    /// The id that the next resource gets.
    pub closed spec fn next_id(&self) -> usize {
        self.next_resource_id
    }

    /// Every id in use is below the next id, and no id names two resources.
    pub open spec fn wf(&self) -> bool {
        &&& forall|id: usize| #[trigger] self.mesh_map().dom().contains(id) ==> id < self.next_id()
        &&& forall|id: usize| #[trigger] self.texture_map().dom().contains(id) ==> id < self.next_id()
        &&& forall|id: usize| #[trigger] self.font_map().dom().contains(id) ==> id < self.next_id()
        &&& forall|id: usize|
            !(#[trigger] self.mesh_map().dom().contains(id) && self.texture_map().dom().contains(id))
        &&& forall|id: usize|
            !(#[trigger] self.mesh_map().dom().contains(id) && self.font_map().dom().contains(id))
        &&& forall|id: usize|
            !(#[trigger] self.texture_map().dom().contains(id) && self.font_map().dom().contains(id))
    }

    /// An empty store; the first id handed out is 0.
    pub fn new() -> (store: Self)
        ensures
            store.wf(),
            store.mesh_map() == Map::<usize, M>::empty(),
            store.texture_map() == Map::<usize, T>::empty(),
            store.font_map() == Map::<usize, F>::empty(),
            store.next_id() == 0,
    {
        Resources {
            meshes: HashMap::new(),
            textures: HashMap::new(),
            fonts: HashMap::new(),
            next_resource_id: 0,
        }
    }

    /// The id that the next resource gets.
    pub fn peek_next_id(&self) -> (id: usize)
        ensures
            id == self.next_id(),
    {
        self.next_resource_id
    }

    /// Stores `mesh` under a fresh id and returns the id.
    pub fn spawn_mesh(&mut self, mesh: M) -> (id: usize)
        requires
            old(self).wf(),
            old(self).next_id() < usize::MAX,
        ensures
            final(self).wf(),
            id == old(self).next_id(),
            final(self).next_id() == old(self).next_id() + 1,
            !old(self).mesh_map().dom().contains(id),
            final(self).mesh_map() == old(self).mesh_map().insert(id, mesh),
            final(self).texture_map() == old(self).texture_map(),
            final(self).font_map() == old(self).font_map(),
    {
        let id = self.next_resource_id;
        proof {
            lemma_next_id_is_fresh(*self);
        }
        self.next_resource_id = self.next_resource_id + 1;
        self.meshes.insert(id, mesh);
        id
    }

    /// Stores `texture` under a fresh id and returns the id.
    pub fn add_texture(&mut self, texture: T) -> (id: usize)
        requires
            old(self).wf(),
            old(self).next_id() < usize::MAX,
        ensures
            final(self).wf(),
            id == old(self).next_id(),
            final(self).next_id() == old(self).next_id() + 1,
            !old(self).texture_map().dom().contains(id),
            final(self).texture_map() == old(self).texture_map().insert(id, texture),
            final(self).mesh_map() == old(self).mesh_map(),
            final(self).font_map() == old(self).font_map(),
    {
        let id = self.next_resource_id;
        proof {
            lemma_next_id_is_fresh(*self);
        }
        self.next_resource_id = self.next_resource_id + 1;
        self.textures.insert(id, texture);
        id
    }

    /// Stores `font` under a fresh id and returns the id.
    pub fn add_font(&mut self, font: F) -> (id: usize)
        requires
            old(self).wf(),
            old(self).next_id() < usize::MAX,
        ensures
            final(self).wf(),
            id == old(self).next_id(),
            final(self).next_id() == old(self).next_id() + 1,
            !old(self).font_map().dom().contains(id),
            final(self).font_map() == old(self).font_map().insert(id, font),
            final(self).mesh_map() == old(self).mesh_map(),
            final(self).texture_map() == old(self).texture_map(),
    {
        let id = self.next_resource_id;
        proof {
            lemma_next_id_is_fresh(*self);
        }
        self.next_resource_id = self.next_resource_id + 1;
        self.fonts.insert(id, font);
        id
    }

    /// The mesh stored under `id`, if any.
    pub fn mesh(&self, id: usize) -> (mesh: Option<&M>)
        ensures
            mesh == (if self.mesh_map().dom().contains(id) {
                Some(&self.mesh_map()[id])
            } else {
                None
            }),
    {
        self.meshes.get(&id)
    }

    /// The texture stored under `id`, if any.
    pub fn texture(&self, id: usize) -> (texture: Option<&T>)
        ensures
            texture == (if self.texture_map().dom().contains(id) {
                Some(&self.texture_map()[id])
            } else {
                None
            }),
    {
        self.textures.get(&id)
    }

    /// The font stored under `id`, if any.
    pub fn font(&self, id: usize) -> (font: Option<&F>)
        ensures
            font == (if self.font_map().dom().contains(id) {
                Some(&self.font_map()[id])
            } else {
                None
            }),
    {
        self.fonts.get(&id)
    }
}

/// The id that a well-formed store hands out next names no mesh, texture or font, so
/// a new resource never shadows one already stored.
pub proof fn lemma_next_id_is_fresh<M, T, F>(store: Resources<M, T, F>)
    requires
        store.wf(),
    ensures
        !store.mesh_map().dom().contains(store.next_id()),
        !store.texture_map().dom().contains(store.next_id()),
        !store.font_map().dom().contains(store.next_id()),
{
}

/// One drawing pass of a frame.
#[derive(PartialEq, Eq, Structural, Debug, Clone, Copy)]
pub enum DrawStep {
    /// The map shader over a full-screen quad.
    MapQuad,
    /// The lava-lamp shader over a full-screen quad.
    LavaQuad,
    /// The 3D world, straight onto the screen.
    World3dToScreen,
    /// The 3D world, into the intermediate texture.
    World3dToIntermediate,
    /// The circles of the frame's draw commands.
    Circles,
    /// The characters of the frame's draw commands.
    Ui,
}

/// The passes that draw one frame of `view` in a window of `window_size` pixels:
/// `None` when the window has no area (nothing is drawn or presented); in wireframe
/// mode the 3D world goes straight to the screen, otherwise into the intermediate
/// texture, followed by the circles and the text.
pub open spec fn frame_steps(view: ViewSelector, draw_wireframes: bool, window_size: (i32, i32)) -> Option<
    Seq<DrawStep>,
> {
    if window_size.0 == 0 || window_size.1 == 0 {
        None
    } else {
        Some(
            match view {
                ViewSelector::MapView => seq![DrawStep::MapQuad],
                ViewSelector::Lava => seq![DrawStep::LavaQuad],
                ViewSelector::World3d => if draw_wireframes {
                    seq![DrawStep::World3dToScreen]
                } else {
                    seq![DrawStep::World3dToIntermediate, DrawStep::Circles, DrawStep::Ui]
                },
            },
        )
    }
}

/// The wireframe switch only matters in the 3D world view, and a window without area
/// draws nothing: for a window with area the map view draws the map quad alone and
/// the lava view the lava quad alone, wireframes or not; the 3D view draws the world
/// straight to the screen in wireframe mode and otherwise through the intermediate
/// texture, then the circles, then the text.
pub proof fn lemma_frame_steps_by_view(w: bool, size: (i32, i32))
    ensures
        size.0 == 0 || size.1 == 0 ==> frame_steps(ViewSelector::MapView, w, size) is None
            && frame_steps(ViewSelector::Lava, w, size) is None && frame_steps(
            ViewSelector::World3d,
            w,
            size,
        ) is None,
        size.0 != 0 && size.1 != 0 ==> {
            &&& frame_steps(ViewSelector::MapView, w, size) == Some(seq![DrawStep::MapQuad])
            &&& frame_steps(ViewSelector::Lava, w, size) == Some(seq![DrawStep::LavaQuad])
            &&& frame_steps(ViewSelector::World3d, true, size) == Some(
                seq![DrawStep::World3dToScreen],
            )
            &&& frame_steps(ViewSelector::World3d, false, size) == Some(
                seq![DrawStep::World3dToIntermediate, DrawStep::Circles, DrawStep::Ui],
            )
        },
{
}

/// The drawing passes of one frame, in order; `None` when the window has no area.
pub fn render_plan(view: ViewSelector, draw_wireframes: bool, window_size: (i32, i32)) -> (steps:
    Option<Vec<DrawStep>>)
    ensures
        match steps {
            Some(v) => frame_steps(view, draw_wireframes, window_size) == Some(v@),
            None => frame_steps(view, draw_wireframes, window_size) is None,
        },
{
    if window_size.0 == 0 || window_size.1 == 0 {
        return None;
    }
    let mut steps: Vec<DrawStep> = Vec::new();
    match view {
        ViewSelector::MapView => steps.push(DrawStep::MapQuad),
        ViewSelector::Lava => steps.push(DrawStep::LavaQuad),
        ViewSelector::World3d => {
            if draw_wireframes {
                steps.push(DrawStep::World3dToScreen);
            } else {
                steps.push(DrawStep::World3dToIntermediate);
                steps.push(DrawStep::Circles);
                steps.push(DrawStep::Ui);
            }
        },
    }
    assert(frame_steps(view, draw_wireframes, window_size) == Some(steps@));
    Some(steps)
}

} // verus!
