//! The outputs the wallpaper backend knows and the surface it draws on each:
//! their sizes, scales, whether the compositor has configured them, and the
//! image each shows. A surface's layer handle is whatever the windowing code
//! uses (`L`); this module only keeps it.

use vstd::prelude::*;
use vstd::string::StringExecFns;
use crate::backend::{logical_size, logical_size_spec, OutputMode, OutputTransform};
use crate::canvas::RgbaCanvas;
use crate::named_map::{lists_keys_once, NamedMap};

verus! {

// ── Outputs ──────────────────────────────────────────────────────────────────

/// What the backend keeps of a monitor.
#[derive(Debug)]
pub struct OutputInfoExt {
    pub name: String,
    pub width: u32,
    pub height: u32,
    pub scale: i32,
    pub transform: OutputTransform,
}

impl Clone for OutputInfoExt {
    fn clone(&self) -> (r: Self)
        ensures
            r == *self,
    {
        OutputInfoExt {
            name: self.name.clone(),
            width: self.width,
            height: self.height,
            scale: self.scale,
            transform: self.transform,
        }
    }
}

impl OutputInfoExt {
    /// An output as the compositor describes it: its name (an unnamed output
    /// is not kept), its modes, transform and scale; the size is its logical
    /// size.
    pub fn from_parts(name: Option<String>, modes: &Vec<OutputMode>, transform: OutputTransform, scale: i32) -> (r: Option<Self>)
        ensures
            name is None ==> r is None,
            name matches Some(n) ==> (r matches Some(o) && o.name@ == n@
                && (o.width, o.height) == logical_size_spec(modes@, transform) && o.scale == scale
                && o.transform == transform),
    {
        match name {
            None => None,
            Some(n) => {
                let (width, height) = logical_size(modes, transform);
                Some(OutputInfoExt { name: n, width, height, scale, transform })
            },
        }
    }
}

/// `o` is one of the outputs of `m`.
pub open spec fn is_known(m: Map<Seq<char>, OutputInfoExt>, o: OutputInfoExt) -> bool {
    exists|k: Seq<char>| #[trigger] m.contains_key(k) && m[k] == o
}

/// The outputs known, by name.
pub struct OutputManager {
    outputs: NamedMap<OutputInfoExt>,
}

impl View for OutputManager {
    type V = Map<Seq<char>, OutputInfoExt>;

    closed spec fn view(&self) -> Map<Seq<char>, OutputInfoExt> {
        self.outputs@
    }
}

impl OutputManager {
    /// The names of the outputs known, in the order they were first added.
    pub closed spec fn spec_names(&self) -> Seq<Seq<char>> {
        self.outputs.spec_names()
    }

    /// No outputs.
    pub fn new() -> (m: Self)
        ensures
            m@ == Map::<Seq<char>, OutputInfoExt>::empty(),
    {
        OutputManager { outputs: NamedMap::new() }
    }

    /// Adds an output or replaces what is known of it; returns it.
    pub fn update_output(&mut self, info: OutputInfoExt) -> (r: OutputInfoExt)
        ensures
            final(self)@ == old(self)@.insert(info.name@, info),
            r == info,
    {
        let r = info.clone();
        let name = info.name.clone();
        self.outputs.insert(name, info);
        r
    }

    /// Forgets an output; says whether it was known.
    pub fn remove_output(&mut self, name: &str) -> (removed: bool)
        ensures
            removed == old(self)@.contains_key(name@),
            final(self)@ == old(self)@.remove(name@),
    {
        self.outputs.remove(name).is_some()
    }

    /// What is known of an output.
    pub fn get(&self, name: &str) -> (r: Option<OutputInfoExt>)
        ensures
            match r {
                Some(o) => self@.contains_key(name@) && self@[name@] == o,
                None => !self@.contains_key(name@),
            },
    {
        match self.outputs.get(name) {
            Some(o) => Some(o.clone()),
            None => None,
        }
    }

    /// The names of the outputs known, each once, in the order they were
    /// first added.
    pub fn names(&self) -> (r: Vec<String>)
        ensures
            r@.map_values(|s: String| s@) == self.spec_names(),
            lists_keys_once(self.spec_names(), self@),
            r@.len() == self@.dom().len(),
            forall|i: int| 0 <= i < r@.len() ==> self@.contains_key(#[trigger] r@[i]@),
    {
        self.outputs.names()
    }

    /// Every output known, once each, in the order of `names`.
    pub fn all(&self) -> (r: Vec<OutputInfoExt>)
        ensures
            r@ == self.spec_names().map_values(|k: Seq<char>| self@[k]),
            lists_keys_once(self.spec_names(), self@),
            r@.len() == self@.dom().len(),
            forall|i: int| 0 <= i < r@.len() ==> is_known(self@, #[trigger] r@[i]),
    {
        let names = self.names();
        let ghost ns = self.spec_names();
        let mut r: Vec<OutputInfoExt> = Vec::new();
        let mut i: usize = 0;
        while i < names.len()
            invariant
                i <= names@.len(),
                r@.len() == i,
                names@.map_values(|s: String| s@) == ns,
                lists_keys_once(ns, self@),
                forall|j: int| 0 <= j < i ==> r@[j] == #[trigger] self@[ns[j]],
            decreases names.len() - i,
        {
            assert(ns[i as int] == names@[i as int]@);
            assert(self@.contains_key(ns[i as int]));
            match self.get(names[i].as_str()) {
                Some(o) => {
                    r.push(o);
                },
                None => {
                    assert(false);
                },
            }
            i = i + 1;
        }
        proof {
            assert(r@ =~= ns.map_values(|k: Seq<char>| self@[k]));
            assert forall|j: int| 0 <= j < r@.len() implies is_known(self@, #[trigger] r@[j]) by {
                assert(self@.contains_key(ns[j]));
            }
        }
        r
    }

    /// A monitor's size.
    pub fn dimensions(&self, name: &str) -> (r: Option<(u32, u32)>)
        ensures
            match r {
                Some((w, h)) => self@.contains_key(name@) && self@[name@].width == w && self@[name@].height == h,
                None => !self@.contains_key(name@),
            },
    {
        match self.outputs.get(name) {
            Some(o) => Some((o.width, o.height)),
            None => None,
        }
    }

    /// A monitor's scale factor.
    pub fn scale(&self, name: &str) -> (r: Option<i32>)
        ensures
            match r {
                Some(s) => self@.contains_key(name@) && self@[name@].scale == s,
                None => !self@.contains_key(name@),
            },
    {
        match self.outputs.get(name) {
            Some(o) => Some(o.scale),
            None => None,
        }
    }

    /// Forgets every output.
    pub fn clear(&mut self)
        ensures
            final(self)@ == Map::<Seq<char>, OutputInfoExt>::empty(),
    {
        self.outputs.clear();
    }

    /// How many outputs are known.
    pub fn len(&self) -> (n: usize)
        ensures
            n == self@.dom().len(),
    {
        self.outputs.len()
    }

    /// Whether no output is known.
    pub fn is_empty(&self) -> (b: bool)
        ensures
            b == (self@.dom().len() == 0),
    {
        self.outputs.len() == 0
    }
}

// ── Surfaces ─────────────────────────────────────────────────────────────────

/// The surface drawn on one output.
pub struct OutputSurface<L> {
    pub layer: L,
    pub width: u32,
    pub height: u32,
    pub scale: i32,
    /// Whether the compositor has configured the surface; drawing waits for it.
    pub configured: bool,
    /// The image shown now, the start of the next transition.
    pub current_image: Option<RgbaCanvas>,
}

impl<L> OutputSurface<L> {
    /// A surface not configured yet, showing nothing.
    pub fn new(layer: L, width: u32, height: u32, scale: i32) -> (s: Self)
        ensures
            s == (OutputSurface { layer, width, height, scale, configured: false, current_image: None }),
    {
        OutputSurface { layer, width, height, scale, configured: false, current_image: None }
    }

    /// Takes the size a configure event gives.
    pub fn update_size(&mut self, width: u32, height: u32)
        ensures
            final(self).width == width,
            final(self).height == height,
            final(self).layer == old(self).layer,
            final(self).scale == old(self).scale,
            final(self).configured == old(self).configured,
            final(self).current_image == old(self).current_image,
    {
        if self.width != width || self.height != height {
            self.width = width;
            self.height = height;
        }
    }

    /// Takes a new scale factor.
    pub fn update_scale(&mut self, scale: i32)
        ensures
            final(self).scale == scale,
            final(self).layer == old(self).layer,
            final(self).width == old(self).width,
            final(self).height == old(self).height,
            final(self).configured == old(self).configured,
            final(self).current_image == old(self).current_image,
    {
        if self.scale != scale {
            self.scale = scale;
        }
    }
}

/// A surface after the compositor configures it at `width` by `height`:
/// the size is taken when both sides are positive.
pub open spec fn configured_surface<L>(s: OutputSurface<L>, width: u32, height: u32) -> OutputSurface<L> {
    if width > 0 && height > 0 {
        OutputSurface { width, height, configured: true, ..s }
    } else {
        OutputSurface { configured: true, ..s }
    }
}

/// `after` is `before` with the surface made of what `create_fn` gave for
/// `name`, and `r` says whether it gave one.
pub open spec fn created_as<L>(
    made: Option<(L, u32, u32, i32)>,
    before: Map<Seq<char>, OutputSurface<L>>,
    after: Map<Seq<char>, OutputSurface<L>>,
    name: Seq<char>,
    r: bool,
) -> bool {
    match made {
        Some((layer, w, h, s)) => r && after == before.insert(
            name,
            OutputSurface { layer, width: w, height: h, scale: s, configured: false, current_image: None },
        ),
        None => !r && after == before,
    }
}

/// The surfaces drawn on, by output name.
pub struct Renderer<L> {
    surfaces: NamedMap<OutputSurface<L>>,
}

impl<L> View for Renderer<L> {
    type V = Map<Seq<char>, OutputSurface<L>>;

    closed spec fn view(&self) -> Map<Seq<char>, OutputSurface<L>> {
        self.surfaces@
    }
}

impl<L> Renderer<L> {
    /// The names of the outputs that have a surface, in the order their
    /// surfaces were first added.
    pub closed spec fn spec_names(&self) -> Seq<Seq<char>> {
        self.surfaces.spec_names()
    }

    /// No surfaces.
    pub fn new() -> (r: Self)
        ensures
            r@ == Map::<Seq<char>, OutputSurface<L>>::empty(),
    {
        Renderer { surfaces: NamedMap::new() }
    }

    /// Makes sure `name` has a surface: when it has none, `create_fn` is
    /// asked for a layer and its size and scale, and a surface made of them
    /// is added. Says whether `name` has a surface afterwards.
    pub fn get_or_create<F>(&mut self, name: &str, create_fn: F) -> (r: bool)
        where
            F: FnOnce() -> Option<(L, u32, u32, i32)>,
        requires
            create_fn.requires(()),
        ensures
            old(self)@.contains_key(name@) ==> r && final(self)@ == old(self)@,
            !old(self)@.contains_key(name@) ==> exists|made: Option<(L, u32, u32, i32)>|
                create_fn.ensures((), made) && #[trigger] created_as(made, old(self)@, final(self)@, name@, r),
    {
        if self.surfaces.contains_key(name) {
            return true;
        }
        let ghost before = self@;
        let made = create_fn();
        let ghost m = made;
        match made {
            Some((layer, w, h, s)) => {
                self.surfaces.insert(String::from_str(name), OutputSurface::new(layer, w, h, s));
                assert(created_as(m, before, self@, name@, true));
                true
            },
            None => {
                assert(created_as(m, before, self@, name@, false));
                false
            },
        }
    }

    /// The surface of an output.
    pub fn get(&self, name: &str) -> (r: Option<&OutputSurface<L>>)
        ensures
            match r {
                Some(s) => self@.contains_key(name@) && self@[name@] == *s,
                None => !self@.contains_key(name@),
            },
    {
        self.surfaces.get(name)
    }

    /// Drops the surface of an output; says whether there was one.
    pub fn remove(&mut self, name: &str) -> (removed: bool)
        ensures
            removed == old(self)@.contains_key(name@),
            final(self)@ == old(self)@.remove(name@),
    {
        self.surfaces.remove(name).is_some()
    }

    /// Marks an output's surface configured at `width` by `height` (the size
    /// is taken when both are positive); false when the output has none.
    pub fn configure_surface(&mut self, name: &str, width: u32, height: u32) -> (r: bool)
        ensures
            r == old(self)@.contains_key(name@),
            r ==> final(self)@ == old(self)@.insert(name@, configured_surface(old(self)@[name@], width, height)),
            !r ==> final(self)@ == old(self)@,
    {
        match self.surfaces.remove(name) {
            Some(mut s) => {
                if width > 0 && height > 0 {
                    s.width = width;
                    s.height = height;
                }
                s.configured = true;
                self.surfaces.insert(String::from_str(name), s);
                proof {
                    assert(old(self)@.remove(name@).insert(name@, configured_surface(old(self)@[name@], width, height))
                        =~= old(self)@.insert(name@, configured_surface(old(self)@[name@], width, height)));
                }
                true
            },
            None => {
                proof {
                    assert(old(self)@.remove(name@) =~= old(self)@);
                }
                false
            },
        }
    }

    /// Sets an output surface's scale factor; false when the output has none.
    pub fn update_scale(&mut self, name: &str, scale: i32) -> (r: bool)
        ensures
            r == old(self)@.contains_key(name@),
            r ==> final(self)@ == old(self)@.insert(name@, OutputSurface { scale, ..old(self)@[name@] }),
            !r ==> final(self)@ == old(self)@,
    {
        match self.surfaces.remove(name) {
            Some(mut s) => {
                s.scale = scale;
                self.surfaces.insert(String::from_str(name), s);
                proof {
                    assert(old(self)@.remove(name@).insert(name@, OutputSurface { scale, ..old(self)@[name@] })
                        =~= old(self)@.insert(name@, OutputSurface { scale, ..old(self)@[name@] }));
                }
                true
            },
            None => {
                proof {
                    assert(old(self)@.remove(name@) =~= old(self)@);
                }
                false
            },
        }
    }

    /// Takes an output's new size and scale; false when it has no surface.
    pub fn update_output(&mut self, name: &str, width: u32, height: u32, scale: i32) -> (r: bool)
        ensures
            r == old(self)@.contains_key(name@),
            r ==> final(self)@ == old(self)@.insert(name@, OutputSurface { width, height, scale, ..old(self)@[name@] }),
            !r ==> final(self)@ == old(self)@,
    {
        match self.surfaces.remove(name) {
            Some(mut s) => {
                s.width = width;
                s.height = height;
                s.scale = scale;
                self.surfaces.insert(String::from_str(name), s);
                proof {
                    assert(old(self)@.remove(name@).insert(name@, OutputSurface { width, height, scale, ..old(self)@[name@] })
                        =~= old(self)@.insert(name@, OutputSurface { width, height, scale, ..old(self)@[name@] }));
                }
                true
            },
            None => {
                proof {
                    assert(old(self)@.remove(name@) =~= old(self)@);
                }
                false
            },
        }
    }

    /// Records the image an output now shows; false when it has no surface.
    pub fn set_current_image(&mut self, name: &str, image: RgbaCanvas) -> (r: bool)
        ensures
            r == old(self)@.contains_key(name@),
            r ==> final(self)@ == old(self)@.insert(name@, OutputSurface { current_image: Some(image), ..old(self)@[name@] }),
            !r ==> final(self)@ == old(self)@,
    {
        match self.surfaces.remove(name) {
            Some(mut s) => {
                let ghost img = image;
                s.current_image = Some(image);
                self.surfaces.insert(String::from_str(name), s);
                proof {
                    assert(old(self)@.remove(name@).insert(name@, OutputSurface { current_image: Some(img), ..old(self)@[name@] })
                        =~= old(self)@.insert(name@, OutputSurface { current_image: Some(img), ..old(self)@[name@] }));
                }
                true
            },
            None => {
                proof {
                    assert(old(self)@.remove(name@) =~= old(self)@);
                }
                false
            },
        }
    }

    /// Drops every surface.
    pub fn clear(&mut self)
        ensures
            final(self)@ == Map::<Seq<char>, OutputSurface<L>>::empty(),
    {
        self.surfaces.clear();
    }

    /// The names of the outputs that have a surface, each once.
    pub fn surface_names(&self) -> (r: Vec<String>)
        ensures
            r@.map_values(|s: String| s@) == self.spec_names(),
            lists_keys_once(self.spec_names(), self@),
            r@.len() == self@.dom().len(),
            forall|i: int| 0 <= i < r@.len() ==> self@.contains_key(#[trigger] r@[i]@),
    {
        self.surfaces.names()
    }
}

} // verus!
