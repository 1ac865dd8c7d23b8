//! Named resources behind small integer handles.
//!
//! A resource is registered once per name: registering a name again gives
//! back the handle it already has. A handle is the registration's position,
//! and means something only to the manager that issued it.
use vstd::prelude::*;

verus! {

/// Handle of a texture within its manager.
pub type TextureHandle = usize;

/// Handle of a mesh within its manager.
pub type MeshHandle = usize;

/// Resources of one kind, by name, in order of registration.
pub struct Registry<T> {
    names: Vec<String>,
    items: Vec<T>,
}

/// What a registry is, as far as its users can tell.
pub struct RegistryView<T> {
    pub names: Seq<Seq<char>>,
    pub items: Seq<T>,
}

impl<T> RegistryView<T> {
    /// Names are distinct and there is one item per name.
    pub open spec fn valid(self) -> bool {
        self.names.no_duplicates() && self.names.len() == self.items.len()
    }

    pub open spec fn has_name(self, name: Seq<char>) -> bool {
        exists|i: int| 0 <= i < self.names.len() && self.names[i] == name
    }
}

impl<T> View for Registry<T> {
    type V = RegistryView<T>;

    closed spec fn view(&self) -> RegistryView<T> {
        RegistryView { names: self.names@.map_values(|n: String| n@), items: self.items@ }
    }
}

impl<T> Registry<T> {
    pub open spec fn wf(&self) -> bool {
        self@.valid()
    }

    pub fn new() -> (r: Self)
        ensures
            r.wf(),
            r@.names == Seq::<Seq<char>>::empty(),
            r@.items == Seq::<T>::empty(),
    {
        let r = Registry { names: Vec::new(), items: Vec::new() };
        assert(r@.names =~= Seq::<Seq<char>>::empty());
        r
    }

    pub fn len(&self) -> (r: usize)
        requires
            self.wf(),
        ensures
            r == self@.items.len(),
    {
        self.items.len()
    }

    /// The handle registered under `name`, if any.
    pub fn find(&self, name: &String) -> (r: Option<usize>)
        requires
            self.wf(),
        ensures
            r.is_some() == self@.has_name(name@),
            r.is_some() ==> r.unwrap() < self@.names.len() && self@.names[r.unwrap() as int]
                == name@,
            forall|i: int|
                0 <= i < self@.names.len() && #[trigger] self@.names[i] == name@ ==> r == Some(
                    i as usize,
                ),
    {
        let mut i: usize = 0;
        while i < self.names.len()
            invariant
                self.wf(),
                i <= self.names.len(),
                forall|j: int| 0 <= j < i ==> self@.names[j] != name@,
            decreases self.names.len() - i,
        {
            if self.names[i] == *name {
                assert(self@.names[i as int] == name@);
                return Some(i);
            }
            i = i + 1;
        }
        None
    }

    /// Registers `item` under `name` and returns its handle; where `name` is
    /// registered already, returns that handle and keeps the registry as it was.
    pub fn add(&mut self, name: String, item: T) -> (r: usize)
        requires
            old(self).wf(),
            old(self)@.items.len() < usize::MAX,
        ensures
            final(self).wf(),
            old(self)@.has_name(name@) ==> final(self)@ == old(self)@ && r < old(self)@.names.len()
                && old(self)@.names[r as int] == name@,
            !old(self)@.has_name(name@) ==> r == old(self)@.items.len() && final(self)@
                == (RegistryView {
                names: old(self)@.names.push(name@),
                items: old(self)@.items.push(item),
            }),
    {
        match self.find(&name) {
            Some(i) => i,
            None => {
                let r = self.items.len();
                self.names.push(name);
                self.items.push(item);
                proof {
                    let ns = self@.names;
                    assert(ns =~= old(self)@.names.push(name@));
                    assert forall|a: int, b: int|
                        0 <= a < ns.len() && 0 <= b < ns.len() && a != b implies ns[a] != ns[b] by {
                        if a < ns.len() - 1 && b < ns.len() - 1 {
                            assert(ns[a] == old(self)@.names[a]);
                            assert(ns[b] == old(self)@.names[b]);
                        }
                    }
                }
                r
            },
        }
    }

    pub fn get(&self, handle: usize) -> (r: Option<&T>)
        requires
            self.wf(),
        ensures
            r.is_some() == (handle < self@.items.len()),
            r.is_some() ==> *r.unwrap() == self@.items[handle as int],
    {
        if handle < self.items.len() {
            Some(&self.items[handle])
        } else {
            None
        }
    }

    pub fn get_mut(&mut self, handle: usize) -> (r: Option<&mut T>)
        requires
            old(self).wf(),
        ensures
            final(self).wf(),
            r.is_some() == (handle < old(self)@.items.len()),
            r.is_some() ==> *r.unwrap() == old(self)@.items[handle as int],
            r.is_some() ==> final(self)@ == (RegistryView {
                names: old(self)@.names,
                items: old(self)@.items.update(handle as int, *final(r.unwrap())),
            }),
            r.is_none() ==> final(self)@ == old(self)@,
    {
        if handle < self.items.len() {
            Some(&mut self.items[handle])
        } else {
            None
        }
    }
}

/// Textures and meshes, each registered by name.
pub struct ResourceManager<T, M> {
    textures: Registry<T>,
    meshes: Registry<M>,
}

impl<T, M> ResourceManager<T, M> {
    /// Names are distinct within each kind, with one item per name.
    pub open spec fn wf(&self) -> bool {
        self.textures_view().valid() && self.meshes_view().valid()
    }

    pub closed spec fn textures_view(&self) -> RegistryView<T> {
        self.textures@
    }

    pub closed spec fn meshes_view(&self) -> RegistryView<M> {
        self.meshes@
    }

    pub fn new() -> (r: Self)
        ensures
            r.wf(),
            r.textures_view().items.len() == 0,
            r.textures_view().names.len() == 0,
            r.meshes_view().items.len() == 0,
            r.meshes_view().names.len() == 0,
    {
        ResourceManager { textures: Registry::new(), meshes: Registry::new() }
    }

    /// The handle of the texture loaded under `name`, if any.
    pub fn texture_handle(&self, name: &String) -> (r: Option<TextureHandle>)
        requires
            self.wf(),
        ensures
            r.is_some() == self.textures_view().has_name(name@),
            r.is_some() ==> r.unwrap() < self.textures_view().names.len()
                && self.textures_view().names[r.unwrap() as int] == name@,
            forall|i: int|
                0 <= i < self.textures_view().names.len() && #[trigger] self.textures_view().names[i]
                    == name@ ==> r == Some(i as usize),
    {
        self.textures.find(name)
    }

    /// Registers a loaded texture under `name`; a name already loaded keeps its
    /// texture and handle.
    pub fn add_texture(&mut self, name: String, texture: T) -> (r: TextureHandle)
        requires
            old(self).wf(),
            old(self).textures_view().items.len() < usize::MAX,
        ensures
            final(self).wf(),
            final(self).meshes_view() == old(self).meshes_view(),
            old(self).textures_view().has_name(name@) ==> final(self).textures_view()
                == old(self).textures_view() && r < old(self).textures_view().names.len()
                && old(self).textures_view().names[r as int] == name@,
            !old(self).textures_view().has_name(name@) ==> r == old(self).textures_view().items.len()
                && final(self).textures_view() == (RegistryView {
                names: old(self).textures_view().names.push(name@),
                items: old(self).textures_view().items.push(texture),
            }),
    {
        self.textures.add(name, texture)
    }

    pub fn get_texture(&self, handle: TextureHandle) -> (r: Option<&T>)
        requires
            self.wf(),
        ensures
            r.is_some() == (handle < self.textures_view().items.len()),
            r.is_some() ==> *r.unwrap() == self.textures_view().items[handle as int],
    {
        self.textures.get(handle)
    }

    /// The handle of the mesh added under `name`, if any.
    pub fn mesh_handle(&self, name: &String) -> (r: Option<MeshHandle>)
        requires
            self.wf(),
        ensures
            r.is_some() == self.meshes_view().has_name(name@),
            r.is_some() ==> r.unwrap() < self.meshes_view().names.len()
                && self.meshes_view().names[r.unwrap() as int] == name@,
            forall|i: int|
                0 <= i < self.meshes_view().names.len() && #[trigger] self.meshes_view().names[i]
                    == name@ ==> r == Some(i as usize),
    {
        self.meshes.find(name)
    }

    /// Registers `mesh` under `name`; a name already added keeps its mesh and handle.
    pub fn add_mesh(&mut self, name: String, mesh: M) -> (r: MeshHandle)
        requires
            old(self).wf(),
            old(self).meshes_view().items.len() < usize::MAX,
        ensures
            final(self).wf(),
            final(self).textures_view() == old(self).textures_view(),
            old(self).meshes_view().has_name(name@) ==> final(self).meshes_view()
                == old(self).meshes_view() && r < old(self).meshes_view().names.len()
                && old(self).meshes_view().names[r as int] == name@,
            !old(self).meshes_view().has_name(name@) ==> r == old(self).meshes_view().items.len()
                && final(self).meshes_view() == (RegistryView {
                names: old(self).meshes_view().names.push(name@),
                items: old(self).meshes_view().items.push(mesh),
            }),
    {
        self.meshes.add(name, mesh)
    }

    pub fn get_mesh(&self, handle: MeshHandle) -> (r: Option<&M>)
        requires
            self.wf(),
        ensures
            r.is_some() == (handle < self.meshes_view().items.len()),
            r.is_some() ==> *r.unwrap() == self.meshes_view().items[handle as int],
    {
        self.meshes.get(handle)
    }

    pub fn get_mesh_mut(&mut self, handle: MeshHandle) -> (r: Option<&mut M>)
        requires
            old(self).wf(),
        ensures
            final(self).wf(),
            final(self).textures_view() == old(self).textures_view(),
            r.is_some() == (handle < old(self).meshes_view().items.len()),
            r.is_some() ==> *r.unwrap() == old(self).meshes_view().items[handle as int],
            r.is_some() ==> final(self).meshes_view() == (RegistryView {
                names: old(self).meshes_view().names,
                items: old(self).meshes_view().items.update(handle as int, *final(r.unwrap())),
            }),
            r.is_none() ==> final(self).meshes_view() == old(self).meshes_view(),
    {
        self.meshes.get_mut(handle)
    }
}

/// After a name is registered, the only handle that names it is the one the
/// registration returned; `add` and `find` under that name give it back.
pub proof fn lemma_name_keeps_handle<T>(v: RegistryView<T>, name: Seq<char>, a: T, h: int)
    requires
        v.valid(),
        !v.has_name(name),
        0 <= h < v.names.len() + 1,
        v.names.push(name)[h] == name,
    ensures
        (RegistryView { names: v.names.push(name), items: v.items.push(a) }).valid(),
        h == v.names.len(),
{
    let ns = v.names.push(name);
    if h < v.names.len() {
        assert(v.names[h] == name);
    }
    assert forall|x: int, y: int| 0 <= x < ns.len() && 0 <= y < ns.len() && x != y implies ns[x]
        != ns[y] by {
        if x < v.names.len() && y < v.names.len() {
            assert(ns[x] == v.names[x]);
            assert(ns[y] == v.names[y]);
        } else if x < v.names.len() {
            assert(ns[x] == v.names[x]);
        } else if y < v.names.len() {
            assert(ns[y] == v.names[y]);
        }
    }
}

} // verus!
