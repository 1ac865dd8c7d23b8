//! Entities and the components attached to them.
//!
//! An entity keeps at most one component of each concrete type. Components
//! are held in one store type `C` (typically an enum that the application
//! defines over all of its component types); each component type names the
//! tag it is stored under and how it goes in and out of `C`.
use vstd::prelude::*;

use crate::idmap::{
    IdMap, keys_distinct, lemma_same_keys, lemma_slot_keys, lemma_slots_value, same_keys, slot_keys,
    slots_to_map, without,
};

verus! {

/// Identifier of an entity within a scene.
pub type EntityId = u64;

/// A concrete component type that can be kept in the component store `C`.
///
/// `downcast_ref` and `downcast_mut` fail closed: they return `None` when the
/// stored value does not hold a `Self`.
pub trait Component<C>: Sized {
    /// The tag under which values of this type are stored.
    spec fn tag() -> u64;

    /// The stored form of a value.
    spec fn stored(self) -> C;

    /// The value of this type that a stored value holds, if any.
    spec fn recovered(c: C) -> Option<Self>;

    /// A stored value gives back the value it was made from.
    proof fn lemma_recover_stored(x: Self)
        ensures
            Self::recovered(x.stored()) == Some(x),
    ;

    fn kind() -> (k: u64)
        ensures
            k == Self::tag(),
    ;

    fn into_stored(self) -> (c: C)
        ensures
            c == self.stored(),
    ;

    fn downcast_ref(c: &C) -> (r: Option<&Self>)
        ensures
            r.is_some() == Self::recovered(*c).is_some(),
            r.is_some() ==> Self::recovered(*c) == Some(*r.unwrap()),
    ;

    fn downcast_mut(c: &mut C) -> (r: Option<&mut Self>)
        ensures
            r.is_some() == Self::recovered(*old(c)).is_some(),
            r.is_some() ==> Self::recovered(*old(c)) == Some(*r.unwrap()),
            r.is_some() ==> *final(c) == Self::stored(*final(r.unwrap())),
            r.is_none() ==> *final(c) == *old(c),
    ;
}

/// What an entity is, as far as its users can tell.
pub struct EntityView<C> {
    pub id: EntityId,
    pub name: Seq<char>,
    pub active: bool,
    /// The stored component of each tag.
    pub components: Map<u64, C>,
}

impl<C> EntityView<C> {
    /// A new entity: active, without components.
    pub open spec fn fresh(id: EntityId, name: Seq<char>) -> Self {
        EntityView { id, name, active: true, components: Map::empty() }
    }

    pub open spec fn with_active(self, active: bool) -> Self {
        EntityView { active, ..self }
    }

    pub open spec fn with_components(self, components: Map<u64, C>) -> Self {
        EntityView { components, ..self }
    }

    /// The entity after attaching `value`, which replaces any component of its type.
    pub open spec fn add<T: Component<C>>(self, value: T) -> Self {
        self.with_components(self.components.insert(T::tag(), value.stored()))
    }

    /// The entity after detaching its component of type `T`.
    pub open spec fn without<T: Component<C>>(self) -> Self {
        self.with_components(self.components.remove(T::tag()))
    }

    /// The component of type `T`, if the entity has one: the value stored
    /// under the tag of `T`, where it holds a `T`.
    pub open spec fn component<T: Component<C>>(self) -> Option<T> {
        if self.components.contains_key(T::tag()) {
            T::recovered(self.components[T::tag()])
        } else {
            None
        }
    }

    /// The entity has a component of type `T`.
    pub open spec fn has<T: Component<C>>(self) -> bool {
        self.component::<T>().is_some()
    }
}

/// Attaching a second component of a type replaces the first: the entity
/// then yields the second.
pub proof fn lemma_add_replaces<C, T: Component<C>>(e: EntityView<C>, v: T, v2: T)
    ensures
        e.add(v).add(v2).component::<T>() == Some(v2),
        e.add(v).add(v2).components == e.add(v2).components,
{
    T::lemma_recover_stored(v2);
    assert(e.add(v).add(v2).components =~= e.add(v2).components);
}

/// An object of the world: a name, an active flag and its components.
pub struct Entity<C> {
    id: EntityId,
    name: String,
    active: bool,
    components: IdMap<C>,
}

impl<C> View for Entity<C> {
    type V = EntityView<C>;

    closed spec fn view(&self) -> EntityView<C> {
        EntityView {
            id: self.id,
            name: self.name@,
            active: self.active,
            components: self.components.map(),
        }
    }
}

impl<C> Entity<C> {
    /// The entity's internal consistency, which all its methods keep.
    pub closed spec fn wf(&self) -> bool {
        self.components.wf()
    }

    pub fn new(id: EntityId, name: String) -> (r: Self)
        ensures
            r.wf(),
            r@ == EntityView::<C>::fresh(id, name@),
    {
        Entity { id, name, active: true, components: IdMap::new() }
    }

    pub fn id(&self) -> (r: EntityId)
        ensures
            r == self@.id,
    {
        self.id
    }

    pub fn name(&self) -> (r: &str)
        ensures
            r@ == self@.name,
    {
        self.name.as_str()
    }

    pub fn is_active(&self) -> (r: bool)
        ensures
            r == self@.active,
    {
        self.active
    }

    pub fn set_active(&mut self, active: bool)
        ensures
            final(self)@ == old(self)@.with_active(active),
            final(self).wf() == old(self).wf(),
    {
        self.active = active;
    }

    /// Attaches `component`, replacing the one of the same type if there is one.
    pub fn add_component<T: Component<C>>(&mut self, component: T)
        requires
            old(self).wf(),
        ensures
            final(self).wf(),
            final(self)@ == old(self)@.add(component),
    {
        let k = T::kind();
        self.components.insert(k, component.into_stored());
    }

    pub fn get_component<T: Component<C>>(&self) -> (r: Option<&T>)
        requires
            self.wf(),
        ensures
            r.is_some() == self@.component::<T>().is_some(),
            r.is_some() ==> self@.component::<T>() == Some(*r.unwrap()),
    {
        match self.components.get(T::kind()) {
            Some(c) => T::downcast_ref(c),
            None => None,
        }
    }

    pub fn get_component_mut<T: Component<C>>(&mut self) -> (r: Option<&mut T>)
        requires
            old(self).wf(),
        ensures
            final(self).wf(),
            r.is_some() == old(self)@.component::<T>().is_some(),
            r.is_some() ==> old(self)@.component::<T>() == Some(*r.unwrap()),
            r.is_some() ==> final(self)@ == old(self)@.add(*final(r.unwrap())),
            r.is_none() ==> final(self)@ == old(self)@,
    {
        let k = T::kind();
        proof {
            let m = self.components.map();
            if m.contains_key(k) {
                assert(m.insert(k, m[k]) =~= m);
            }
        }
        match self.components.get_mut(k) {
            Some(c) => T::downcast_mut(c),
            None => None,
        }
    }

    pub fn has_component<T: Component<C>>(&self) -> (r: bool)
        requires
            self.wf(),
        ensures
            r == self@.has::<T>(),
    {
        self.get_component::<T>().is_some()
    }

    /// Detaches the component of type `T`; says whether there was one. A value
    /// stored under the tag of `T` that does not hold a `T` is left alone.
    pub fn remove_component<T: Component<C>>(&mut self) -> (r: bool)
        requires
            old(self).wf(),
        ensures
            final(self).wf(),
            r == old(self)@.has::<T>(),
            r ==> final(self)@ == old(self)@.without::<T>(),
            !r ==> final(self)@ == old(self)@,
    {
        if self.has_component::<T>() {
            self.components.remove(T::kind());
            true
        } else {
            false
        }
    }
}

/// What a scene is, as far as its users can tell.
pub struct SceneView<C> {
    pub name: Seq<char>,
    /// The id that the next created entity gets.
    pub next_id: EntityId,
    pub entities: Map<EntityId, EntityView<C>>,
    /// The ids of the entities, ascending; this is also the order of creation.
    pub order: Seq<EntityId>,
}

/// The ids in `order` of the active entities of `m`, in that order.
pub open spec fn active_in<C>(order: Seq<EntityId>, m: Map<EntityId, EntityView<C>>) -> Seq<EntityId>
    decreases order.len(),
{
    if order.len() == 0 {
        order
    } else if m[order.last()].active {
        active_in(order.drop_last(), m).push(order.last())
    } else {
        active_in(order.drop_last(), m)
    }
}

/// The ids in `order` of the entities of `m` that have a component of type `T`, in that order.
pub open spec fn holding_in<C, T: Component<C>>(order: Seq<EntityId>, m: Map<EntityId, EntityView<C>>) -> Seq<
    EntityId,
>
    decreases order.len(),
{
    if order.len() == 0 {
        order
    } else if m[order.last()].has::<T>() {
        holding_in::<C, T>(order.drop_last(), m).push(order.last())
    } else {
        holding_in::<C, T>(order.drop_last(), m)
    }
}

/// Strictly ascending.
pub open spec fn ascending(s: Seq<EntityId>) -> bool {
    forall|i: int, j: int| 0 <= i < j < s.len() ==> s[i] < s[j]
}

impl<C> SceneView<C> {
    /// What every scene satisfies: ids below the next id, each entity under its own id,
    /// and `order` listing exactly the ids, ascending.
    pub open spec fn valid(self) -> bool {
        &&& self.entities.dom().finite()
        &&& forall|id: EntityId| #[trigger]
            self.entities.contains_key(id) ==> id < self.next_id && self.entities[id].id == id
        &&& ascending(self.order)
        &&& self.order.len() == self.entities.len()
        &&& forall|id: EntityId| self.order.contains(id) <==> #[trigger] self.entities.contains_key(id)
    }

    /// The scene after creating an entity named `name`.
    pub open spec fn create(self, name: Seq<char>) -> Self {
        SceneView {
            next_id: (self.next_id + 1) as u64,
            entities: self.entities.insert(self.next_id, EntityView::fresh(self.next_id, name)),
            order: self.order.push(self.next_id),
            ..self
        }
    }

    /// The scene after removing the entity `id`, if there is one.
    pub open spec fn remove(self, id: EntityId) -> Self {
        SceneView { entities: self.entities.remove(id), order: without(self.order, id), ..self }
    }

    /// The scene with the entity `id` replaced by `e`.
    pub open spec fn with_entity(self, id: EntityId, e: EntityView<C>) -> Self {
        SceneView { entities: self.entities.insert(id, e), ..self }
    }

    /// The scene after `clear`: no entities, and ids start again from zero.
    pub open spec fn cleared(self) -> Self {
        SceneView { next_id: 0, entities: Map::empty(), order: Seq::empty(), ..self }
    }

    /// Ids of the active entities, ascending.
    pub open spec fn active_ids(self) -> Seq<EntityId> {
        active_in(self.order, self.entities)
    }

    /// Ids of the entities that have a component of type `T`, ascending.
    pub open spec fn ids_with<T: Component<C>>(self) -> Seq<EntityId> {
        holding_in::<C, T>(self.order, self.entities)
    }
}

/// Positions of the slots of `s` that hold an active entity, ascending.
pub open spec fn active_slots<C>(s: Seq<(EntityId, Entity<C>)>) -> Seq<int>
    decreases s.len(),
{
    if s.len() == 0 {
        Seq::empty()
    } else if s.last().1@.active {
        active_slots(s.drop_last()).push(s.len() - 1)
    } else {
        active_slots(s.drop_last())
    }
}

proof fn lemma_active_slots_bounds<C>(s: Seq<(EntityId, Entity<C>)>)
    ensures
        forall|j: int|
            0 <= j < active_slots(s).len() ==> 0 <= #[trigger] active_slots(s)[j] < s.len()
                && s[active_slots(s)[j]].1@.active,
    decreases s.len(),
{
    if s.len() > 0 {
        let t = s.drop_last();
        lemma_active_slots_bounds(t);
        let p = active_slots(t);
        assert forall|j: int| 0 <= j < active_slots(s).len() implies 0 <= #[trigger] active_slots(
            s,
        )[j] < s.len() && s[active_slots(s)[j]].1@.active by {
            if j < p.len() {
                assert(active_slots(s)[j] == p[j]);
                assert(t[p[j]] == s[p[j]]);
            }
        }
    }
}

/// The active ids of a table read off its slots are the keys of the active slots.
proof fn lemma_active_slots_ids<C>(s: Seq<(EntityId, Entity<C>)>, m: Map<EntityId, EntityView<C>>)
    requires
        forall|i: int| 0 <= i < s.len() ==> m[#[trigger] s[i].0] == s[i].1@,
    ensures
        active_in(slot_keys(s), m).len() == active_slots(s).len(),
        forall|j: int|
            0 <= j < active_slots(s).len() ==> #[trigger] active_in(slot_keys(s), m)[j]
                == s[active_slots(s)[j]].0,
    decreases s.len(),
{
    if s.len() > 0 {
        let t = s.drop_last();
        assert forall|i: int| 0 <= i < t.len() implies m[#[trigger] t[i].0] == t[i].1@ by {
            assert(t[i] == s[i]);
        }
        lemma_active_slots_ids(t, m);
        lemma_active_slots_bounds(t);
        assert(slot_keys(s).drop_last() == slot_keys(t));
        assert(slot_keys(s).last() == s.last().0);
        assert(m[s[s.len() - 1].0] == s[s.len() - 1].1@);
    }
}

/// How many slots before `i` hold an active entity.
pub open spec fn active_rank<C>(s: Seq<(EntityId, Entity<C>)>, i: int) -> int
    decreases s.len(),
{
    if s.len() == 0 || i >= s.len() {
        if s.len() == 0 {
            0
        } else {
            active_slots(s).len() as int
        }
    } else {
        active_rank(s.drop_last(), i)
    }
}

/// Every active slot is listed, at its rank.
proof fn lemma_active_slots_complete<C>(s: Seq<(EntityId, Entity<C>)>, i: int)
    requires
        0 <= i < s.len(),
        s[i].1@.active,
    ensures
        0 <= active_rank(s, i) < active_slots(s).len(),
        active_slots(s)[active_rank(s, i)] == i,
    decreases s.len(),
{
    let t = s.drop_last();
    if i < s.len() - 1 {
        assert(t[i] == s[i]);
        lemma_active_slots_complete(t, i);
    } else {
        assert(active_rank(t, i) == active_slots(t).len()) by {
            if t.len() == 0 {
            }
        }
    }
}

/// Mutable references to the active entities of `s`, in slot order.
fn active_mut_of<'a, C>(s: &'a mut [(EntityId, Entity<C>)]) -> (r: Vec<&'a mut Entity<C>>)
    ensures
        final(s)@.len() == old(s)@.len(),
        same_keys(final(s)@, old(s)@),
        r.len() == active_slots(old(s)@).len(),
        forall|j: int|
            #![trigger r[j]]
            #![trigger active_slots(old(s)@)[j]]
            0 <= j < r.len() ==> *r[j] == old(s)@[active_slots(old(s)@)[j]].1,
        forall|j: int|
            #![trigger r[j]]
            #![trigger active_slots(old(s)@)[j]]
            0 <= j < r.len() ==> final(s)@[active_slots(old(s)@)[j]].1 == *final(r[j]),
        forall|i: int|
            #![trigger final(s)@[i]]
            #![trigger old(s)@[i]]
            0 <= i < old(s)@.len() && !old(s)@[i].1@.active ==> final(s)@[i].1 == old(s)@[i].1,
    decreases old(s)@.len(),
{
    let n = s.len();
    if n == 0 {
        return Vec::new();
    }
    let ghost os = s@;
    let (init, last) = s.split_at_mut(n - 1);
    proof {
        assert(init@ == os.drop_last());
        lemma_active_slots_bounds(os.drop_last());
        lemma_active_slots_bounds(os);
    }
    let mut r = active_mut_of(init);
    let slot = last.first_mut().unwrap();
    let e = &mut slot.1;
    if e.is_active() {
        r.push(e);
    }
    r
}

/// The entities of one session of simulation.
pub struct Scene<C> {
    entities: IdMap<Entity<C>>,
    next_entity_id: EntityId,
    name: String,
}

/// Views of the entities of a table.
pub open spec fn entity_views<C>(m: Map<EntityId, Entity<C>>) -> Map<EntityId, EntityView<C>> {
    m.map_values(|e: Entity<C>| e@)
}

/// A table of entities that a scene can hold with next id `next`.
pub open spec fn table_ok<C>(m: Map<EntityId, Entity<C>>, next: EntityId) -> bool {
    forall|k: EntityId| #[trigger]
        m.contains_key(k) ==> k < next && m[k].wf() && m[k]@.id == k
}

impl<C> View for Scene<C> {
    type V = SceneView<C>;

    closed spec fn view(&self) -> SceneView<C> {
        SceneView {
            name: self.name@,
            next_id: self.next_entity_id,
            entities: entity_views(self.entities.map()),
            order: self.entities.keys(),
        }
    }
}

impl<C> Scene<C> {
    /// The scene's internal consistency, which all its methods keep.
    pub closed spec fn wf(&self) -> bool {
        &&& self.entities.wf()
        &&& table_ok(self.entities.map(), self.next_entity_id)
        &&& ascending(self.entities.keys())
    }

    /// A well-formed scene has a valid view.
    pub proof fn lemma_valid(&self)
        requires
            self.wf(),
        ensures
            self@.valid(),
    {
        let s = self.entities.slots@;
        lemma_slot_keys(s);
        crate::idmap::lemma_slots_finite(s);
        assert(self@.entities.dom() =~= self.entities.map().dom());
    }

    pub fn new(name: String) -> (r: Self)
        ensures
            r.wf(),
            r@ == (SceneView::<C> {
                name: name@,
                next_id: 0,
                entities: Map::empty(),
                order: Seq::empty(),
            }),
    {
        let r = Scene { entities: IdMap::new(), next_entity_id: 0, name };
        assert(r@.entities =~= Map::<EntityId, EntityView<C>>::empty());
        r
    }

    pub fn name(&self) -> (r: &str)
        ensures
            r@ == self@.name,
    {
        self.name.as_str()
    }

    /// Creates an active entity without components and returns its id, which
    /// no entity of this scene has had before.
    pub fn create_entity(&mut self, name: String) -> (r: EntityId)
        requires
            old(self).wf(),
            old(self)@.next_id < u64::MAX,
        ensures
            final(self).wf(),
            r == old(self)@.next_id,
            final(self)@ == old(self)@.create(name@),
    {
        let id = self.next_entity_id;
        self.next_entity_id = id + 1;
        let entity = Entity::new(id, name);
        proof {
            assert(!self.entities.map().contains_key(id));
            let ks = self.entities.keys();
            lemma_slot_keys(self.entities.slots@);
            assert forall|i: int| 0 <= i < ks.len() implies ks[i] < id by {
                assert(self.entities.map().contains_key(ks[i]));
            }
        }
        self.entities.insert(id, entity);
        proof {
            assert(self@.entities =~= old(self)@.create(name@).entities);
        }
        id
    }

    pub fn get_entity(&self, id: EntityId) -> (r: Option<&Entity<C>>)
        requires
            self.wf(),
        ensures
            r.is_some() == self@.entities.contains_key(id),
            r.is_some() ==> r.unwrap()@ == self@.entities[id] && r.unwrap().wf(),
    {
        self.entities.get(id)
    }

    /// The entity `id`, to change in place. The scene stays well-formed as long
    /// as the entity does and keeps its id.
    pub fn get_entity_mut(&mut self, id: EntityId) -> (r: Option<&mut Entity<C>>)
        requires
            old(self).wf(),
        ensures
            r.is_some() == old(self)@.entities.contains_key(id),
            r.is_some() ==> (*r.unwrap())@ == old(self)@.entities[id] && r.unwrap().wf(),
            r.is_some() ==> final(self)@ == old(self)@.with_entity(id, final(r.unwrap())@),
            r.is_some() ==> (final(r.unwrap()).wf() && final(r.unwrap())@.id == id ==> final(self).wf()),
            r.is_none() ==> final(self)@ == old(self)@ && final(self).wf(),
    {
        proof {
            let m = self.entities.map();
            let n = self.next_entity_id;
            assert forall|e: Entity<C>| #[trigger]
                entity_views(m.insert(id, e)) == entity_views(m).insert(id, e@) by {
                assert(entity_views(m.insert(id, e)) =~= entity_views(m).insert(id, e@));
            }
            assert forall|e: Entity<C>|
                m.contains_key(id) && e.wf() && e@.id == id implies #[trigger] table_ok(
                m.insert(id, e),
                n,
            ) by {
                assert forall|k: EntityId| #[trigger]
                    m.insert(id, e).contains_key(k) implies k < n && m.insert(id, e)[k].wf() && m.insert(
                    id,
                    e,
                )[k]@.id == k by {
                    if k != id {
                        assert(m.contains_key(k));
                    }
                }
            }
        }
        self.entities.get_mut(id)
    }

    /// Removes the entity `id` with its components; says whether it was there.
    /// The id is not given out again.
    pub fn remove_entity(&mut self, id: EntityId) -> (r: bool)
        requires
            old(self).wf(),
        ensures
            final(self).wf(),
            r == old(self)@.entities.contains_key(id),
            final(self)@ == old(self)@.remove(id),
    {
        proof {
            lemma_without_ascending(self.entities.keys(), id);
        }
        let r = self.entities.remove(id).is_some();
        proof {
            assert(self@.entities =~= old(self)@.entities.remove(id));
        }
        r
    }

    /// All entities, active or not, ascending by id.
    pub fn entities(&self) -> (r: Vec<&Entity<C>>)
        requires
            self.wf(),
        ensures
            r.len() == self@.order.len(),
            forall|i: int| 0 <= i < r.len() ==> #[trigger] r[i]@ == self@.entities[self@.order[i]],
    {
        let mut r: Vec<&Entity<C>> = Vec::new();
        let n = self.entities.slots.len();
        let mut i: usize = 0;
        while i < n
            invariant
                self.wf(),
                n == self.entities.slots.len(),
                n == self@.order.len(),
                i <= n,
                r.len() == i,
                forall|j: int| 0 <= j < i ==> #[trigger] r[j]@ == self@.entities[self@.order[j]],
            decreases n - i,
        {
            let (_, e) = self.entities.slot(i);
            r.push(e);
            i = i + 1;
        }
        r
    }

    /// All entities, ascending by id, to change in place. The scene stays
    /// well-formed as long as each entity does and keeps its id.
    pub fn entities_mut(&mut self) -> (r: Vec<&mut Entity<C>>)
        requires
            old(self).wf(),
        ensures
            r.len() == old(self)@.order.len(),
            forall|i: int|
                0 <= i < r.len() ==> #[trigger] r[i]@ == old(self)@.entities[old(self)@.order[i]]
                    && r[i].wf(),
            final(self)@.name == old(self)@.name,
            final(self)@.next_id == old(self)@.next_id,
            final(self)@.order == old(self)@.order,
            final(self)@.entities.dom() == old(self)@.entities.dom(),
            forall|i: int|
                #![trigger r[i]]
                0 <= i < r.len() ==> final(self)@.entities[old(self)@.order[i]] == final(r[i])@,
            (forall|i: int|
                #![trigger r[i]]
                0 <= i < r.len() ==> final(r[i]).wf() && final(r[i])@.id == old(self)@.order[i])
                ==> final(self).wf(),
    {
        proof {
            let ks = self.entities.keys();
            let m = self.entities.map();
            let n = self.next_entity_id;
            lemma_slot_keys(self.entities.slots@);
            assert forall|m2: Map<EntityId, Entity<C>>|
                m2.dom() == m.dom() && (forall|i: int|
                    0 <= i < ks.len() ==> (#[trigger] m2[ks[i]]).wf() && m2[ks[i]]@.id == ks[i])
                    implies #[trigger] table_ok(m2, n) by {
                assert forall|k: EntityId| #[trigger] m2.contains_key(k) implies k < n && m2[k].wf()
                    && m2[k]@.id == k by {
                    assert(m.contains_key(k));
                    assert(ks.contains(k));
                    let i = choose|i: int| 0 <= i < ks.len() && ks[i] == k;
                    assert(m2[ks[i]].wf());
                }
            }
            assert forall|i: int| 0 <= i < ks.len() implies m.contains_key(#[trigger] ks[i]) by {
                assert(ks.contains(ks[i]));
            }
        }
        self.entities.values_mut()
    }

    /// The active entities, ascending by id.
    pub fn active_entities(&self) -> (r: Vec<&Entity<C>>)
        requires
            self.wf(),
        ensures
            r.len() == self@.active_ids().len(),
            forall|i: int|
                0 <= i < r.len() ==> #[trigger] r[i]@ == self@.entities[self@.active_ids()[i]],
    {
        let mut r: Vec<&Entity<C>> = Vec::new();
        let n = self.entities.slots.len();
        let ghost order = self@.order;
        let ghost m = self@.entities;
        let mut i: usize = 0;
        while i < n
            invariant
                self.wf(),
                order == self@.order,
                m == self@.entities,
                n == order.len(),
                i <= n,
                r.len() == active_in(order.take(i as int), m).len(),
                forall|j: int|
                    0 <= j < r.len() ==> #[trigger] r[j]@ == m[active_in(order.take(i as int), m)[j]],
            decreases n - i,
        {
            let (_, e) = self.entities.slot(i);
            assert(order.take(i + 1).drop_last() == order.take(i as int));
            if e.is_active() {
                r.push(e);
            }
            i = i + 1;
        }
        assert(order.take(n as int) == order);
        r
    }

    /// The active entities, ascending by id, to change in place. The others
    /// stay as they are. The scene stays well-formed as long as each entity
    /// handed out does and keeps its id.
    pub fn active_entities_mut(&mut self) -> (r: Vec<&mut Entity<C>>)
        requires
            old(self).wf(),
        ensures
            r.len() == old(self)@.active_ids().len(),
            forall|j: int|
                0 <= j < r.len() ==> #[trigger] r[j]@ == old(self)@.entities[old(
                    self,
                )@.active_ids()[j]] && r[j].wf(),
            final(self)@.name == old(self)@.name,
            final(self)@.next_id == old(self)@.next_id,
            final(self)@.order == old(self)@.order,
            final(self)@.entities.dom() == old(self)@.entities.dom(),
            forall|j: int|
                #![trigger r[j]]
                0 <= j < r.len() ==> final(self)@.entities[old(self)@.active_ids()[j]]
                    == final(r[j])@,
            forall|id: EntityId|
                old(self)@.entities.contains_key(id) && !old(self)@.entities[id].active
                    ==> #[trigger] final(self)@.entities[id] == old(self)@.entities[id],
            (forall|j: int|
                #![trigger r[j]]
                0 <= j < r.len() ==> final(r[j]).wf() && final(r[j])@.id == old(
                    self,
                )@.active_ids()[j]) ==> final(self).wf(),
    {
        proof {
            let s = self.entities.slots@;
            let m = self.entities.map();
            let n = self.next_entity_id;
            let p = active_slots(s);
            lemma_slot_keys(s);
            lemma_active_slots_bounds(s);
            assert forall|i: int| 0 <= i < s.len() implies m.contains_key(#[trigger] s[i].0)
                && m[s[i].0] == s[i].1 by {
                lemma_slots_value(s, i);
            }
            assert forall|i: int| 0 <= i < s.len() implies entity_views(m)[#[trigger] s[i].0]
                == s[i].1@ by {
                lemma_slots_value(s, i);
            }
            lemma_active_slots_ids(s, entity_views(m));
            assert forall|j: int| 0 <= j < p.len() implies #[trigger] self@.active_ids()[j] == s[p[j]].0
                && m.contains_key(s[p[j]].0) && m[s[p[j]].0] == s[p[j]].1 && m[s[p[j]].0].wf() by {
                assert(active_in(slot_keys(s), entity_views(m))[j] == s[p[j]].0);
            }
            assert forall|s2: Seq<(EntityId, Entity<C>)>| #[trigger] same_keys(s2, s) implies {
                &&& keys_distinct(s2)
                &&& slot_keys(s2) == slot_keys(s)
                &&& slots_to_map(s2).dom() == m.dom()
                &&& forall|i: int| 0 <= i < s.len() ==> slots_to_map(s2)[s[i].0] == #[trigger] s2[i].1
                &&& ((forall|j: int|
                    0 <= j < p.len() ==> (#[trigger] s2[p[j]]).1.wf() && s2[p[j]].1@.id == s[p[j]].0)
                    && (forall|i: int|
                    0 <= i < s.len() && !s[i].1@.active ==> #[trigger] s2[i].1 == s[i].1)
                    ==> table_ok(slots_to_map(s2), n))
            } by {
                lemma_same_keys(s2, s);
                if (forall|j: int|
                    0 <= j < p.len() ==> (#[trigger] s2[p[j]]).1.wf() && s2[p[j]].1@.id == s[p[j]].0)
                    && (forall|i: int|
                    0 <= i < s.len() && !s[i].1@.active ==> #[trigger] s2[i].1 == s[i].1) {
                    let m2 = slots_to_map(s2);
                    assert forall|k: EntityId| #[trigger] m2.contains_key(k) implies k < n
                        && m2[k].wf() && m2[k]@.id == k by {
                        assert(m.contains_key(k));
                        assert(slot_keys(s).contains(k));
                        let i = choose|i: int| 0 <= i < s.len() && slot_keys(s)[i] == k;
                        assert(s[i].0 == k);
                        assert(m2[s[i].0] == s2[i].1);
                        if s[i].1@.active {
                            lemma_active_slots_complete(s, i);
                            let j = active_rank(s, i);
                            assert(s2[p[j]].1.wf());
                        } else {
                            assert(s2[i].1 == s[i].1);
                        }
                    }
                }
            }
            assert forall|id: EntityId| #[trigger] m.contains_key(id) implies exists|i: int|
                0 <= i < s.len() && s[i].0 == id by {
                assert(slot_keys(s).contains(id));
                let i = choose|i: int| 0 <= i < s.len() && slot_keys(s)[i] == id;
                assert(s[i].0 == id);
            }
        }
        active_mut_of(self.entities.slots.as_mut_slice())
    }

    /// Ids of the entities that have a component of type `T`, ascending.
    pub fn find_entities_with<T: Component<C>>(&self) -> (r: Vec<EntityId>)
        requires
            self.wf(),
        ensures
            r@ == self@.ids_with::<T>(),
    {
        let mut r: Vec<EntityId> = Vec::new();
        let n = self.entities.slots.len();
        let ghost order = self@.order;
        let ghost m = self@.entities;
        let mut i: usize = 0;
        while i < n
            invariant
                self.wf(),
                order == self@.order,
                m == self@.entities,
                n == order.len(),
                i <= n,
                r@ == holding_in::<C, T>(order.take(i as int), m),
            decreases n - i,
        {
            let (k, e) = self.entities.slot(i);
            assert(order.take(i + 1).drop_last() == order.take(i as int));
            if e.has_component::<T>() {
                r.push(k);
            }
            i = i + 1;
        }
        assert(order.take(n as int) == order);
        r
    }

    pub fn entity_count(&self) -> (r: usize)
        requires
            self.wf(),
        ensures
            r == self@.entities.len(),
            r == self@.order.len(),
    {
        proof {
            self.lemma_valid();
        }
        self.entities.slots.len()
    }

    /// Removes all entities and starts ids again from zero.
    pub fn clear(&mut self)
        ensures
            final(self).wf(),
            final(self)@ == old(self)@.cleared(),
    {
        self.entities.clear();
        self.next_entity_id = 0;
        assert(self@.entities =~= Map::<EntityId, EntityView<C>>::empty());
    }
}

impl<C> Default for Scene<C> {
    /// An empty scene named "Default Scene".
    fn default() -> (r: Self)
        ensures
            r.wf(),
            r@.name == "Default Scene"@,
            r@.next_id == 0,
            r@.entities == Map::<EntityId, EntityView<C>>::empty(),
            r@.order == Seq::<EntityId>::empty(),
    {
        Scene::new("Default Scene".to_owned())
    }
}

/// Taking an id out of an ascending sequence leaves it ascending, with no new elements.
pub proof fn lemma_without_ascending(ks: Seq<EntityId>, k: EntityId)
    requires
        ascending(ks),
    ensures
        ascending(without(ks, k)),
        forall|i: int| 0 <= i < without(ks, k).len() ==> ks.contains(#[trigger] without(ks, k)[i]),
    decreases ks.len(),
{
    if ks.len() > 0 {
        let t = ks.drop_last();
        lemma_without_ascending(t, k);
        let w = without(t, k);
        assert forall|i: int| 0 <= i < w.len() implies w[i] < ks.last() by {
            assert(t.contains(w[i]));
        }
        assert forall|i: int| 0 <= i < w.len() implies ks.contains(#[trigger] w[i]) by {
            assert(t.contains(w[i]));
            let j = choose|j: int| 0 <= j < t.len() && t[j] == w[i];
            assert(ks[j] == w[i]);
        }
    }
}

/// A call that changes which entities a scene holds, for laws over sequences of calls.
pub enum SceneOp {
    Create(Seq<char>),
    Remove(EntityId),
}

/// The scene after the calls `ops`, in turn.
pub open spec fn run_ops<C>(s: SceneView<C>, ops: Seq<SceneOp>) -> SceneView<C>
    decreases ops.len(),
{
    if ops.len() == 0 {
        s
    } else {
        match ops[0] {
            SceneOp::Create(name) => run_ops(s.create(name), ops.drop_first()),
            SceneOp::Remove(id) => run_ops(s.remove(id), ops.drop_first()),
        }
    }
}

/// The ids that the creations among `ops` return, in turn.
pub open spec fn ids_returned<C>(s: SceneView<C>, ops: Seq<SceneOp>) -> Seq<EntityId>
    decreases ops.len(),
{
    if ops.len() == 0 {
        Seq::empty()
    } else {
        match ops[0] {
            SceneOp::Create(name) => seq![s.next_id] + ids_returned(s.create(name), ops.drop_first()),
            SceneOp::Remove(id) => ids_returned(s.remove(id), ops.drop_first()),
        }
    }
}

/// How many creations `ops` holds.
pub open spec fn creations(ops: Seq<SceneOp>) -> nat
    decreases ops.len(),
{
    if ops.len() == 0 {
        0
    } else {
        match ops[0] {
            SceneOp::Create(_) => 1 + creations(ops.drop_first()),
            SceneOp::Remove(_) => creations(ops.drop_first()),
        }
    }
}

/// Over any sequence of creations and removals, the ids that creation returns
/// are strictly increasing, start at the scene's next id, and none is the id of
/// an entity that the scene held at the start.
pub proof fn lemma_ids_increase<C>(s: SceneView<C>, ops: Seq<SceneOp>)
    requires
        s.valid(),
        s.next_id + creations(ops) <= u64::MAX,
    ensures
        ascending(ids_returned(s, ops)),
        forall|i: int|
            0 <= i < ids_returned(s, ops).len() ==> s.next_id <= #[trigger] ids_returned(s, ops)[i]
                && !s.entities.contains_key(ids_returned(s, ops)[i]),
{
    lemma_ids_from(s, ops);
}

proof fn lemma_ids_from<C>(s: SceneView<C>, ops: Seq<SceneOp>)
    requires
        s.next_id + creations(ops) <= u64::MAX,
    ensures
        ascending(ids_returned(s, ops)),
        forall|i: int|
            0 <= i < ids_returned(s, ops).len() ==> s.next_id <= #[trigger] ids_returned(s, ops)[i],
    decreases ops.len(),
{
    if ops.len() > 0 {
        let rest = ops.drop_first();
        match ops[0] {
            SceneOp::Create(name) => {
                lemma_ids_from(s.create(name), rest);
                let tail = ids_returned(s.create(name), rest);
                let all = seq![s.next_id] + tail;
                assert forall|i: int, j: int| 0 <= i < j < all.len() implies all[i] < all[j] by {
                    if i > 0 {
                        assert(all[i] == tail[i - 1]);
                    }
                    assert(all[j] == tail[j - 1]);
                }
                assert forall|i: int| 0 <= i < all.len() implies s.next_id <= #[trigger] all[i] by {
                    if i > 0 {
                        assert(all[i] == tail[i - 1]);
                    }
                }
            },
            SceneOp::Remove(id) => {
                lemma_ids_from(s.remove(id), rest);
            },
        }
    }
}

/// Once an entity is removed, no later creation or removal brings its id back:
/// removing it again says it was not there.
pub proof fn lemma_removed_stays_gone<C>(s: SceneView<C>, id: EntityId, ops: Seq<SceneOp>)
    requires
        s.valid(),
        s.entities.contains_key(id),
        s.next_id + creations(ops) <= u64::MAX,
    ensures
        !s.remove(id).entities.contains_key(id),
        !run_ops(s.remove(id), ops).entities.contains_key(id),
{
    lemma_absent_stays_absent(s.remove(id), id, ops);
}

proof fn lemma_absent_stays_absent<C>(s: SceneView<C>, id: EntityId, ops: Seq<SceneOp>)
    requires
        id < s.next_id,
        !s.entities.contains_key(id),
        s.next_id + creations(ops) <= u64::MAX,
    ensures
        !run_ops(s, ops).entities.contains_key(id),
    decreases ops.len(),
{
    if ops.len() > 0 {
        let rest = ops.drop_first();
        match ops[0] {
            SceneOp::Create(name) => lemma_absent_stays_absent(s.create(name), id, rest),
            SceneOp::Remove(k) => lemma_absent_stays_absent(s.remove(k), id, rest),
        }
    }
}

proof fn lemma_active_in_contains<C>(order: Seq<EntityId>, m: Map<EntityId, EntityView<C>>, id: EntityId)
    ensures
        active_in(order, m).contains(id) <==> order.contains(id) && m[id].active,
    decreases order.len(),
{
    if order.len() > 0 {
        let t = order.drop_last();
        lemma_active_in_contains(t, m, id);
        let a = active_in(t, m);
        if active_in(order, m).contains(id) {
            if m[order.last()].active && id == order.last() {
                assert(order[order.len() - 1] == id);
            } else {
                if m[order.last()].active {
                    let i = choose|i: int| 0 <= i < a.push(order.last()).len() && a.push(order.last())[i] == id;
                    assert(a[i] == id);
                }
                let j = choose|j: int| 0 <= j < t.len() && t[j] == id;
                assert(order[j] == id);
            }
        }
        if order.contains(id) && m[id].active {
            let j = choose|j: int| 0 <= j < order.len() && order[j] == id;
            if j < order.len() - 1 {
                assert(t[j] == id);
                let i = choose|i: int| 0 <= i < a.len() && a[i] == id;
                if m[order.last()].active {
                    assert(a.push(order.last())[i] == id);
                }
            } else {
                assert(a.push(order.last())[a.len() as int] == id);
            }
        }
    }
}

/// `active_ids` holds exactly the entities whose active flag is set.
pub proof fn lemma_active_ids<C>(s: SceneView<C>, id: EntityId)
    requires
        s.valid(),
    ensures
        s.active_ids().contains(id) <==> s.entities.contains_key(id) && s.entities[id].active,
{
    lemma_active_in_contains(s.order, s.entities, id);
}

/// Setting an entity's active flag changes its membership among the active
/// entities at once.
pub proof fn lemma_toggle_active<C>(s: SceneView<C>, id: EntityId, active: bool)
    requires
        s.valid(),
        s.entities.contains_key(id),
    ensures
        s.with_entity(id, s.entities[id].with_active(active)).valid(),
        s.with_entity(id, s.entities[id].with_active(active)).active_ids().contains(id) == active,
{
    let t = s.with_entity(id, s.entities[id].with_active(active));
    assert(t.entities.dom() =~= s.entities.dom());
    assert forall|k: EntityId| t.order.contains(k) <==> #[trigger] t.entities.contains_key(k) by {
        assert(s.order.contains(k) <==> s.entities.contains_key(k));
    }
    lemma_active_ids(t, id);
}

} // verus!
