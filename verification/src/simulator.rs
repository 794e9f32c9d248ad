//! The abstract stack machine: partially-known values, the possible-worlds
//! stack container, and the action contract that instructions implement.

use vstd::prelude::*;

use crate::hex_pattern::{HexPattern, PatternVal};

verus! {

broadcast use vstd::std_specs::vec::group_vec_axioms;

/// The classification tags that a symbolic entity reference can carry.
#[derive(PartialEq, Eq, Structural, Clone, Copy, Debug)]
pub enum EntityType {
    Animal,
    Monster,
    Item,
    Player,
    Living,
}

/// Which pairs of tags can never both hold of one entity. `Item` excludes
/// every other tag; `Animal`, `Monster` and `Player` exclude one another.
pub open spec fn excl(a: EntityType, b: EntityType) -> bool {
    match a {
        EntityType::Animal => b == EntityType::Monster || b == EntityType::Player
            || b == EntityType::Item,
        EntityType::Monster => b == EntityType::Animal || b == EntityType::Player
            || b == EntityType::Item,
        EntityType::Item => b != a,
        EntityType::Player => b == EntityType::Animal || b == EntityType::Monster
            || b == EntityType::Item,
        EntityType::Living => b == EntityType::Item,
    }
}

impl EntityType {
    pub fn mutually_exclusive(&self, other: &EntityType) -> (r: bool)
        ensures
            r == excl(*self, *other),
    {
        match *self {
            EntityType::Animal => *other == EntityType::Monster || *other == EntityType::Player
                || *other == EntityType::Item,
            EntityType::Monster => *other == EntityType::Animal || *other == EntityType::Player
                || *other == EntityType::Item,
            EntityType::Item => *other != *self,
            EntityType::Player => *other == EntityType::Animal || *other == EntityType::Monster
                || *other == EntityType::Item,
            EntityType::Living => *other == EntityType::Item,
        }
    }
}

/// Mutual exclusivity of entity tags is a symmetric relation.
pub proof fn lemma_excl_symmetric(a: EntityType, b: EntityType)
    ensures
        excl(a, b) == excl(b, a),
{
}

/// A set over the five entity tags, as one flag per tag.
#[derive(PartialEq, Eq, Structural, Clone, Copy, Debug)]
pub struct EntityTypeSet {
    pub animal: bool,
    pub monster: bool,
    pub item: bool,
    pub player: bool,
    pub living: bool,
}

impl EntityTypeSet {
    /// Whether the set holds tag `t`.
    pub open spec fn has(self, t: EntityType) -> bool {
        match t {
            EntityType::Animal => self.animal,
            EntityType::Monster => self.monster,
            EntityType::Item => self.item,
            EntityType::Player => self.player,
            EntityType::Living => self.living,
        }
    }

    pub fn empty() -> (s: EntityTypeSet)
        ensures
            s == set_none(),
    {
        EntityTypeSet { animal: false, monster: false, item: false, player: false, living: false }
    }

    pub fn full() -> (s: EntityTypeSet)
        ensures
            s == set_all(),
    {
        EntityTypeSet { animal: true, monster: true, item: true, player: true, living: true }
    }

    pub fn contains(&self, t: EntityType) -> (r: bool)
        ensures
            r == self.has(t),
    {
        match t {
            EntityType::Animal => self.animal,
            EntityType::Monster => self.monster,
            EntityType::Item => self.item,
            EntityType::Player => self.player,
            EntityType::Living => self.living,
        }
    }

    pub fn insert(&self, t: EntityType) -> (s: EntityTypeSet)
        ensures
            s == set_insert(*self, t),
    {
        let mut s = *self;
        match t {
            EntityType::Animal => s.animal = true,
            EntityType::Monster => s.monster = true,
            EntityType::Item => s.item = true,
            EntityType::Player => s.player = true,
            EntityType::Living => s.living = true,
        }
        s
    }

    pub fn remove(&self, t: EntityType) -> (s: EntityTypeSet)
        ensures
            s == set_remove(*self, t),
    {
        let mut s = *self;
        match t {
            EntityType::Animal => s.animal = false,
            EntityType::Monster => s.monster = false,
            EntityType::Item => s.item = false,
            EntityType::Player => s.player = false,
            EntityType::Living => s.living = false,
        }
        s
    }

    /// Drops every tag that is mutually exclusive with `g`.
    pub fn retain_compatible(&self, g: EntityType) -> (s: EntityTypeSet)
        ensures
            s == set_filter_excl(*self, g),
    {
        EntityTypeSet {
            animal: self.animal && !(EntityType::Animal).mutually_exclusive(&g),
            monster: self.monster && !(EntityType::Monster).mutually_exclusive(&g),
            item: self.item && !(EntityType::Item).mutually_exclusive(&g),
            player: self.player && !(EntityType::Player).mutually_exclusive(&g),
            living: self.living && !(EntityType::Living).mutually_exclusive(&g),
        }
    }

    /// Whether some tag of the set is mutually exclusive with `g`.
    pub fn any_exclusive_with(&self, g: EntityType) -> (r: bool)
        ensures
            r == exists|t: EntityType| #[trigger] self.has(t) && excl(t, g),
    {
        let r = (self.animal && (EntityType::Animal).mutually_exclusive(&g)) || (self.monster
            && (EntityType::Monster).mutually_exclusive(&g)) || (self.item
            && (EntityType::Item).mutually_exclusive(&g)) || (self.player
            && (EntityType::Player).mutually_exclusive(&g)) || (self.living
            && (EntityType::Living).mutually_exclusive(&g));
        proof {
            if r {
                if self.animal && excl(EntityType::Animal, g) {
                    assert(self.has(EntityType::Animal) && excl(EntityType::Animal, g));
                } else if self.monster && excl(EntityType::Monster, g) {
                    assert(self.has(EntityType::Monster) && excl(EntityType::Monster, g));
                } else if self.item && excl(EntityType::Item, g) {
                    assert(self.has(EntityType::Item) && excl(EntityType::Item, g));
                } else if self.player && excl(EntityType::Player, g) {
                    assert(self.has(EntityType::Player) && excl(EntityType::Player, g));
                } else {
                    assert(self.has(EntityType::Living) && excl(EntityType::Living, g));
                }
            } else {
                assert forall|t: EntityType| !(#[trigger] self.has(t) && excl(t, g)) by {
                    match t {
                        EntityType::Animal => {},
                        EntityType::Monster => {},
                        EntityType::Item => {},
                        EntityType::Player => {},
                        EntityType::Living => {},
                    }
                }
            }
        }
        r
    }
}

pub open spec fn set_none() -> EntityTypeSet {
    EntityTypeSet { animal: false, monster: false, item: false, player: false, living: false }
}

pub open spec fn set_all() -> EntityTypeSet {
    EntityTypeSet { animal: true, monster: true, item: true, player: true, living: true }
}

pub open spec fn set_insert(s: EntityTypeSet, t: EntityType) -> EntityTypeSet {
    match t {
        EntityType::Animal => EntityTypeSet { animal: true, ..s },
        EntityType::Monster => EntityTypeSet { monster: true, ..s },
        EntityType::Item => EntityTypeSet { item: true, ..s },
        EntityType::Player => EntityTypeSet { player: true, ..s },
        EntityType::Living => EntityTypeSet { living: true, ..s },
    }
}

pub open spec fn set_remove(s: EntityTypeSet, t: EntityType) -> EntityTypeSet {
    match t {
        EntityType::Animal => EntityTypeSet { animal: false, ..s },
        EntityType::Monster => EntityTypeSet { monster: false, ..s },
        EntityType::Item => EntityTypeSet { item: false, ..s },
        EntityType::Player => EntityTypeSet { player: false, ..s },
        EntityType::Living => EntityTypeSet { living: false, ..s },
    }
}

pub open spec fn set_filter_excl(s: EntityTypeSet, g: EntityType) -> EntityTypeSet {
    EntityTypeSet {
        animal: s.animal && !excl(EntityType::Animal, g),
        monster: s.monster && !excl(EntityType::Monster, g),
        item: s.item && !excl(EntityType::Item, g),
        player: s.player && !excl(EntityType::Player, g),
        living: s.living && !excl(EntityType::Living, g),
    }
}

/// A symbolic entity reference: a name, an identifier, and the constraint
/// state over the tag alphabet — the tags proven true and the tags not yet
/// ruled out.
#[derive(PartialEq, Clone, Debug)]
pub struct IotaEntity {
    pub name: String,
    pub uuid: String,
    pub guaranteed_types: EntityTypeSet,
    pub possible_types: EntityTypeSet,
    pub guaranteed_in_range: bool,
}

/// No two guaranteed tags of the entity exclude each other.
pub open spec fn entity_guarantees_consistent(e: IotaEntity) -> bool {
    forall|t: EntityType, u: EntityType|
        #![trigger e.guaranteed_types.has(t), e.guaranteed_types.has(u)]
        e.guaranteed_types.has(t) && e.guaranteed_types.has(u) ==> !excl(t, u)
}

/// No guaranteed tag of the entity has been ruled out.
pub open spec fn entity_guarantees_possible(e: IotaEntity) -> bool {
    forall|t: EntityType| #[trigger] e.guaranteed_types.has(t) ==> e.possible_types.has(t)
}

/// The consistency invariant of an entity: no two guaranteed tags exclude
/// each other, and no guaranteed tag has been ruled out.
pub open spec fn entity_wf(e: IotaEntity) -> bool {
    entity_guarantees_consistent(e) && entity_guarantees_possible(e)
}

impl IotaEntity {
    /// Starts a builder for an entity with the given name (also used as the
    /// initial identifier).
    pub fn new(name: &str) -> (b: EntityBuilder)
        ensures
            b.name@ == name@,
            b.uuid@ == name@,
            (b.guaranteed_types is None),
            (b.possible_types is None),
            (b.guaranteed_in_range is None),
    {
        EntityBuilder {
            name: name.to_owned(),
            uuid: name.to_owned(),
            guaranteed_types: None,
            possible_types: None,
            guaranteed_in_range: None,
        }
    }

    /// Marks `guaranteed` as proven true. Fails without changing anything
    /// if a tag already proven true excludes it; otherwise records it and
    /// rules out every tag it excludes.
    pub fn add_guarenteed(&mut self, guaranteed: EntityType) -> (ok: bool)
        ensures
            ok == !(exists|t: EntityType| #[trigger] old(self).guaranteed_types.has(t) && excl(
                t,
                guaranteed,
            )),
            ok ==> *final(self) == (IotaEntity {
                guaranteed_types: set_insert(old(self).guaranteed_types, guaranteed),
                possible_types: set_filter_excl(old(self).possible_types, guaranteed),
                ..*old(self)
            }),
            !ok ==> *final(self) == *old(self),
            entity_guarantees_consistent(*old(self)) ==> entity_guarantees_consistent(
                *final(self),
            ),
            entity_wf(*old(self)) && old(self).possible_types.has(guaranteed) ==> entity_wf(
                *final(self),
            ),
    {
        if self.guaranteed_types.any_exclusive_with(guaranteed) {
            return false;
        }
        self.possible_types = self.possible_types.retain_compatible(guaranteed);
        self.guaranteed_types = self.guaranteed_types.insert(guaranteed);
        proof {
            lemma_excl_irreflexive(guaranteed);
            if entity_guarantees_consistent(*old(self)) {
                let e2 = *self;
                assert forall|t: EntityType, u: EntityType|
                    #![trigger e2.guaranteed_types.has(t), e2.guaranteed_types.has(u)]
                    e2.guaranteed_types.has(t) && e2.guaranteed_types.has(u) implies !excl(
                    t,
                    u,
                ) by {
                    if t == guaranteed && u == guaranteed {
                    } else if t == guaranteed {
                        assert(old(self).guaranteed_types.has(u));
                        lemma_excl_symmetric(t, u);
                    } else if u == guaranteed {
                        assert(old(self).guaranteed_types.has(t));
                    } else {
                        assert(old(self).guaranteed_types.has(t));
                        assert(old(self).guaranteed_types.has(u));
                    }
                }
            }
            if entity_wf(*old(self)) && old(self).possible_types.has(guaranteed) {
                let e2 = *self;
                assert forall|t: EntityType| #[trigger] e2.guaranteed_types.has(t)
                    implies e2.possible_types.has(t) by {
                    if t == guaranteed {
                    } else {
                        assert(old(self).guaranteed_types.has(t));
                        lemma_excl_symmetric(t, guaranteed);
                    }
                }
            }
        }
        true
    }

    /// Rules `possible` out. Fails without changing anything if that tag is
    /// already proven true; otherwise removes it from the possible set.
    pub fn remove_possible(&mut self, possible: EntityType) -> (ok: bool)
        ensures
            ok == !old(self).guaranteed_types.has(possible),
            ok ==> *final(self) == (IotaEntity {
                possible_types: set_remove(old(self).possible_types, possible),
                ..*old(self)
            }),
            !ok ==> *final(self) == *old(self),
            entity_guarantees_consistent(*old(self)) ==> entity_guarantees_consistent(
                *final(self),
            ),
            entity_wf(*old(self)) ==> entity_wf(*final(self)),
    {
        if self.guaranteed_types.contains(possible) {
            return false;
        }
        self.possible_types = self.possible_types.remove(possible);
        true
    }
}

/// No tag excludes itself.
pub proof fn lemma_excl_irreflexive(t: EntityType)
    ensures
        !excl(t, t),
{
}

/// Staged construction of an entity: accumulates the wanted tag sets and
/// range flag, then `build` replays them through the validated operations.
#[derive(Clone, Debug)]
pub struct EntityBuilder {
    pub name: String,
    pub uuid: String,
    pub guaranteed_types: Option<EntityTypeSet>,
    pub possible_types: Option<EntityTypeSet>,
    pub guaranteed_in_range: Option<bool>,
}

/// The tags a builder wants proven true; none until one is added.
pub open spec fn builder_guaranteed(b: EntityBuilder) -> EntityTypeSet {
    match b.guaranteed_types {
        Some(s) => s,
        None => set_none(),
    }
}

/// The tags a builder still allows; all of them until one is removed.
pub open spec fn builder_possible(b: EntityBuilder) -> EntityTypeSet {
    match b.possible_types {
        Some(s) => s,
        None => set_all(),
    }
}

impl EntityBuilder {
    pub fn name(self, name: &str) -> (b: EntityBuilder)
        ensures
            b == (EntityBuilder { name: b.name, ..self }),
            b.name@ == name@,
    {
        EntityBuilder { name: name.to_owned(), ..self }
    }

    pub fn uuid(self, uuid: &str) -> (b: EntityBuilder)
        ensures
            b == (EntityBuilder { uuid: b.uuid, ..self }),
            b.uuid@ == uuid@,
    {
        EntityBuilder { uuid: uuid.to_owned(), ..self }
    }

    /// Adds a tag to the set the built entity should have proven true.
    pub fn add_guaranteed(self, guaranteed: EntityType) -> (b: EntityBuilder)
        ensures
            b == (EntityBuilder {
                guaranteed_types: Some(set_insert(builder_guaranteed(self), guaranteed)),
                ..self
            }),
    {
        let s = match self.guaranteed_types {
            Some(s) => s,
            None => EntityTypeSet::empty(),
        };
        EntityBuilder { guaranteed_types: Some(s.insert(guaranteed)), ..self }
    }

    /// Removes a tag from the set the built entity should still allow.
    pub fn remove_possible(self, possible: EntityType) -> (b: EntityBuilder)
        ensures
            b == (EntityBuilder {
                possible_types: Some(set_remove(builder_possible(self), possible)),
                ..self
            }),
    {
        let s = match self.possible_types {
            Some(s) => s,
            None => EntityTypeSet::full(),
        };
        EntityBuilder { possible_types: Some(s.remove(possible)), ..self }
    }

    pub fn set_guaranteed_in_range(self, guaranteed_in_range: bool) -> (b: EntityBuilder)
        ensures
            b == (EntityBuilder { guaranteed_in_range: Some(guaranteed_in_range), ..self }),
    {
        EntityBuilder { guaranteed_in_range: Some(guaranteed_in_range), ..self }
    }

    /// Produces the validated entity: starting from no guarantees and every
    /// tag possible, replays each wanted guarantee and each wanted removal
    /// through the checked operations, in the fixed tag order; a step that
    /// would break the invariant is skipped.
    #[verifier::rlimit(60)]
    pub fn build(&self) -> (e: IotaEntity)
        ensures
            e == build_spec(*self),
            entity_wf(e),
    {
        let mut e = IotaEntity {
            name: self.name.clone(),
            uuid: self.uuid.clone(),
            guaranteed_types: EntityTypeSet::empty(),
            possible_types: EntityTypeSet::full(),
            guaranteed_in_range: match self.guaranteed_in_range {
                Some(b) => b,
                None => true,
            },
        };
        proof {
            assert forall|t: EntityType, u: EntityType|
                #![trigger e.guaranteed_types.has(t), e.guaranteed_types.has(u)]
                e.guaranteed_types.has(t) && e.guaranteed_types.has(u) implies !excl(t, u) by {}
            assert forall|t: EntityType| #[trigger] e.guaranteed_types.has(t)
                implies e.possible_types.has(t) by {}
        }
        let g = match self.guaranteed_types {
            Some(s) => s,
            None => EntityTypeSet::empty(),
        };
        let p = match self.possible_types {
            Some(s) => s,
            None => EntityTypeSet::full(),
        };
        let ghost s0 = e;
        if g.animal && e.possible_types.contains(EntityType::Animal) {
            let _ = e.add_guarenteed(EntityType::Animal);
        }
        proof {
            assert(e == add_step(s0, EntityType::Animal, g.animal));
        }
        let ghost s1 = e;
        if g.monster && e.possible_types.contains(EntityType::Monster) {
            let _ = e.add_guarenteed(EntityType::Monster);
        }
        proof {
            assert(e == add_step(s1, EntityType::Monster, g.monster));
        }
        let ghost s2 = e;
        if g.item && e.possible_types.contains(EntityType::Item) {
            let _ = e.add_guarenteed(EntityType::Item);
        }
        proof {
            assert(e == add_step(s2, EntityType::Item, g.item));
        }
        let ghost s3 = e;
        if g.player && e.possible_types.contains(EntityType::Player) {
            let _ = e.add_guarenteed(EntityType::Player);
        }
        proof {
            assert(e == add_step(s3, EntityType::Player, g.player));
        }
        let ghost s4 = e;
        if g.living && e.possible_types.contains(EntityType::Living) {
            let _ = e.add_guarenteed(EntityType::Living);
        }
        proof {
            assert(e == add_step(s4, EntityType::Living, g.living));
        }
        let ghost s5 = e;
        if !p.animal {
            let _ = e.remove_possible(EntityType::Animal);
        }
        proof {
            assert(e == remove_step(s5, EntityType::Animal, !p.animal));
        }
        let ghost s6 = e;
        if !p.monster {
            let _ = e.remove_possible(EntityType::Monster);
        }
        proof {
            assert(e == remove_step(s6, EntityType::Monster, !p.monster));
        }
        let ghost s7 = e;
        if !p.item {
            let _ = e.remove_possible(EntityType::Item);
        }
        proof {
            assert(e == remove_step(s7, EntityType::Item, !p.item));
        }
        let ghost s8 = e;
        if !p.player {
            let _ = e.remove_possible(EntityType::Player);
        }
        proof {
            assert(e == remove_step(s8, EntityType::Player, !p.player));
        }
        let ghost s9 = e;
        if !p.living {
            let _ = e.remove_possible(EntityType::Living);
        }
        proof {
            assert(e == remove_step(s9, EntityType::Living, !p.living));
        }
        e
    }
}

/// One replayed guarantee: applied only when wanted, still possible, and
/// not excluded by a guarantee already in place.
pub open spec fn add_step(e: IotaEntity, g: EntityType, wanted: bool) -> IotaEntity {
    if wanted && e.possible_types.has(g) && !(exists|t: EntityType|
        #[trigger] e.guaranteed_types.has(t) && excl(t, g)) {
        IotaEntity {
            guaranteed_types: set_insert(e.guaranteed_types, g),
            possible_types: set_filter_excl(e.possible_types, g),
            ..e
        }
    } else {
        e
    }
}

/// One replayed removal: applied only when wanted and not already proven.
pub open spec fn remove_step(e: IotaEntity, t: EntityType, wanted: bool) -> IotaEntity {
    if wanted && !e.guaranteed_types.has(t) {
        IotaEntity { possible_types: set_remove(e.possible_types, t), ..e }
    } else {
        e
    }
}

/// The entity a builder produces: the checked operations replayed in the
/// fixed tag order, guarantees first.
pub open spec fn build_spec(b: EntityBuilder) -> IotaEntity {
    let g = builder_guaranteed(b);
    let p = builder_possible(b);
    let e0 = IotaEntity {
        name: b.name,
        uuid: b.uuid,
        guaranteed_types: set_none(),
        possible_types: set_all(),
        guaranteed_in_range: match b.guaranteed_in_range {
            Some(x) => x,
            None => true,
        },
    };
    let e1 = add_step(e0, EntityType::Animal, g.animal);
    let e2 = add_step(e1, EntityType::Monster, g.monster);
    let e3 = add_step(e2, EntityType::Item, g.item);
    let e4 = add_step(e3, EntityType::Player, g.player);
    let e5 = add_step(e4, EntityType::Living, g.living);
    let f1 = remove_step(e5, EntityType::Animal, !p.animal);
    let f2 = remove_step(f1, EntityType::Monster, !p.monster);
    let f3 = remove_step(f2, EntityType::Item, !p.item);
    let f4 = remove_step(f3, EntityType::Player, !p.player);
    remove_step(f4, EntityType::Living, !p.living)
}

/// A vector value: a known triple of doubles (as bit patterns), or an
/// unknown vector with a flag recording whether it is guaranteed to lie in
/// the valid range.
#[derive(PartialEq, Eq, Structural, Clone, Copy, Debug)]
pub enum VectorIota {
    Known(u64, u64, u64),
    Unknown(bool),
}

/// A value of the instruction language. The tag of a value never changes;
/// "unknown" is a state of the payload within a tag, not a tag of its own.
#[derive(PartialEq, Debug)]
pub enum Iota {
    /// An opaque drawn pattern; the engine defines no arithmetic on it.
    Pattern(HexPattern),
    /// A double, known as a bit pattern or unknown.
    Double(Option<u64>),
    /// A vector of three doubles, known or unknown.
    Vector(VectorIota),
    /// The unit marker value.
    Widget,
    /// An ordered list of values, known or of (possibly unknown) length.
    List(IotaList),
    /// A symbolic entity reference.
    Entity(IotaEntity),
}

/// A list value: a known sequence of values, or unknown contents with an
/// optionally known length.
#[derive(PartialEq, Debug)]
pub enum IotaList {
    Known(Vec<Iota>),
    Unknown(Option<usize>),
}

/// Mathematical image of a value, with sequences in place of vectors.
pub ghost enum IotaVal {
    Pattern(PatternVal),
    Double(Option<u64>),
    Vector(VectorIota),
    Widget,
    List(ListVal),
    Entity(IotaEntity),
}

/// Mathematical image of a list value.
pub ghost enum ListVal {
    Known(Seq<IotaVal>),
    Unknown(Option<usize>),
}

/// The mathematical image of a value.
pub open spec fn iota_val(i: Iota) -> IotaVal
    decreases i,
{
    match i {
        Iota::Pattern(p) => IotaVal::Pattern(p@),
        Iota::Double(d) => IotaVal::Double(d),
        Iota::Vector(v) => IotaVal::Vector(v),
        Iota::Widget => IotaVal::Widget,
        Iota::List(l) => IotaVal::List(list_val(l)),
        Iota::Entity(e) => IotaVal::Entity(e),
    }
}

/// The mathematical image of a list value.
pub open spec fn list_val(l: IotaList) -> ListVal
    decreases l,
{
    match l {
        IotaList::Known(v) => ListVal::Known(iota_vals(v@)),
        IotaList::Unknown(n) => ListVal::Unknown(n),
    }
}

/// The mathematical images of a sequence of values, elementwise.
pub open spec fn iota_vals(s: Seq<Iota>) -> Seq<IotaVal>
    decreases s,
{
    if s.len() == 0 {
        Seq::empty()
    } else {
        iota_vals(s.drop_last()).push(iota_val(s.last()))
    }
}

/// `iota_vals` maps elementwise.
pub proof fn lemma_iota_vals(s: Seq<Iota>)
    ensures
        iota_vals(s).len() == s.len(),
        forall|j: int| 0 <= j < s.len() ==> iota_vals(s)[j] == iota_val(s[j]),
    decreases s.len(),
{
    if s.len() > 0 {
        lemma_iota_vals(s.drop_last());
    }
}

impl Iota {
    /// An independent copy with the same mathematical image, so that one
    /// branch's values can evolve without touching another's.
    pub fn duplicate(&self) -> (r: Iota)
        ensures
            iota_val(r) == iota_val(*self),
        decreases *self,
    {
        match self {
            Iota::Pattern(p) => Iota::Pattern(
                HexPattern { start_dir: p.start_dir, pattern_vec: p.pattern_vec.clone() },
            ),
            Iota::Double(d) => Iota::Double(*d),
            Iota::Vector(v) => Iota::Vector(*v),
            Iota::Widget => Iota::Widget,
            Iota::List(l) => Iota::List(l.duplicate()),
            Iota::Entity(e) => Iota::Entity(
                IotaEntity {
                    name: e.name.clone(),
                    uuid: e.uuid.clone(),
                    guaranteed_types: e.guaranteed_types,
                    possible_types: e.possible_types,
                    guaranteed_in_range: e.guaranteed_in_range,
                },
            ),
        }
    }
}

impl IotaList {
    /// An independent copy with the same mathematical image.
    pub fn duplicate(&self) -> (r: IotaList)
        ensures
            list_val(r) == list_val(*self),
        decreases *self,
    {
        match self {
            IotaList::Known(v) => {
                let mut out: Vec<Iota> = Vec::new();
                let n = v.len();
                let mut k: usize = 0;
                while k < n
                    invariant
                        *self == IotaList::Known(*v),
                        n == v@.len(),
                        0 <= k <= n,
                        out@.len() == k,
                        forall|j: int|
                            0 <= j < k ==> iota_val(#[trigger] out@[j]) == iota_val(v@[j]),
                    decreases n - k,
                {
                    proof {
                        assert(decreases_to!(*self => (*self)->Known_0));
                        assert((*self)->Known_0 == *v);
                        assert(decreases_to!(*v => v@[k as int]));
                    }
                    let d = v[k].duplicate();
                    out.push(d);
                    k = k + 1;
                }
                proof {
                    lemma_iota_vals(out@);
                    lemma_iota_vals(v@);
                    assert(iota_vals(out@) =~= iota_vals(v@));
                }
                IotaList::Known(out)
            },
            IotaList::Unknown(n) => IotaList::Unknown(*n),
        }
    }
}

/// An independent copy of each element of a slice of values, preserving
/// every mathematical image.
pub fn duplicate_iotas(v: &[Iota]) -> (r: Vec<Iota>)
    ensures
        r@.len() == v@.len(),
        forall|j: int| 0 <= j < v@.len() ==> iota_val(#[trigger] r@[j]) == iota_val(v@[j]),
{
    let mut out: Vec<Iota> = Vec::new();
    let n = v.len();
    let mut k: usize = 0;
    while k < n
        invariant
            n == v@.len(),
            0 <= k <= n,
            out@.len() == k,
            forall|j: int| 0 <= j < k ==> iota_val(#[trigger] out@[j]) == iota_val(v@[j]),
        decreases n - k,
    {
        let d = vstd::slice::slice_index_get(v, k).duplicate();
        out.push(d);
        k = k + 1;
    }
    out
}

/// Why a branch of execution has faulted; terminal for that branch.
#[derive(PartialEq, Eq, Structural, Clone, Copy, Debug)]
pub enum ActionError {
    OutOfBounds,
    StackTooSmall,
    DivByZero,
    InvalidType,
}

/// One possible world: the operand stack (top last) and the single side
/// register ("ravenmind") carried beside it.
#[derive(PartialEq, Debug)]
pub struct StackState {
    pub stack: Vec<Iota>,
    pub ravenmind: Option<Iota>,
}

/// Mathematical image of one possible world.
pub ghost struct StackVal {
    pub stack: Seq<IotaVal>,
    pub ravenmind: Option<IotaVal>,
}

/// The mathematical image of an optional value.
pub open spec fn opt_iota_val(o: Option<Iota>) -> Option<IotaVal> {
    match o {
        Some(i) => Some(iota_val(i)),
        None => None,
    }
}

/// The mathematical image of one possible world.
pub open spec fn stack_val(s: StackState) -> StackVal {
    StackVal { stack: iota_vals(s.stack@), ravenmind: opt_iota_val(s.ravenmind) }
}

impl View for StackState {
    type V = StackVal;

    open spec fn view(&self) -> StackVal {
        stack_val(*self)
    }
}

impl StackState {
    pub fn new(stack: Vec<Iota>, ravenmind: Option<Iota>) -> (s: StackState)
        ensures
            s@ == (StackVal { stack: iota_vals(stack@), ravenmind: opt_iota_val(ravenmind) }),
    {
        StackState { stack, ravenmind }
    }
}

/// The mathematical image of one branch: the world, or the error that ended
/// it.
pub open spec fn branch_val(r: Result<StackState, ActionError>) -> Result<StackVal, ActionError> {
    match r {
        Ok(s) => Ok(stack_val(s)),
        Err(e) => Err(e),
    }
}

/// The mathematical images of a sequence of branches, elementwise.
pub open spec fn branch_vals(s: Seq<Result<StackState, ActionError>>) -> Seq<
    Result<StackVal, ActionError>,
> {
    Seq::new(s.len(), |i: int| branch_val(s[i]))
}

/// All the possible worlds reachable at one point of execution: each entry
/// is one world still live, or the error that ended it.
#[derive(PartialEq, Debug)]
pub struct StackHolder(pub Vec<Result<StackState, ActionError>>);

impl View for StackHolder {
    type V = Seq<Result<StackVal, ActionError>>;

    open spec fn view(&self) -> Seq<Result<StackVal, ActionError>> {
        branch_vals(self.0@)
    }
}

/// An instruction: a total transition from one possible world to the set of
/// worlds that could result from it.
pub trait Action {
    /// The set of worlds (or terminal errors) the instruction can lead to
    /// from world `s`, in order.
    spec fn transition(&self, s: StackVal) -> Seq<Result<StackVal, ActionError>>;

    fn apply(&self, state: &StackState) -> (h: StackHolder)
        ensures
            h@ == self.transition(state@),
    ;
}

/// The mathematical images of a fixed-arity transform's results,
/// elementwise.
pub open spec fn out_vals(s: Seq<Result<Vec<Iota>, ActionError>>) -> Seq<
    Result<Seq<IotaVal>, ActionError>,
> {
    Seq::new(
        s.len(),
        |i: int|
            match s[i] {
                Ok(v) => Ok(iota_vals(v@)),
                Err(e) => Err(e),
            },
    )
}

/// A fixed-arity instruction: a pure transform of the top `arity` operands,
/// ignorant of the rest of the stack and of the ravenmind register.
pub trait ConstLenAction {
    /// How many operands the instruction consumes.
    spec fn arity() -> nat;

    /// The possible outcomes on given operands: each entry is a replacement
    /// for the consumed operands, or a terminal error.
    spec fn out_spec(&self, operands: Seq<IotaVal>) -> Seq<Result<Seq<IotaVal>, ActionError>>;

    fn len() -> (n: usize)
        ensures
            n as nat == Self::arity(),
    ;

    fn apply(&self, iotas: &[Iota]) -> (out: Vec<Result<Vec<Iota>, ActionError>>)
        requires
            iotas@.len() == Self::arity(),
        ensures
            out_vals(out@) == self.out_spec(iota_vals(iotas@)),
    ;
}

/// A transform over some other fixed shape of arguments; no instruction
/// uses it yet.
pub trait FixedArgsAction<Args> {
    fn apply(&self, iotas: Args) -> Vec<Result<Vec<Iota>, ActionError>>;
}

/// The lift of a fixed-arity transform to a full stack transition: too few
/// operands fault the branch; otherwise every outcome of the transform on
/// the top `arity` operands becomes one world, its stack the untouched
/// lower part followed by the outcome, its ravenmind passed through.
pub open spec fn lift_transition<T: ConstLenAction>(action: &T, s: StackVal) -> Seq<
    Result<StackVal, ActionError>,
> {
    if s.stack.len() < T::arity() {
        seq![Err(ActionError::StackTooSmall)]
    } else {
        let keep = s.stack.len() - T::arity();
        action.out_spec(s.stack.skip(keep as int)).map_values(
            |r: Result<Seq<IotaVal>, ActionError>|
                match r {
                    Ok(out) => Ok(
                        StackVal { stack: s.stack.take(keep as int) + out, ravenmind: s.ravenmind },
                    ),
                    Err(e) => Err(e),
                },
        )
    }
}

impl<T: ConstLenAction> Action for T {
    open spec fn transition(&self, s: StackVal) -> Seq<Result<StackVal, ActionError>> {
        lift_transition(self, s)
    }

    fn apply(&self, state: &StackState) -> (h: StackHolder) {
        let arity = T::len();
        let stack_len = state.stack.len();
        if stack_len < arity {
            proof {
                lemma_iota_vals(state.stack@);
            }
            return StackHolder::single(Err(ActionError::StackTooSmall));
        }
        let keep = stack_len - arity;
        let top = vstd::slice::slice_subrange(state.stack.as_slice(), keep, stack_len);
        proof {
            lemma_iota_vals(state.stack@);
            lemma_iota_vals(top@);
            assert(iota_vals(top@) =~= state@.stack.skip(keep as int));
        }
        let results = ConstLenAction::apply(self, top);
        let ghost target = self.transition(state@);
        let n = results.len();
        let mut out: Vec<Result<StackState, ActionError>> = Vec::new();
        let mut i: usize = 0;
        while i < n
            invariant
                n == results@.len(),
                0 <= i <= n,
                out@.len() == i,
                stack_len == state.stack@.len(),
                arity + keep == stack_len,
                (arity as nat) == T::arity(),
                target == self.transition(state@),
                target.len() == n,
                out_vals(results@) == self.out_spec(iota_vals(state.stack@).skip(keep as int)),
                target == out_vals(results@).map_values(
                    |r: Result<Seq<IotaVal>, ActionError>|
                        match r {
                            Ok(o) => Ok(
                                StackVal {
                                    stack: iota_vals(state.stack@).take(keep as int) + o,
                                    ravenmind: opt_iota_val(state.ravenmind),
                                },
                            ),
                            Err(e) => Err(e),
                        },
                ),
                forall|j: int| 0 <= j < i ==> branch_val(#[trigger] out@[j]) == target[j],
            decreases n - i,
        {
            match &results[i] {
                Ok(v) => {
                    let lower = vstd::slice::slice_subrange(state.stack.as_slice(), 0, keep);
                    let mut st = duplicate_iotas(lower);
                    let mut tail = duplicate_iotas(v.as_slice());
                    st.append(&mut tail);
                    let rm = match &state.ravenmind {
                        Some(x) => Some(x.duplicate()),
                        None => None,
                    };
                    proof {
                        lemma_iota_vals(st@);
                        lemma_iota_vals(state.stack@);
                        lemma_iota_vals(v@);
                        assert(iota_vals(st@) =~= iota_vals(state.stack@).take(keep as int)
                            + iota_vals(v@));
                    }
                    out.push(Ok(StackState { stack: st, ravenmind: rm }));
                },
                Err(e) => {
                    out.push(Err(*e));
                },
            }
            i = i + 1;
        }
        let h = StackHolder(out);
        proof {
            assert(h@ =~= target);
        }
        h
    }
}

/// A fixed-arity instruction applied to a world whose stack holds fewer
/// operands than the declared arity yields exactly one branch, faulted
/// with `StackTooSmall`, whatever the stack and the ravenmind hold.
pub proof fn lemma_small_stack_faults<T: ConstLenAction>(action: &T, s: StackVal)
    requires
        s.stack.len() < T::arity(),
    ensures
        action.transition(s) == seq![Err::<StackVal, ActionError>(ActionError::StackTooSmall)],
{
}

/// The branches an instruction leads to from one prior branch: a faulted
/// branch stays as it is; a live one fans out by the instruction.
pub open spec fn branch_transition<A: Action>(action: &A, b: Result<StackVal, ActionError>) -> Seq<
    Result<StackVal, ActionError>,
> {
    match b {
        Ok(s) => action.transition(s),
        Err(e) => seq![Err(e)],
    }
}

/// The branches an instruction leads to from a sequence of prior branches,
/// in order.
pub open spec fn transition_all<A: Action>(
    action: &A,
    branches: Seq<Result<StackVal, ActionError>>,
) -> Seq<Result<StackVal, ActionError>>
    decreases branches.len(),
{
    if branches.len() == 0 {
        Seq::empty()
    } else {
        branch_transition(action, branches.first()) + transition_all(action, branches.drop_first())
    }
}

/// `transition_all` distributes over appending one branch at the end.
pub proof fn lemma_transition_all_snoc<A: Action>(
    action: &A,
    s: Seq<Result<StackVal, ActionError>>,
    x: Result<StackVal, ActionError>,
)
    ensures
        transition_all(action, s.push(x)) == transition_all(action, s) + branch_transition(
            action,
            x,
        ),
    decreases s.len(),
{
    if s.len() == 0 {
        assert(s.push(x).drop_first() =~= s);
        assert(transition_all(action, s.push(x)) =~= transition_all(action, s)
            + branch_transition(action, x));
    } else {
        assert(s.push(x).first() == s.first());
        assert(s.push(x).drop_first() =~= s.drop_first().push(x));
        lemma_transition_all_snoc(action, s.drop_first(), x);
        assert(transition_all(action, s.push(x)) =~= transition_all(action, s)
            + branch_transition(action, x));
    }
}

impl StackHolder {
    /// A holder with the given branches.
    pub fn new(results: Vec<Result<StackState, ActionError>>) -> (h: StackHolder)
        ensures
            h@ == branch_vals(results@),
    {
        StackHolder(results)
    }

    /// A holder with one branch.
    pub fn single(result: Result<StackState, ActionError>) -> (h: StackHolder)
        ensures
            h@ == seq![branch_val(result)],
    {
        let h = StackHolder(vec![result]);
        proof {
            assert(h@ =~= seq![branch_val(result)]);
        }
        h
    }

    /// A holder with one live branch: the usual starting point.
    pub fn single_state(state: StackState) -> (h: StackHolder)
        ensures
            h@ == seq![Ok::<StackVal, ActionError>(state@)],
    {
        let h = StackHolder(vec![Ok(state)]);
        proof {
            assert(h@ =~= seq![Ok::<StackVal, ActionError>(state@)]);
        }
        h
    }

    /// How many branches the holder carries.
    pub fn len(&self) -> (n: usize)
        ensures
            n == self@.len(),
    {
        self.0.len()
    }

    /// Moves every branch of `other` to the end of this holder.
    pub fn append(&mut self, other: &mut StackHolder)
        ensures
            final(self)@ == old(self)@ + old(other)@,
            final(other)@ == Seq::<Result<StackVal, ActionError>>::empty(),
    {
        self.0.append(&mut other.0);
        proof {
            assert(final(self)@ =~= old(self)@ + old(other)@);
            assert(final(other)@ =~= Seq::<Result<StackVal, ActionError>>::empty());
        }
    }

    /// Replaces the branch set with everything the instruction leads to:
    /// each live branch fans out through the instruction, and each branch
    /// that already faulted is kept as it is, in order.
    pub fn apply_action<A: Action>(&mut self, action: &A)
        ensures
            final(self)@ == transition_all(action, old(self)@),
    {
        let mut acc: Vec<Result<StackState, ActionError>> = Vec::new();
        let n = self.0.len();
        let mut i: usize = 0;
        proof {
            assert(old(self)@.take(0) =~= Seq::<Result<StackVal, ActionError>>::empty());
        }
        while i < n
            invariant
                n == self.0@.len(),
                0 <= i <= n,
                *self == *old(self),
                branch_vals(acc@) == transition_all(action, old(self)@.take(i as int)),
            decreases n - i,
        {
            let ghost pre = acc@;
            match &self.0[i] {
                Ok(st) => {
                    let mut sub = action.apply(st);
                    let ghost subv = sub.0@;
                    acc.append(&mut sub.0);
                    proof {
                        assert(branch_vals(acc@) =~= branch_vals(pre) + branch_vals(subv));
                    }
                },
                Err(e) => {
                    acc.push(Err(*e));
                    proof {
                        assert(branch_vals(acc@) =~= branch_vals(pre) + seq![
                            Err::<StackVal, ActionError>(*e),
                        ]);
                    }
                },
            }
            proof {
                assert(old(self)@[i as int] == branch_val(self.0@[i as int]));
                lemma_transition_all_snoc(action, old(self)@.take(i as int), old(self)@[i as int]);
                assert(old(self)@.take(i as int).push(old(self)@[i as int]) =~= old(self)@.take(
                    i as int + 1,
                ));
            }
            i = i + 1;
        }
        proof {
            assert(old(self)@.take(n as int) =~= old(self)@);
        }
        self.0 = acc;
    }
}

impl Default for StackHolder {
    /// A holder with no branches.
    fn default() -> (h: StackHolder)
        ensures
            h@ == Seq::<Result<StackVal, ActionError>>::empty(),
    {
        let h = StackHolder(Vec::new());
        proof {
            assert(h@ =~= Seq::<Result<StackVal, ActionError>>::empty());
        }
        h
    }
}

/// The sequencing driver: owns the current set of possible worlds and runs
/// instructions against it in place.
pub struct StackManager {
    pub holder: StackHolder,
}

impl StackManager {
    pub fn new(holder: StackHolder) -> (m: StackManager)
        ensures
            m.holder@ == holder@,
    {
        StackManager { holder }
    }

    /// Runs one instruction against every live branch, replacing the owned
    /// branch set with everything the instruction leads to.
    pub fn apply_action<A: Action>(&mut self, action: &A)
        ensures
            final(self).holder@ == transition_all(action, old(self).holder@),
    {
        self.holder.apply_action(action);
    }

    /// Read access to the current branch set.
    pub fn holder(&self) -> (h: &StackHolder)
        ensures
            h@ == self.holder@,
    {
        &self.holder
    }
}

} // verus!
