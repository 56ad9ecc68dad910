use vstd::prelude::*;

verus! {

/// The number that identifies a kind of component inside a [`ComponentSet`].
pub type ComponentKind = u64;

/// No two entries of `s` carry the same component kind.
pub open spec fn kinds_distinct<V>(s: Seq<(ComponentKind, V)>) -> bool {
    forall|i: int, j: int|
        0 <= i < s.len() && 0 <= j < s.len() && i != j ==> #[trigger] s[i].0 != #[trigger] s[j].0
}

/// Some entry of `s` carries the kind `kind`.
pub open spec fn has_kind<V>(s: Seq<(ComponentKind, V)>, kind: ComponentKind) -> bool {
    exists|i: int| 0 <= i < s.len() && #[trigger] s[i].0 == kind
}

/// The value stored under `kind`, if any.
pub open spec fn spec_get<V>(s: Seq<(ComponentKind, V)>, kind: ComponentKind) -> Option<V> {
    if has_kind(s, kind) {
        let i = choose|i: int| 0 <= i < s.len() && #[trigger] s[i].0 == kind;
        Some(s[i].1)
    } else {
        None
    }
}

/// Adding a component: a set that already holds the kind is left as it is,
/// otherwise the component is appended.
pub open spec fn spec_insert<V>(s: Seq<(ComponentKind, V)>, kind: ComponentKind, item: V) -> Seq<
    (ComponentKind, V),
> {
    if has_kind(s, kind) {
        s
    } else {
        s.push((kind, item))
    }
}

/// Replacing a component: every entry of the kind is dropped and the new one
/// is appended.
pub open spec fn spec_with<V>(s: Seq<(ComponentKind, V)>, kind: ComponentKind, item: V) -> Seq<
    (ComponentKind, V),
> {
    s.filter(other_kinds(kind)).push((kind, item))
}

/// Holds of the entries whose kind is not `kind`.
pub open spec fn other_kinds<V>(kind: ComponentKind) -> spec_fn((ComponentKind, V)) -> bool {
    |e: (ComponentKind, V)| e.0 != kind
}

/// Dropping entries keeps the kinds of the remaining ones distinct.
pub proof fn lemma_filter_keeps_kinds_distinct<V>(
    s: Seq<(ComponentKind, V)>,
    pred: spec_fn((ComponentKind, V)) -> bool,
)
    requires
        kinds_distinct(s),
    ensures
        kinds_distinct(s.filter(pred)),
    decreases s.len(),
{
    reveal(Seq::filter);
    if s.len() > 0 {
        let rest = s.drop_last();
        assert forall|i: int, j: int|
            0 <= i < rest.len() && 0 <= j < rest.len() && i != j implies #[trigger] rest[i].0
            != #[trigger] rest[j].0 by {
            assert(rest[i] == s[i] && rest[j] == s[j]);
        }
        lemma_filter_keeps_kinds_distinct(rest, pred);
        let f = rest.filter(pred);
        if pred(s.last()) {
            let g = f.push(s.last());
            assert forall|i: int, j: int|
                0 <= i < g.len() && 0 <= j < g.len() && i != j implies #[trigger] g[i].0
                != #[trigger] g[j].0 by {
                if i == f.len() || j == f.len() {
                    let k = if i == f.len() { j } else { i };
                    assert(f.contains(f[k]));
                    rest.lemma_filter_contains_rev(pred, f[k]);
                    let m = choose|m: int| 0 <= m < rest.len() && rest[m] == f[k];
                    assert(s[m] == f[k]);
                    assert(s[s.len() - 1] == s.last());
                } else {
                    assert(g[i] == f[i] && g[j] == f[j]);
                }
            }
        }
    }
}

/// A set of components with at most one component of each kind, kept in the
/// order in which they were added.
pub struct ComponentSet<V> {
    components: Vec<(ComponentKind, V)>,
}

impl<V> View for ComponentSet<V> {
    type V = Seq<(ComponentKind, V)>;

    closed spec fn view(&self) -> Seq<(ComponentKind, V)> {
        self.components@
    }
}

impl<V> ComponentSet<V> {
    #[verifier::type_invariant]
    spec fn inv(&self) -> bool {
        kinds_distinct(self.components@)
    }

    /// An empty set.
    pub fn new() -> (set: Self)
        ensures
            set@ == Seq::<(ComponentKind, V)>::empty(),
    {
        ComponentSet { components: Vec::new() }
    }

    /// Whether a component of the kind is present.
    pub fn contains(&self, kind: ComponentKind) -> (found: bool)
        ensures
            found == has_kind(self@, kind),
    {
        let mut i: usize = 0;
        while i < self.components.len()
            invariant
                i <= self.components@.len(),
                forall|j: int| 0 <= j < i ==> #[trigger] self.components@[j].0 != kind,
            decreases self.components@.len() - i,
        {
            if self.components[i].0 == kind {
                return true;
            }
            i = i + 1;
        }
        false
    }

    /// Adds `item` as the component of kind `kind`, unless the set already
    /// holds a component of that kind, in which case the set is unchanged.
    pub fn insert(self, kind: ComponentKind, item: V) -> (set: Self)
        ensures
            set@ == spec_insert(self@, kind, item),
            kinds_distinct(set@),
    {
        proof {
            use_type_invariant(&self);
        }
        if self.contains(kind) {
            return self;
        }
        let ComponentSet { mut components } = self;
        components.push((kind, item));
        ComponentSet { components }
    }

    /// Replaces the component of kind `kind` by `item`: any present one is
    /// removed and `item` is added at the end.
    pub fn with(self, kind: ComponentKind, item: V) -> (set: Self)
        ensures
            set@ == spec_with(self@, kind, item),
            kinds_distinct(set@),
    {
        proof {
            use_type_invariant(&self);
        }
        let ComponentSet { components } = self;
        let ghost old_seq = components@;
        let ghost pred = other_kinds::<V>(kind);
        let mut kept: Vec<(ComponentKind, V)> = Vec::new();
        let mut rest = components;
        let ghost mut taken: int = 0;
        while rest.len() > 0
            invariant
                0 <= taken <= old_seq.len(),
                rest@ == old_seq.skip(taken),
                pred == other_kinds::<V>(kind),
                kept@ == old_seq.take(taken).filter(pred),
            decreases rest@.len(),
        {
            let e = rest.remove(0);
            proof {
                assert(e == old_seq[taken]);
                let t1 = old_seq.take(taken + 1);
                assert(t1.drop_last() =~= old_seq.take(taken));
                assert(t1.last() == e);
                assert(pred(e) == (e.0 != kind));
                reveal(Seq::filter);
                assert(t1.filter(pred) == if pred(e) {
                    old_seq.take(taken).filter(pred).push(e)
                } else {
                    old_seq.take(taken).filter(pred)
                });
            }
            if e.0 != kind {
                kept.push(e);
            }
            proof {
                taken = taken + 1;
                assert(rest@ =~= old_seq.skip(taken));
            }
        }
        proof {
            assert(old_seq.take(taken) =~= old_seq);
            broadcast use vstd::seq_lib::group_filter_ensures;
        }
        kept.push((kind, item));
        proof {
            let f = old_seq.filter(pred);
            lemma_filter_keeps_kinds_distinct(old_seq, pred);
            assert forall|i: int, j: int|
                0 <= i < kept@.len() && 0 <= j < kept@.len() && i != j implies #[trigger] kept@[i].0
                != #[trigger] kept@[j].0 by {
                if i < f.len() && j < f.len() {
                } else if i < f.len() {
                    assert(pred(f[i]));
                } else if j < f.len() {
                    assert(pred(f[j]));
                }
            }
        }
        ComponentSet { components: kept }
    }

    /// The component of kind `kind`, if the set holds one.
    pub fn get(&self, kind: ComponentKind) -> (found: Option<&V>)
        ensures
            found is None <==> !has_kind(self@, kind),
            found matches Some(v) ==> spec_get(self@, kind) == Some(*v),
    {
        proof {
            use_type_invariant(self);
        }
        let mut i: usize = 0;
        while i < self.components.len()
            invariant
                i <= self.components@.len(),
                kinds_distinct(self.components@),
                forall|j: int| 0 <= j < i ==> #[trigger] self.components@[j].0 != kind,
            decreases self.components@.len() - i,
        {
            if self.components[i].0 == kind {
                proof {
                    let c = choose|c: int| 0 <= c < self@.len() && #[trigger] self@[c].0 == kind;
                    assert(self@[i as int].0 == kind);
                    assert(self@[c].0 == self@[i as int].0);
                    assert(c == i as int);
                }
                return Some(&self.components[i].1);
            }
            i = i + 1;
        }
        None
    }
}

} // verus!

verus! {

/// With distinct kinds, the value stored under a kind is the one at the
/// position that carries it.
pub proof fn lemma_get_at<V>(s: Seq<(ComponentKind, V)>, kind: ComponentKind, i: int)
    requires
        kinds_distinct(s),
        0 <= i < s.len(),
        s[i].0 == kind,
    ensures
        spec_get(s, kind) == Some(s[i].1),
{
    assert(has_kind(s, kind));
    let c = choose|c: int| 0 <= c < s.len() && #[trigger] s[c].0 == kind;
    assert(s[c].0 == s[i].0);
}

/// Replacing a component keeps the kinds distinct.
pub proof fn law_with_keeps_kinds_distinct<V>(
    s: Seq<(ComponentKind, V)>,
    kind: ComponentKind,
    item: V,
)
    requires
        kinds_distinct(s),
    ensures
        kinds_distinct(spec_with(s, kind, item)),
{
    broadcast use vstd::seq_lib::group_filter_ensures;

    let f = s.filter(other_kinds::<V>(kind));
    lemma_filter_keeps_kinds_distinct(s, other_kinds::<V>(kind));
    let g = f.push((kind, item));
    assert forall|i: int, j: int|
        0 <= i < g.len() && 0 <= j < g.len() && i != j implies #[trigger] g[i].0
        != #[trigger] g[j].0 by {
        if i < f.len() && j < f.len() {
            assert(g[i] == f[i] && g[j] == f[j]);
        } else if i < f.len() {
            assert(other_kinds::<V>(kind)(f[i]));
        } else {
            assert(other_kinds::<V>(kind)(f[j]));
        }
    }
}

/// Adding a component keeps the kinds distinct.
pub proof fn law_insert_keeps_kinds_distinct<V>(
    s: Seq<(ComponentKind, V)>,
    kind: ComponentKind,
    item: V,
)
    requires
        kinds_distinct(s),
    ensures
        kinds_distinct(spec_insert(s, kind, item)),
{
    if !has_kind(s, kind) {
        let g = s.push((kind, item));
        assert forall|i: int, j: int|
            0 <= i < g.len() && 0 <= j < g.len() && i != j implies #[trigger] g[i].0
            != #[trigger] g[j].0 by {
            if i < s.len() && j < s.len() {
                assert(g[i] == s[i] && g[j] == s[j]);
            } else if i < s.len() {
                assert(g[i] == s[i]);
            } else {
                assert(g[j] == s[j]);
            }
        }
    }
}

/// Reading a kind right after replacing it gives the new component.
pub proof fn law_get_after_with<V>(s: Seq<(ComponentKind, V)>, kind: ComponentKind, item: V)
    requires
        kinds_distinct(s),
    ensures
        spec_get(spec_with(s, kind, item), kind) == Some(item),
{
    let g = spec_with(s, kind, item);
    law_with_keeps_kinds_distinct(s, kind, item);
    lemma_get_at(g, kind, g.len() - 1);
}

/// Replacing one kind leaves the components of every other kind as they were.
pub proof fn law_with_keeps_other_kinds<V>(
    s: Seq<(ComponentKind, V)>,
    kind: ComponentKind,
    item: V,
    other: ComponentKind,
)
    requires
        kinds_distinct(s),
        other != kind,
    ensures
        spec_get(spec_with(s, kind, item), other) == spec_get(s, other),
{
    broadcast use vstd::seq_lib::group_filter_ensures;

    let pred = other_kinds::<V>(kind);
    let f = s.filter(pred);
    let g = spec_with(s, kind, item);
    law_with_keeps_kinds_distinct(s, kind, item);
    if has_kind(s, other) {
        let m = choose|m: int| 0 <= m < s.len() && #[trigger] s[m].0 == other;
        lemma_get_at(s, other, m);
        assert(pred(s[m]));
        assert(f.contains(s[m]));
        let j = choose|j: int| 0 <= j < f.len() && f[j] == s[m];
        assert(g[j] == f[j]);
        lemma_get_at(g, other, j);
    } else {
        if has_kind(g, other) {
            let j = choose|j: int| 0 <= j < g.len() && #[trigger] g[j].0 == other;
            assert(j < f.len());
            assert(g[j] == f[j]);
            assert(f.contains(f[j]));
            s.lemma_filter_contains_rev(pred, f[j]);
            let m = choose|m: int| 0 <= m < s.len() && s[m] == f[j];
            assert(s[m].0 == other);
        }
    }
}

/// Adding a component of a kind that is present changes nothing that can be
/// read; adding one of a new kind makes it readable.
pub proof fn law_get_after_insert<V>(s: Seq<(ComponentKind, V)>, kind: ComponentKind, item: V)
    requires
        kinds_distinct(s),
    ensures
        has_kind(s, kind) ==> spec_get(spec_insert(s, kind, item), kind) == spec_get(s, kind),
        !has_kind(s, kind) ==> spec_get(spec_insert(s, kind, item), kind) == Some(item),
{
    if !has_kind(s, kind) {
        let g = spec_insert(s, kind, item);
        law_insert_keeps_kinds_distinct(s, kind, item);
        lemma_get_at(g, kind, g.len() - 1);
    }
}

/// Adding a component of one kind leaves every other kind as it was.
pub proof fn law_insert_keeps_other_kinds<V>(
    s: Seq<(ComponentKind, V)>,
    kind: ComponentKind,
    item: V,
    other: ComponentKind,
)
    requires
        kinds_distinct(s),
        other != kind,
    ensures
        spec_get(spec_insert(s, kind, item), other) == spec_get(s, other),
{
    if !has_kind(s, kind) {
        let g = s.push((kind, item));
        law_insert_keeps_kinds_distinct(s, kind, item);
        if has_kind(s, other) {
            let m = choose|m: int| 0 <= m < s.len() && #[trigger] s[m].0 == other;
            lemma_get_at(s, other, m);
            assert(g[m] == s[m]);
            lemma_get_at(g, other, m);
        } else {
            if has_kind(g, other) {
                let j = choose|j: int| 0 <= j < g.len() && #[trigger] g[j].0 == other;
                assert(g[j] == s[j]);
            }
        }
    }
}

/// One call on a component set: `insert` or `with` of a kind and a value.
pub enum ComponentOp<V> {
    Insert(ComponentKind, V),
    With(ComponentKind, V),
}

/// The kind a call adds.
pub open spec fn op_kind<V>(op: ComponentOp<V>) -> ComponentKind {
    match op {
        ComponentOp::Insert(k, _) => k,
        ComponentOp::With(k, _) => k,
    }
}

/// The call is a `with` of `kind`.
pub open spec fn is_with_of<V>(op: ComponentOp<V>, kind: ComponentKind) -> bool {
    op matches ComponentOp::With(k, _) && k == kind
}

/// The call is an `insert` of `kind`.
pub open spec fn is_insert_of<V>(op: ComponentOp<V>, kind: ComponentKind) -> bool {
    op matches ComponentOp::Insert(k, _) && k == kind
}

/// What one call makes of a set.
pub open spec fn apply_op<V>(s: Seq<(ComponentKind, V)>, op: ComponentOp<V>) -> Seq<
    (ComponentKind, V),
> {
    match op {
        ComponentOp::Insert(k, v) => spec_insert(s, k, v),
        ComponentOp::With(k, v) => spec_with(s, k, v),
    }
}

/// The set that `ComponentSet::new` followed by the calls `ops`, in order,
/// builds.
pub open spec fn apply_ops<V>(ops: Seq<ComponentOp<V>>) -> Seq<(ComponentKind, V)>
    decreases ops.len(),
{
    if ops.len() == 0 {
        Seq::empty()
    } else {
        apply_op(apply_ops(ops.drop_last()), ops.last())
    }
}

/// A set built from an empty one by any sequence of `insert` and `with`
/// calls holds at most one component of each kind; it holds one of a kind
/// exactly when some call added that kind; and that component is the value
/// of the last `with` of the kind if there was one, else the value of the
/// first `insert` of the kind.
pub proof fn law_component_sequence<V>(ops: Seq<ComponentOp<V>>, kind: ComponentKind)
    ensures
        kinds_distinct(apply_ops(ops)),
        spec_get(apply_ops(ops), kind) is Some <==> exists|i: int|
            0 <= i < ops.len() && #[trigger] op_kind(ops[i]) == kind,
        forall|i: int, v: V|
            0 <= i < ops.len() && ops[i] == ComponentOp::With(kind, v) && (forall|j: int|
                i < j < ops.len() ==> !#[trigger] is_with_of(ops[j], kind)) ==> spec_get(
                apply_ops(ops),
                kind,
            ) == Some(v),
        forall|i: int, v: V|
            0 <= i < ops.len() && ops[i] == ComponentOp::Insert(kind, v) && (forall|j: int|
                0 <= j < ops.len() ==> !#[trigger] is_with_of(ops[j], kind)) && (forall|j: int|
                0 <= j < i ==> !#[trigger] is_insert_of(ops[j], kind)) ==> spec_get(
                apply_ops(ops),
                kind,
            ) == Some(v),
    decreases ops.len(),
{
    if ops.len() > 0 {
        let n = ops.len() - 1;
        let p = ops.drop_last();
        let prev = apply_ops(p);
        let o = ops.last();
        law_component_sequence(p, kind);
        assert forall|i: int| 0 <= i < n implies #[trigger] p[i] == ops[i] by {}
        match o {
            ComponentOp::Insert(k, v) => {
                law_insert_keeps_kinds_distinct(prev, k, v);
                if k != kind {
                    law_insert_keeps_other_kinds(prev, k, v, kind);
                }
                law_get_after_insert(prev, k, v);
            },
            ComponentOp::With(k, v) => {
                law_with_keeps_kinds_distinct(prev, k, v);
                if k != kind {
                    law_with_keeps_other_kinds(prev, k, v, kind);
                }
                law_get_after_with(prev, k, v);
            },
        }
        let s = apply_ops(ops);
        assert(s == apply_op(prev, o));
        // Which calls of `kind` there were.
        if exists|i: int| 0 <= i < ops.len() && #[trigger] op_kind(ops[i]) == kind {
            if op_kind(o) != kind {
                let i = choose|i: int| 0 <= i < ops.len() && #[trigger] op_kind(ops[i]) == kind;
                assert(i < n);
                assert(op_kind(p[i]) == kind);
            }
        }
        if op_kind(o) != kind && exists|i: int| 0 <= i < n && #[trigger] op_kind(p[i]) == kind {
            let i = choose|i: int| 0 <= i < n && #[trigger] op_kind(p[i]) == kind;
            assert(op_kind(ops[i]) == kind);
        }
        if op_kind(o) == kind {
            assert(op_kind(ops[n]) == kind);
        }
        // The last `with` of `kind`.
        assert forall|i: int, v: V|
            0 <= i < ops.len() && ops[i] == ComponentOp::With(kind, v) && (forall|j: int|
                i < j < ops.len() ==> !#[trigger] is_with_of(ops[j], kind)) implies spec_get(s, kind)
            == Some(v) by {
            if i < n {
                assert(!is_with_of(ops[n], kind));
                assert forall|j: int| i < j < n implies !#[trigger] is_with_of(p[j], kind) by {
                    assert(!is_with_of(ops[j], kind));
                }
                assert(p[i] == ComponentOp::With(kind, v));
                assert(spec_get(prev, kind) == Some(v));
            }
        }
        // The first `insert` of `kind` when there is no `with` of it.
        assert forall|i: int, v: V|
            0 <= i < ops.len() && ops[i] == ComponentOp::Insert(kind, v) && (forall|j: int|
                0 <= j < ops.len() ==> !#[trigger] is_with_of(ops[j], kind)) && (forall|j: int|
                0 <= j < i ==> !#[trigger] is_insert_of(ops[j], kind)) implies spec_get(s, kind)
            == Some(v) by {
            assert forall|j: int| 0 <= j < n implies !#[trigger] is_with_of(p[j], kind) by {
                assert(!is_with_of(ops[j], kind));
            }
            if i < n {
                assert(!is_with_of(ops[n], kind));
                assert forall|j: int| 0 <= j < i implies !#[trigger] is_insert_of(p[j], kind) by {
                    assert(!is_insert_of(ops[j], kind));
                }
                assert(p[i] == ComponentOp::Insert(kind, v));
                assert(spec_get(prev, kind) == Some(v));
            } else {
                if exists|j: int| 0 <= j < n && #[trigger] op_kind(p[j]) == kind {
                    let j = choose|j: int| 0 <= j < n && #[trigger] op_kind(p[j]) == kind;
                    assert(!is_with_of(ops[j], kind));
                    assert(!is_insert_of(ops[j], kind));
                    assert(false);
                }
                assert(spec_get(prev, kind) is None);
            }
        }
    }
}

} // verus!

verus! {

/// A type that can be stored in a [`ComponentSet`]; `kind` names the slot it
/// occupies there, and no two component types share one.
pub trait Component {
    fn kind() -> ComponentKind;
}

/// Marks an entity that is removed as soon as it touches something solid.
pub struct DestroyOnCollision;

/// Sends the player to another map when touched.
pub struct MapTransitionOnCollision {
    pub map_name: String,
    pub target_player_spawn_id: i32,
}

/// Opens the save menu when touched.
pub struct SaveMenuOnCollision;

/// Marks an entity that is removed at the end of the frame.
pub struct Destroyed;

/// Marks one link of the player's chain.
pub struct ChainSegment;

/// Removes the entity once the given number of frames has passed.
pub struct DestroyAfterFrames {
    pub frames: i32,
}

/// The map-assigned identifier of an entity.
#[derive(Clone, Copy, Debug, PartialEq, Eq, Structural, Hash)]
pub struct Id {
    pub id: i32,
}

/// Text shown when the player touches a terminal.
pub struct Terminal {
    pub content: String,
    pub created_at: String,
}

impl Component for DestroyOnCollision {
    fn kind() -> (k: ComponentKind)
        ensures
            k == 1,
    {
        1
    }
}

impl Component for MapTransitionOnCollision {
    fn kind() -> (k: ComponentKind)
        ensures
            k == 2,
    {
        2
    }
}

impl Component for SaveMenuOnCollision {
    fn kind() -> (k: ComponentKind)
        ensures
            k == 3,
    {
        3
    }
}

impl Component for Destroyed {
    fn kind() -> (k: ComponentKind)
        ensures
            k == 4,
    {
        4
    }
}

impl Component for ChainSegment {
    fn kind() -> (k: ComponentKind)
        ensures
            k == 5,
    {
        5
    }
}

impl Component for DestroyAfterFrames {
    fn kind() -> (k: ComponentKind)
        ensures
            k == 6,
    {
        6
    }
}

impl Component for Id {
    fn kind() -> (k: ComponentKind)
        ensures
            k == 7,
    {
        7
    }
}

impl Component for Terminal {
    fn kind() -> (k: ComponentKind)
        ensures
            k == 8,
    {
        8
    }
}

} // verus!
