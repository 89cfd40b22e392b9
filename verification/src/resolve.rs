//! Finding the form's slots in a layout tree.
//!
//! A layout may name a username field, a password field and a runner
//! selector any number of times. The form has one slot for each: the first
//! node of a role, in the order of a depth-first walk, takes the slot, and
//! every later node of that role is left out of what is rendered.

use vstd::prelude::*;
use crate::components::Component;

verus! {

/// The three things a login form asks for.
#[derive(Clone, Copy, Debug, PartialEq, Eq, Structural)]
pub enum Role {
    Username,
    Password,
    Runner,
}

impl Component {
    /// The role a node plays in the form, if it plays one.
    pub open spec fn role(&self) -> Option<Role> {
        match self {
            Component::Username(_) => Some(Role::Username),
            Component::Password(_) => Some(Role::Password),
            Component::Runner(_) => Some(Role::Runner),
            _ => None,
        }
    }

    /// The role of every node of the tree, parents before children and
    /// children from first to last. A node's place in this list is its id.
    pub open spec fn roles(&self) -> Seq<Option<Role>>
        decreases self,
    {
        match self {
            Component::Box(b) => seq![None] + Self::roles_all(b.children@),
            _ => seq![self.role()],
        }
    }

    /// The roles of a row of trees, one tree after the other.
    pub open spec fn roles_all(nodes: Seq<Component>) -> Seq<Option<Role>>
        decreases nodes,
    {
        if nodes.len() == 0 {
            Seq::empty()
        } else {
            Self::roles_all(nodes.drop_last()) + nodes.last().roles()
        }
    }

    /// The list of roles names every node once.
    pub proof fn roles_len(&self)
        ensures
            self.roles().len() == self.size(),
        decreases self,
    {
        match self {
            Component::Box(b) => {
                Self::roles_all_len(b.children@);
            },
            _ => {},
        }
    }

    /// The list of roles of a row names every node once.
    pub proof fn roles_all_len(nodes: Seq<Component>)
        ensures
            Self::roles_all(nodes).len() == Self::size_all(nodes),
        decreases nodes,
    {
        if nodes.len() > 0 {
            Self::roles_all_len(nodes.drop_last());
            nodes.last().roles_len();
        }
    }

    /// The roles of the first `n` trees of a row open the roles of the row.
    pub proof fn roles_all_prefix(nodes: Seq<Component>, n: int)
        requires
            0 <= n <= nodes.len(),
        ensures
            Self::size_all(nodes.take(n)) <= Self::size_all(nodes),
            Self::roles_all(nodes.take(n)) == Self::roles_all(nodes).take(
                Self::size_all(nodes.take(n)) as int,
            ),
        decreases nodes.len(),
    {
        Self::roles_all_len(nodes);
        Self::roles_all_len(nodes.take(n));
        if n == nodes.len() {
            assert(nodes.take(n) =~= nodes);
            assert(Self::roles_all(nodes).take(Self::size_all(nodes) as int) =~= Self::roles_all(
                nodes,
            ));
        } else {
            assert(nodes.drop_last().take(n) =~= nodes.take(n));
            Self::roles_all_prefix(nodes.drop_last(), n);
            Self::roles_all_len(nodes.drop_last());
            assert(Self::roles_all(nodes.take(n)) =~= Self::roles_all(nodes).take(
                Self::size_all(nodes.take(n)) as int,
            ));
        }
    }

    /// Where the roles of the `i`-th tree of a row stand in the roles of the row.
    pub proof fn roles_all_slice(nodes: Seq<Component>, i: int)
        requires
            0 <= i < nodes.len(),
        ensures
            Self::size_all(nodes.take(i + 1)) == Self::size_all(nodes.take(i)) + nodes[i].size(),
            Self::size_all(nodes.take(i + 1)) <= Self::size_all(nodes),
            Self::roles_all(nodes).len() == Self::size_all(nodes),
            Self::roles_all(nodes).subrange(
                Self::size_all(nodes.take(i)) as int,
                Self::size_all(nodes.take(i + 1)) as int,
            ) == nodes[i].roles(),
    {
        let upto = nodes.take(i + 1);
        assert(upto.drop_last() =~= nodes.take(i));
        assert(upto.last() == nodes[i]);
        Self::roles_all_len(nodes);
        Self::roles_all_len(nodes.take(i));
        nodes[i].roles_len();
        Self::roles_all_len(upto);
        Self::roles_all_prefix(nodes, i + 1);
        let whole = Self::roles_all(nodes);
        let opening = Self::roles_all(upto);
        let from = Self::size_all(nodes.take(i)) as int;
        let to = Self::size_all(upto) as int;
        assert(opening == Self::roles_all(nodes.take(i)) + nodes[i].roles());
        assert(opening.subrange(from, to) =~= nodes[i].roles());
        assert(whole.subrange(from, to) =~= opening.subrange(from, to));
    }
}

/// Whether the node with id `at` is the first of `role`: it has the role,
/// and no node before it has.
pub open spec fn claims(roles: Seq<Option<Role>>, role: Role, at: int) -> bool {
    &&& 0 <= at < roles.len()
    &&& roles[at] == Some(role)
    &&& forall|j: int| 0 <= j < at ==> roles[j] != Some(role)
}

/// The id of the first node of `role`, if there is one.
pub open spec fn first_of(roles: Seq<Option<Role>>, role: Role) -> Option<int> {
    if exists|at: int| claims(roles, role, at) {
        Some(choose|at: int| claims(roles, role, at))
    } else {
        None
    }
}

/// Whether the node with id `at` is rendered: every node without a role
/// is, and of the nodes of one role the first.
pub open spec fn kept(roles: Seq<Option<Role>>, at: int) -> bool {
    match roles[at] {
        Some(role) => claims(roles, role, at),
        None => true,
    }
}

/// The node that fills each slot of the form, by id.
#[derive(Clone, Copy, Debug, PartialEq, Eq)]
pub struct Slots {
    pub username: Option<usize>,
    pub password: Option<usize>,
    pub runner: Option<usize>,
}

/// [`Slots`] over the integers.
pub struct SlotsView {
    pub username: Option<int>,
    pub password: Option<int>,
    pub runner: Option<int>,
}

/// An id over the integers.
pub open spec fn id_view(id: Option<usize>) -> Option<int> {
    match id {
        Some(at) => Some(at as int),
        None => None,
    }
}

impl View for Slots {
    type V = SlotsView;

    open spec fn view(&self) -> SlotsView {
        SlotsView {
            username: id_view(self.username),
            password: id_view(self.password),
            runner: id_view(self.runner),
        }
    }
}

/// Whether a slot holds what the walk must leave in it: the first node of
/// the role, and nothing where no node has the role. No two values of a
/// slot meet this for one layout, so every walk through it fills the slot
/// alike.
pub open spec fn filled_by_first(slot: Option<usize>, roles: Seq<Option<Role>>, role: Role) -> bool {
    match slot {
        Some(at) => claims(roles, role, at as int),
        None => forall|j: int| 0 <= j < roles.len() ==> roles[j] != Some(role),
    }
}

/// The slots of a tree with these roles: each goes to the first node of its role.
pub open spec fn slots_of(roles: Seq<Option<Role>>) -> SlotsView {
    SlotsView {
        username: first_of(roles, Role::Username),
        password: first_of(roles, Role::Password),
        runner: first_of(roles, Role::Runner),
    }
}

/// A node that was left out of the form because the slot of its role was
/// taken when the walk reached it.
#[derive(Clone, Copy, Debug, PartialEq, Eq)]
pub struct Conflict {
    pub id: usize,
    pub role: Role,
}

/// A [`Conflict`] over the integers.
pub struct ConflictView {
    pub id: int,
    pub role: Role,
}

impl View for Conflict {
    type V = ConflictView;

    open spec fn view(&self) -> ConflictView {
        ConflictView { id: self.id as int, role: self.role }
    }
}

/// The conflicts of a list, each over the integers.
pub open spec fn conflicts_view(conflicts: Seq<Conflict>) -> Seq<ConflictView> {
    conflicts.map_values(|conflict: Conflict| conflict@)
}

/// The nodes with ids from `from` up to, not including, `to` that are
/// not kept, in rising order, each with its role.
pub open spec fn left_out(all: Seq<Option<Role>>, from: int, to: int) -> Seq<ConflictView>
    decreases to - from,
{
    if to <= from {
        Seq::empty()
    } else if kept(all, to - 1) {
        left_out(all, from, to - 1)
    } else {
        left_out(all, from, to - 1).push(ConflictView { id: to - 1, role: all[to - 1]->0 })
    }
}

/// A node of the rendered tree: the node of the layout it stands for, that
/// node's id, and what is rendered below it.
#[derive(Debug)]
pub struct Rendered<'a> {
    pub id: usize,
    pub node: &'a Component,
    pub children: Vec<Rendered<'a>>,
}

/// A [`Rendered`] tree over sequences.
pub struct RenderedView {
    pub id: int,
    pub node: Component,
    pub children: Seq<RenderedView>,
}

impl<'a> Rendered<'a> {
    /// The tree over sequences.
    pub open spec fn model(&self) -> RenderedView
        decreases self,
    {
        RenderedView {
            id: self.id as int,
            node: *self.node,
            children: Self::models(self.children@),
        }
    }

    /// A row of trees over sequences.
    pub open spec fn models(nodes: Seq<Rendered<'a>>) -> Seq<RenderedView>
        decreases nodes,
    {
        if nodes.len() == 0 {
            Seq::empty()
        } else {
            Self::models(nodes.drop_last()).push(nodes.last().model())
        }
    }
}

impl<'a> View for Rendered<'a> {
    type V = RenderedView;

    open spec fn view(&self) -> RenderedView {
        self.model()
    }
}

/// One rendered node or none, as a row.
pub open spec fn row_of(rendered: Option<RenderedView>) -> Seq<RenderedView> {
    match rendered {
        Some(node) => seq![node],
        None => Seq::empty(),
    }
}

/// What is rendered of the tree `node`, whose root has id `id` in a layout
/// with the roles `all`: the tree without the nodes that are not kept.
/// Only nodes with a role are ever left out, and those have no children.
pub open spec fn prune(node: Component, id: int, all: Seq<Option<Role>>) -> Option<RenderedView>
    decreases node,
{
    if kept(all, id) {
        Some(
            RenderedView {
                id,
                node,
                children: match node {
                    Component::Box(b) => prune_all(b.children@, id + 1, all),
                    _ => Seq::empty(),
                },
            },
        )
    } else {
        None
    }
}

/// What is rendered of a row of trees, the first of which has id `id`.
pub open spec fn prune_all(nodes: Seq<Component>, id: int, all: Seq<Option<Role>>) -> Seq<
    RenderedView,
>
    decreases nodes,
{
    if nodes.len() == 0 {
        Seq::empty()
    } else {
        let before = nodes.drop_last();
        prune_all(before, id, all) + row_of(
            prune(nodes.last(), id + Component::size_all(before), all),
        )
    }
}

/// A role that occurs has a first node, at or before any node that has it.
pub proof fn first_exists(roles: Seq<Option<Role>>, role: Role, at: int)
    requires
        0 <= at < roles.len(),
        roles[at] == Some(role),
    ensures
        exists|first: int| claims(roles, role, first) && first <= at,
    decreases at,
{
    if exists|j: int| 0 <= j < at && roles[j] == Some(role) {
        let j = choose|j: int| 0 <= j < at && roles[j] == Some(role);
        first_exists(roles, role, j);
    } else {
        assert(claims(roles, role, at));
    }
}

/// No two nodes are the first of one role.
pub proof fn first_of_unique(roles: Seq<Option<Role>>, role: Role, at: int)
    requires
        claims(roles, role, at),
    ensures
        first_of(roles, role) == Some(at),
{
    let other = choose|i: int| claims(roles, role, i);
    if other < at {
        assert(roles[other] != Some(role));
    } else if at < other {
        assert(roles[at] != Some(role));
    }
}

/// A slot is empty exactly where no node has its role, and else holds the
/// one node that has the role while none before it has.
pub proof fn first_of_characterized(roles: Seq<Option<Role>>, role: Role)
    ensures
        first_of(roles, role) is None <==> forall|j: int|
            0 <= j < roles.len() ==> roles[j] != Some(role),
        forall|at: int| first_of(roles, role) == Some(at) <==> claims(roles, role, at),
{
    if first_of(roles, role) is None {
        assert forall|j: int| 0 <= j < roles.len() implies roles[j] != Some(role) by {
            if roles[j] == Some(role) {
                first_exists(roles, role, j);
            }
        }
    }
    assert forall|at: int| claims(roles, role, at) implies first_of(roles, role) == Some(at) by {
        first_of_unique(roles, role, at);
    }
}

/// Two walks through one layout fill a slot alike: what the first node
/// of a role is does not depend on the walk.
pub proof fn slots_agree(
    roles: Seq<Option<Role>>,
    role: Role,
    once: Option<usize>,
    again: Option<usize>,
)
    requires
        filled_by_first(once, roles, role),
        filled_by_first(again, roles, role),
    ensures
        once == again,
{
    first_of_characterized(roles, role);
    if let Some(at) = once {
        first_of_unique(roles, role, at as int);
    }
    if let Some(at) = again {
        first_of_unique(roles, role, at as int);
    }
}

/// How a slot changes when the walk passes the node with id `n`: a filled
/// slot stays as it is, an empty one is filled if the node has the role.
pub proof fn first_of_grows(all: Seq<Option<Role>>, role: Role, n: int)
    requires
        0 <= n < all.len(),
    ensures
        first_of(all.take(n + 1), role) == (match first_of(all.take(n), role) {
            Some(at) => Some(at),
            None => if all[n] == Some(role) {
                Some(n)
            } else {
                None
            },
        }),
{
    let short = all.take(n);
    let long = all.take(n + 1);
    first_of_characterized(short, role);
    first_of_characterized(long, role);
    match first_of(short, role) {
        Some(at) => {
            assert(claims(short, role, at));
            assert(claims(long, role, at)) by {
                assert(long[at] == short[at]);
                assert forall|j: int| 0 <= j < at implies long[j] != Some(role) by {
                    assert(long[j] == short[j]);
                }
            }
        },
        None => {
            assert forall|j: int| 0 <= j < n implies long[j] != Some(role) by {
                assert(long[j] == short[j]);
            }
            if all[n] == Some(role) {
                assert(claims(long, role, n));
            }
        },
    }
}

/// A node with a role is the first of it exactly if the slot was still
/// empty when the walk reached it.
pub proof fn claims_iff_unclaimed(all: Seq<Option<Role>>, role: Role, at: int)
    requires
        0 <= at < all.len(),
        all[at] == Some(role),
    ensures
        claims(all, role, at) <==> first_of(all.take(at), role) is None,
{
    let before = all.take(at);
    first_of_characterized(before, role);
    if first_of(before, role) is None {
        assert forall|j: int| 0 <= j < at implies all[j] != Some(role) by {
            assert(before[j] == all[j]);
        }
    } else {
        let first = first_of(before, role)->0;
        assert(claims(before, role, first));
        assert(before[first] == all[first]);
    }
}

impl RenderedView {
    /// The ids of the nodes of a rendered tree, parents before children and
    /// children from first to last.
    pub open spec fn ids(self) -> Seq<int>
        decreases self,
    {
        seq![self.id] + ids_all(self.children)
    }
}

/// The ids of the nodes of a row of rendered trees, one tree after the other.
pub open spec fn ids_all(nodes: Seq<RenderedView>) -> Seq<int>
    decreases nodes,
{
    if nodes.len() == 0 {
        Seq::empty()
    } else {
        ids_all(nodes.drop_last()) + nodes.last().ids()
    }
}

/// The ids from `from` up to, not including, `to` of the nodes that are
/// kept, in rising order.
pub open spec fn kept_ids(all: Seq<Option<Role>>, from: int, to: int) -> Seq<int>
    decreases to - from,
{
    if to <= from {
        Seq::empty()
    } else if kept(all, to - 1) {
        kept_ids(all, from, to - 1).push(to - 1)
    } else {
        kept_ids(all, from, to - 1)
    }
}

/// The kept ids of a range are those of its two halves, one after the other.
pub proof fn kept_ids_split(all: Seq<Option<Role>>, from: int, mid: int, to: int)
    requires
        from <= mid <= to,
    ensures
        kept_ids(all, from, to) == kept_ids(all, from, mid) + kept_ids(all, mid, to),
    decreases to - mid,
{
    if mid == to {
        assert(kept_ids(all, from, mid) + kept_ids(all, mid, to) =~= kept_ids(all, from, to));
    } else {
        kept_ids_split(all, from, mid, to - 1);
        assert(kept_ids(all, from, to) =~= kept_ids(all, from, mid) + kept_ids(all, mid, to));
    }
}

/// An id is among the kept ids of a range exactly if it lies in the range
/// and its node is kept.
pub proof fn kept_ids_hold(all: Seq<Option<Role>>, from: int, to: int, id: int)
    ensures
        kept_ids(all, from, to).contains(id) <==> from <= id < to && kept(all, id),
    decreases to - from,
{
    if from < to {
        kept_ids_hold(all, from, to - 1, id);
        let before = kept_ids(all, from, to - 1);
        if kept(all, to - 1) {
            let now = before.push(to - 1);
            assert(now[before.len() as int] == to - 1);
            if before.contains(id) {
                let k = choose|k: int| 0 <= k < before.len() && before[k] == id;
                assert(now[k] == id);
            }
            if now.contains(id) {
                let k = choose|k: int| 0 <= k < now.len() && now[k] == id;
                if k < before.len() {
                    assert(before[k] == id);
                }
            }
        }
    }
}

/// A node is listed as left out exactly if it lies in the range, has the
/// role it is listed with, and is not kept: every node of a layout is
/// either rendered or reported, and none is both.
pub proof fn left_out_holds(all: Seq<Option<Role>>, from: int, to: int, id: int, role: Role)
    ensures
        left_out(all, from, to).contains(ConflictView { id, role }) <==> {
            &&& from <= id < to
            &&& all[id] == Some(role)
            &&& !kept(all, id)
        },
    decreases to - from,
{
    if from < to {
        left_out_holds(all, from, to - 1, id, role);
        let before = left_out(all, from, to - 1);
        let wanted = ConflictView { id, role };
        if !kept(all, to - 1) {
            let now = before.push(ConflictView { id: to - 1, role: all[to - 1]->0 });
            assert(now[before.len() as int] == ConflictView { id: to - 1, role: all[to - 1]->0 });
            if before.contains(wanted) {
                let k = choose|k: int| 0 <= k < before.len() && before[k] == wanted;
                assert(now[k] == wanted);
            }
            if now.contains(wanted) {
                let k = choose|k: int| 0 <= k < now.len() && now[k] == wanted;
                if k < before.len() {
                    assert(before[k] == wanted);
                }
            }
        }
    }
}

/// What is rendered of a tree holds the kept nodes of the tree, each once,
/// in the order of the layout.
pub proof fn prune_ids(node: Component, id: int, all: Seq<Option<Role>>)
    requires
        0 <= id,
        id + node.size() <= all.len(),
        all.subrange(id, id + node.size()) == node.roles(),
    ensures
        ids_all(row_of(prune(node, id, all))) == kept_ids(all, id, id + node.size()),
    decreases node,
{
    node.roles_len();
    assert(all.subrange(id, id + node.size())[0] == all[id]);
    let rendered = row_of(prune(node, id, all));
    assert(kept_ids(all, id, id) =~= Seq::<int>::empty());
    if kept(all, id) {
        ids_all_single(rendered[0]);
        assert(rendered =~= seq![rendered[0]]);
        match node {
            Component::Box(b) => {
                let inner = Component::roles_all(b.children@);
                Component::roles_all_len(b.children@);
                let below = all.subrange(id + 1, id + 1 + Component::size_all(b.children@));
                assert forall|k: int| 0 <= k < inner.len() implies #[trigger] below[k]
                    == inner[k] by {
                    assert(all.subrange(id, id + node.size())[1 + k] == inner[k]);
                }
                assert(below =~= inner);
                prune_all_ids(b.children@, id + 1, all);
                kept_ids_split(all, id, id + 1, id + node.size());
                assert(ids_all(rendered) =~= kept_ids(all, id, id + node.size()));
            },
            _ => {
                assert(ids_all(Seq::<RenderedView>::empty()) =~= Seq::<int>::empty());
                assert(ids_all(rendered) =~= kept_ids(all, id, id + node.size()));
            },
        }
    } else {
        assert(node !is Box);
    }
}

/// What is rendered of a row of trees holds the kept nodes of the row,
/// each once, in the order of the layout.
pub proof fn prune_all_ids(nodes: Seq<Component>, id: int, all: Seq<Option<Role>>)
    requires
        0 <= id,
        id + Component::size_all(nodes) <= all.len(),
        all.subrange(id, id + Component::size_all(nodes)) == Component::roles_all(nodes),
    ensures
        ids_all(prune_all(nodes, id, all)) == kept_ids(all, id, id + Component::size_all(nodes)),
    decreases nodes,
{
    if nodes.len() == 0 {
        assert(kept_ids(all, id, id) =~= Seq::<int>::empty());
    } else {
        let before = nodes.drop_last();
        let last = nodes.last();
        let mid = id + Component::size_all(before);
        let end = id + Component::size_all(nodes);
        let whole = all.subrange(id, end);
        Component::roles_all_len(before);
        last.roles_len();
        assert(all.subrange(id, mid) =~= Component::roles_all(before)) by {
            assert forall|k: int| 0 <= k < mid - id implies #[trigger] all.subrange(id, mid)[k]
                == Component::roles_all(before)[k] by {
                assert(whole[k] == Component::roles_all(before)[k]);
            }
        }
        assert(all.subrange(mid, end) =~= last.roles()) by {
            assert forall|k: int| 0 <= k < end - mid implies #[trigger] all.subrange(mid, end)[k]
                == last.roles()[k] by {
                assert(whole[mid - id + k] == last.roles()[k]);
            }
        }
        prune_all_ids(before, id, all);
        prune_ids(last, mid, all);
        ids_all_join(prune_all(before, id, all), row_of(prune(last, mid, all)));
        kept_ids_split(all, id, mid, end);
    }
}

/// The ids of a row of one tree are the ids of the tree.
pub proof fn ids_all_single(node: RenderedView)
    ensures
        ids_all(seq![node]) == node.ids(),
{
    let row = seq![node];
    assert(row.drop_last() =~= Seq::<RenderedView>::empty());
    assert(ids_all(row.drop_last()) =~= Seq::<int>::empty());
    assert(row.last() == node);
    assert(ids_all(row) =~= node.ids());
}

/// The ids of two rows, one after the other, are the ids of the rows
/// joined.
pub proof fn ids_all_join(left: Seq<RenderedView>, right: Seq<RenderedView>)
    ensures
        ids_all(left + right) == ids_all(left) + ids_all(right),
    decreases right.len(),
{
    if right.len() == 0 {
        assert(left + right =~= left);
        assert(ids_all(left) + ids_all(right) =~= ids_all(left));
    } else {
        assert((left + right).drop_last() =~= left + right.drop_last());
        ids_all_join(left, right.drop_last());
        assert(ids_all(left + right) =~= ids_all(left) + ids_all(right));
    }
}

/// The rendered tree of a layout holds the kept nodes of the layout, each
/// once, in the order of the layout: every node without a role, and of the
/// nodes of one role the first.
pub proof fn rendered_ids_are_kept_ids(root: Component)
    ensures
        prune(root, 0, root.roles()) matches Some(rendered) && rendered.ids() == kept_ids(
            root.roles(),
            0,
            root.size() as int,
        ),
{
    let all = root.roles();
    root.roles_len();
    assert(all.subrange(0, root.size() as int) =~= all);
    match all[0] {
        Some(role) => {
            assert(claims(all, role, 0));
        },
        None => {},
    }
    prune_ids(root, 0, all);
    let rendered = prune(root, 0, all)->0;
    ids_all_single(rendered);
}

/// Of two nodes of one role the later is left out: it fills no slot, does
/// not occur in the rendered tree, and is reported as a conflict.
pub proof fn later_node_is_left_out(root: Component, role: Role, earlier: int, later: int)
    requires
        0 <= earlier < later < root.roles().len(),
        root.roles()[earlier] == Some(role),
        root.roles()[later] == Some(role),
    ensures
        first_of(root.roles(), role) is Some,
        first_of(root.roles(), role) != Some(later),
        prune(root, 0, root.roles()) matches Some(rendered) && !rendered.ids().contains(later),
        left_out(root.roles(), 0, root.size() as int).contains(ConflictView { id: later, role }),
{
    let all = root.roles();
    root.roles_len();
    first_exists(all, role, earlier);
    first_of_characterized(all, role);
    rendered_ids_are_kept_ids(root);
    kept_ids_hold(all, 0, root.size() as int, later);
    left_out_holds(all, 0, root.size() as int, later, role);
}

/// The node that fills a slot is rendered, and no other node of its role is.
pub proof fn slot_is_rendered(root: Component, role: Role, id: int)
    requires
        0 <= id < root.roles().len(),
        root.roles()[id] == Some(role),
    ensures
        prune(root, 0, root.roles()) matches Some(rendered) && (rendered.ids().contains(id)
            <==> first_of(root.roles(), role) == Some(id)),
{
    let all = root.roles();
    root.roles_len();
    first_of_characterized(all, role);
    rendered_ids_are_kept_ids(root);
    kept_ids_hold(all, 0, root.size() as int, id);
}

/// One step of the walk: renders the tree `node`, whose root has id `id`,
/// fills the slots that its nodes claim, and notes the nodes that come too
/// late. Returns what is rendered and the id that follows the tree.
fn walk<'a>(
    node: &'a Component,
    id: usize,
    slots: &mut Slots,
    conflicts: &mut Vec<Conflict>,
    Ghost(all): Ghost<Seq<Option<Role>>>,
) -> (r: (Option<Rendered<'a>>, usize))
    requires
        all.len() <= usize::MAX,
        id + node.size() <= all.len(),
        all.subrange(id as int, id + node.size()) == node.roles(),
        old(slots)@ == slots_of(all.take(id as int)),
        conflicts_view(old(conflicts)@) == left_out(all, 0, id as int),
    ensures
        r.1 == id + node.size(),
        final(slots)@ == slots_of(all.take(r.1 as int)),
        conflicts_view(final(conflicts)@) == left_out(all, 0, r.1 as int),
        match r.0 {
            Some(rendered) => Some(rendered@),
            None => None,
        } == prune(*node, id as int, all),
    decreases node,
{
    proof {
        node.roles_len();
        assert(all.subrange(id as int, id + node.size())[0] == all[id as int]);
        first_of_grows(all, Role::Username, id as int);
        first_of_grows(all, Role::Password, id as int);
        first_of_grows(all, Role::Runner, id as int);
    }
    match node {
        Component::Username(_) => {
            proof {
                claims_iff_unclaimed(all, Role::Username, id as int);
            }
            if slots.username.is_some() {
                let ghost before = conflicts@;
                conflicts.push(Conflict { id, role: Role::Username });
                proof {
                    assert(conflicts_view(conflicts@) =~= conflicts_view(before).push(
                        ConflictView { id: id as int, role: Role::Username },
                    ));
                }
                (None, id + 1)
            } else {
                slots.username = Some(id);
                (Some(Rendered { id, node, children: Vec::new() }), id + 1)
            }
        },
        Component::Password(_) => {
            proof {
                claims_iff_unclaimed(all, Role::Password, id as int);
            }
            if slots.password.is_some() {
                let ghost before = conflicts@;
                conflicts.push(Conflict { id, role: Role::Password });
                proof {
                    assert(conflicts_view(conflicts@) =~= conflicts_view(before).push(
                        ConflictView { id: id as int, role: Role::Password },
                    ));
                }
                (None, id + 1)
            } else {
                slots.password = Some(id);
                (Some(Rendered { id, node, children: Vec::new() }), id + 1)
            }
        },
        Component::Runner(_) => {
            proof {
                claims_iff_unclaimed(all, Role::Runner, id as int);
            }
            if slots.runner.is_some() {
                let ghost before = conflicts@;
                conflicts.push(Conflict { id, role: Role::Runner });
                proof {
                    assert(conflicts_view(conflicts@) =~= conflicts_view(before).push(
                        ConflictView { id: id as int, role: Role::Runner },
                    ));
                }
                (None, id + 1)
            } else {
                slots.runner = Some(id);
                (Some(Rendered { id, node, children: Vec::new() }), id + 1)
            }
        },
        Component::Box(b) => {
            let mut children: Vec<Rendered<'a>> = Vec::new();
            let mut next: usize = id + 1;
            let mut i: usize = 0;
            proof {
                assert(b.children@.take(0) =~= Seq::<Component>::empty());
            }
            while i < b.children.len()
                invariant
                    i <= b.children.len(),
                    *node == Component::Box(*b),
                    all.len() <= usize::MAX,
                    id + node.size() <= all.len(),
                    all.subrange(id as int, id + node.size()) == node.roles(),
                    next == id + 1 + Component::size_all(b.children@.take(i as int)),
                    slots@ == slots_of(all.take(next as int)),
                    conflicts_view(conflicts@) == left_out(all, 0, next as int),
                    Rendered::models(children@) == prune_all(
                        b.children@.take(i as int),
                        id + 1,
                        all,
                    ),
                decreases b.children.len() - i,
            {
                let ghost upto = b.children@.take(i + 1);
                proof {
                    assert(node->Box_0 == *b);
                    assert(decreases_to!(*node => node->Box_0.children@[i as int]));
                    Component::roles_all_slice(b.children@, i as int);
                    assert(upto.drop_last() =~= b.children@.take(i as int));
                    assert(upto.last() == b.children@[i as int]);
                    let inner = Component::roles_all(b.children@);
                    let from = Component::size_all(b.children@.take(i as int)) as int;
                    let to = Component::size_all(upto) as int;
                    let below = all.subrange(next as int, next + b.children@[i as int].size());
                    let whole = all.subrange(id as int, id + node.size());
                    assert(whole == seq![None::<Role>] + inner);
                    assert forall|k: int| 0 <= k < to - from implies #[trigger] below[k]
                        == inner.subrange(from, to)[k] by {
                        assert(whole[1 + from + k] == inner[from + k]);
                    }
                    assert(below =~= inner.subrange(from, to));
                }
                let ghost before = children@;
                let (sub, after) = walk(&b.children[i], next, slots, conflicts, Ghost(all));
                if let Some(rendered) = sub {
                    children.push(rendered);
                    proof {
                        assert(children@.drop_last() =~= before);
                    }
                }
                next = after;
                i = i + 1;
            }
            proof {
                assert(b.children@.take(i as int) =~= b.children@);
            }
            (Some(Rendered { id, node, children }), next)
        },
        _ => (Some(Rendered { id, node, children: Vec::new() }), id + 1),
    }
}

/// What the walk through a layout yields.
#[derive(Debug)]
pub struct Resolution<'a> {
    /// What is rendered of the layout
    pub rendered: Rendered<'a>,
    /// The node that fills each slot of the form
    pub slots: Slots,
    /// The nodes that were left out, in the order of the layout
    pub conflicts: Vec<Conflict>,
}

/// Walks the layout once, depth first, and returns what is rendered of it
/// together with the slots of the form.
///
/// Each slot goes to the first node of its role. A later node of the same
/// role is left out of the rendered tree and listed as a conflict;
/// everything else is rendered in the order of the layout. The root is
/// always rendered.
pub fn resolve<'a>(root: &'a Component) -> (r: Resolution<'a>)
    requires
        root.size() <= usize::MAX,
    ensures
        Some(r.rendered@) == prune(*root, 0, root.roles()),
        r.slots@ == slots_of(root.roles()),
        conflicts_view(r.conflicts@) == left_out(root.roles(), 0, root.size() as int),
        filled_by_first(r.slots.username, root.roles(), Role::Username),
        filled_by_first(r.slots.password, root.roles(), Role::Password),
        filled_by_first(r.slots.runner, root.roles(), Role::Runner),
{
    let ghost all = root.roles();
    let mut slots = Slots { username: None, password: None, runner: None };
    let mut conflicts: Vec<Conflict> = Vec::new();
    proof {
        root.roles_len();
        assert(all.subrange(0, root.size() as int) =~= all);
        assert(all.take(0) =~= Seq::<Option<Role>>::empty());
        assert(all.take(all.len() as int) =~= all);
        assert(conflicts_view(conflicts@) =~= left_out(all, 0, 0));
    }
    let (rendered, _) = walk(root, 0, &mut slots, &mut conflicts, Ghost(all));
    proof {
        match all[0] {
            Some(role) => {
                assert(claims(all, role, 0));
            },
            None => {},
        }
    }
    proof {
        first_of_characterized(all, Role::Username);
        first_of_characterized(all, Role::Password);
        first_of_characterized(all, Role::Runner);
    }
    Resolution { rendered: rendered.unwrap(), slots, conflicts }
}

} // verus!
