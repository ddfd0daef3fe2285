//! The articulation forest as specifications see it: what a wellformed
//! forest is, what inserting and removing an edge does to it, and the laws
//! that follow.

use crate::body::RigidBodyHandle;
use crate::generic_joint::GenericJoint;
use crate::multibody::{LinkJoint, MultibodyEdge, MultibodyLink};
use vstd::prelude::*;

verus! {

/// A multibody, as specifications see it.
pub struct MultibodyView {
    /// The links in the order of the walk.
    pub links: Seq<MultibodyLink>,
    /// Whether the bodies of the multibody may collide with each other.
    pub self_contacts_enabled: bool,
}

/// The forest, as specifications see it.
pub struct Forest {
    pub multibodies: Seq<MultibodyView>,
}

/// The link at place `k` has the link at place `a` among its ancestors.
pub open spec fn link_has_ancestor(links: Seq<MultibodyLink>, k: int, a: int) -> bool
    decreases k,
{
    if 0 < k < links.len() && links[k].edge is Some {
        let p = links[k].edge.unwrap().parent as int;
        p == a || (p < k && link_has_ancestor(links, p, a))
    } else {
        false
    }
}

/// The number of edges of a sequence of multibodies.
pub open spec fn count_edges(multibodies: Seq<MultibodyView>) -> nat
    decreases multibodies.len(),
{
    if multibodies.len() == 0 {
        0
    } else {
        count_edges(multibodies.drop_last()) + multibodies.last().edges()
    }
}

/// The link at place `k` is the link at place `top` or one of its
/// descendants.
pub open spec fn in_subtree(links: Seq<MultibodyLink>, k: int, top: int) -> bool {
    k == top || link_has_ancestor(links, k, top)
}

/// How many of the first `n` links lie outside the subtree at `top`.
pub open spec fn kept_before(links: Seq<MultibodyLink>, top: int, n: int) -> nat
    decreases n,
{
    if n <= 0 {
        0
    } else if in_subtree(links, n - 1, top) {
        kept_before(links, top, n - 1)
    } else {
        kept_before(links, top, n - 1) + 1
    }
}

/// The link at place `k` as it stands once the subtree at `top` is gone:
/// its parent has moved down by the number of links that went before it.
pub open spec fn pruned_link(links: Seq<MultibodyLink>, top: int, k: int) -> MultibodyLink {
    MultibodyLink {
        body: links[k].body,
        edge: match links[k].edge {
            Some(edge) => Some(
                LinkJoint { parent: kept_before(links, top, edge.parent as int) as usize, ..edge },
            ),
            None => None,
        },
    }
}

/// The first `n` links without those of the subtree at `top`.
pub open spec fn pruned(links: Seq<MultibodyLink>, top: int, n: int) -> Seq<MultibodyLink>
    decreases n,
{
    if n <= 0 {
        Seq::empty()
    } else if in_subtree(links, n - 1, top) {
        pruned(links, top, n - 1)
    } else {
        pruned(links, top, n - 1).push(pruned_link(links, top, n - 1))
    }
}

/// The place, among the first `n` links, of the link that stands at place
/// `x` once the subtree at `top` is gone.
pub open spec fn place_before_pruning(links: Seq<MultibodyLink>, top: int, n: int, x: int) -> int
    decreases n,
{
    if n <= 0 {
        -1
    } else if !in_subtree(links, n - 1, top) && kept_before(links, top, n - 1) == x {
        n - 1
    } else {
        place_before_pruning(links, top, n - 1, x)
    }
}

/// The links that are kept fill the places from zero on, in their old
/// order.
pub proof fn lemma_kept_before(links: Seq<MultibodyLink>, top: int, m: int, n: int)
    requires
        0 <= m <= n,
    ensures
        kept_before(links, top, m) <= kept_before(links, top, n) <= n,
        kept_before(links, top, m) <= m,
        kept_before(links, top, n) - kept_before(links, top, m) <= n - m,
        pruned(links, top, n).len() == kept_before(links, top, n),
        m < n && !in_subtree(links, m, top) ==> kept_before(links, top, m) < kept_before(
            links,
            top,
            n,
        ) && pruned(links, top, n)[kept_before(links, top, m) as int] == pruned_link(links, top, m),
    decreases n,
{
    if m < n {
        lemma_kept_before(links, top, m, n - 1);
        lemma_kept_before(links, top, n - 1, n - 1);
    } else if n > 0 {
        lemma_kept_before(links, top, n - 1, n - 1);
    }
}

/// Every place after pruning came from one place before it, which lies
/// outside the subtree.
pub proof fn lemma_place_before_pruning(links: Seq<MultibodyLink>, top: int, n: int, x: int)
    requires
        0 <= x < kept_before(links, top, n),
    ensures
        0 <= place_before_pruning(links, top, n, x) < n,
        !in_subtree(links, place_before_pruning(links, top, n, x), top),
        kept_before(links, top, place_before_pruning(links, top, n, x)) == x,
        pruned(links, top, n)[x] == pruned_link(
            links,
            top,
            place_before_pruning(links, top, n, x),
        ),
    decreases n,
{
    if n > 0 {
        if !in_subtree(links, n - 1, top) && kept_before(links, top, n - 1) == x {
            lemma_kept_before(links, top, n - 1, n);
        } else {
            lemma_place_before_pruning(links, top, n - 1, x);
            lemma_kept_before(links, top, place_before_pruning(links, top, n - 1, x), n);
        }
    }
}

/// A link outside the subtree is found again from the place it moves to.
pub proof fn lemma_place_after_pruning(links: Seq<MultibodyLink>, top: int, n: int, k: int)
    requires
        0 <= k < n,
        !in_subtree(links, k, top),
    ensures
        place_before_pruning(links, top, n, kept_before(links, top, k) as int) == k,
    decreases n,
{
    if k < n - 1 {
        lemma_place_after_pruning(links, top, n - 1, k);
        lemma_kept_before(links, top, k, n - 1);
    }
}

impl MultibodyLink {
    /// The link of a body without a parent.
    pub open spec fn root(body: RigidBodyHandle) -> MultibodyLink {
        MultibodyLink { body, edge: None }
    }
}

impl MultibodyView {
    /// The number of edges of the multibody: one for each link but the root.
    pub open spec fn edges(self) -> nat {
        if self.links.len() > 0 {
            (self.links.len() - 1) as nat
        } else {
            0
        }
    }

    /// The bodies of the multibody in the order of the walk.
    pub open spec fn bodies(self) -> Seq<RigidBodyHandle> {
        Seq::new(self.links.len(), |k: int| self.links[k].body)
    }

    /// The multibody without the subtree at place `top`.
    pub open spec fn without_subtree(self, top: int) -> MultibodyView {
        MultibodyView { links: pruned(self.links, top, self.links.len() as int), ..self }
    }

    /// Taking a subtree out of a multibody leaves a tree in walking order,
    /// which holds at least the root.
    pub proof fn lemma_without_subtree(self, top: int)
        requires
            self.wf(),
            1 <= top < self.links.len(),
        ensures
            1 <= self.without_subtree(top).links.len() < self.links.len(),
            self.without_subtree(top).links.len() >= 2 ==> self.without_subtree(top).wf(),
            self.without_subtree(top).links[0] == self.links[0],
    {
        let links = self.links;
        let n = links.len() as int;
        let after = self.without_subtree(top);
        lemma_kept_before(links, top, 0, n);
        lemma_kept_before(links, top, top, n);
        lemma_kept_before(links, top, top, top + 1);
        lemma_kept_before(links, top, top + 1, n);
        assert(!in_subtree(links, 0, top));
        assert(kept_before(links, top, 0) == 0);
        assert forall|x: int| 1 <= x < after.links.len() implies (#[trigger] after.links[x]).edge
            is Some && after.links[x].edge.unwrap().parent < x by {
            lemma_place_before_pruning(links, top, n, x);
            let k = place_before_pruning(links, top, n, x);
            if k == 0 {
                assert(false);
            }
            assert(links[k].edge is Some);
            let p = links[k].edge.unwrap().parent as int;
            assert(!in_subtree(links, p, top));
            lemma_kept_before(links, top, p, k);
        }
    }

    /// The multibody is a tree in walking order: it has an edge, its first
    /// link is the root, and every other link has a parent that stands
    /// before it.
    pub open spec fn wf(self) -> bool {
        &&& self.links.len() >= 2
        &&& self.links[0].edge is None
        &&& forall|k: int|
            1 <= k < self.links.len() ==> (#[trigger] self.links[k]).edge is Some
                && self.links[k].edge.unwrap().parent < k
    }
}

impl Forest {
    /// The body of link `k` of multibody `i`.
    pub open spec fn body_at(self, i: int, k: int) -> RigidBodyHandle {
        self.multibodies[i].links[k].body
    }

    /// `(i, k)` is a place of the forest: link `k` of multibody `i`.
    pub open spec fn is_place(self, i: int, k: int) -> bool {
        0 <= i < self.multibodies.len() && 0 <= k < self.multibodies[i].links.len()
    }

    /// The body is link `k` of multibody `i`.
    pub open spec fn has_body_at(self, body: RigidBodyHandle, i: int, k: int) -> bool {
        self.is_place(i, k) && self.body_at(i, k) == body
    }

    /// The body is a link of some multibody.
    pub open spec fn contains_body(self, body: RigidBodyHandle) -> bool {
        exists|i: int, k: int| self.has_body_at(body, i, k)
    }

    /// The place of a body of the forest.
    pub open spec fn location(self, body: RigidBodyHandle) -> (int, int) {
        choose|i: int, k: int| self.has_body_at(body, i, k)
    }

    /// Every multibody is a tree in walking order, and no body stands at two
    /// places.
    pub open spec fn wf(self) -> bool {
        &&& forall|i: int| 0 <= i < self.multibodies.len() ==> (#[trigger] self.multibodies[i]).wf()
        &&& forall|i: int, k: int, j: int, l: int|
            #![trigger self.body_at(i, k), self.body_at(j, l)]
            self.is_place(i, k) && self.is_place(j, l) && self.body_at(i, k) == self.body_at(j, l)
                ==> i == j && k == l
    }

    /// The link of a body of the forest.
    pub open spec fn link_of(self, body: RigidBodyHandle) -> MultibodyLink {
        self.multibodies[self.location(body).0].links[self.location(body).1]
    }

    /// The parent of a body, if it has one.
    pub open spec fn parent_of(self, body: RigidBodyHandle) -> Option<RigidBodyHandle> {
        if self.contains_body(body) && self.link_of(body).edge is Some {
            Some(self.body_at(self.location(body).0, self.link_of(body).edge.unwrap().parent as int))
        } else {
            None
        }
    }

    /// The root of the multibody of a body, if the body belongs to one.
    pub open spec fn root_of(self, body: RigidBodyHandle) -> Option<RigidBodyHandle> {
        if self.contains_body(body) {
            Some(self.body_at(self.location(body).0, 0))
        } else {
            None
        }
    }

    /// Whether the bodies of the multibody of a body may collide with each
    /// other, if the body belongs to a multibody.
    pub open spec fn self_contacts_enabled(self, body: RigidBodyHandle) -> Option<bool> {
        if self.contains_body(body) {
            Some(self.multibodies[self.location(body).0].self_contacts_enabled)
        } else {
            None
        }
    }

    /// The edge that ties a body to its parent, if it has one.
    pub open spec fn edge(self, child: RigidBodyHandle) -> Option<MultibodyEdge> {
        if self.contains_body(child) && self.link_of(child).edge is Some {
            Some(
                MultibodyEdge {
                    parent: self.parent_of(child).unwrap(),
                    child,
                    joint: self.link_of(child).edge.unwrap().joint,
                    merge_as_single_body: self.link_of(child).edge.unwrap().merge_as_single_body,
                    self_contacts_enabled: self.multibodies[self.location(
                        child,
                    ).0].self_contacts_enabled,
                },
            )
        } else {
            None
        }
    }

    /// `ancestor` lies on the way from `body` to the root of its multibody,
    /// and is not `body` itself.
    pub open spec fn is_ancestor(self, ancestor: RigidBodyHandle, body: RigidBodyHandle) -> bool {
        &&& self.contains_body(ancestor)
        &&& self.contains_body(body)
        &&& self.location(ancestor).0 == self.location(body).0
        &&& link_has_ancestor(
            self.multibodies[self.location(body).0].links,
            self.location(body).1,
            self.location(ancestor).1,
        )
    }

    /// The number of edges of the forest.
    pub open spec fn edge_count(self) -> nat {
        count_edges(self.multibodies)
    }

    /// A wellformed forest has a body at one place only, so that place is
    /// its location.
    pub proof fn lemma_location(self, body: RigidBodyHandle, i: int, k: int)
        requires
            self.wf(),
            self.has_body_at(body, i, k),
        ensures
            self.contains_body(body),
            self.location(body) == (i, k),
    {
        let p = self.location(body);
        assert(self.has_body_at(body, p.0, p.1));
        assert(self.body_at(i, k) == self.body_at(p.0, p.1));
    }

    /// The links of the multibody of a body, or the body alone as a root if
    /// it belongs to no multibody.
    pub open spec fn links_or_root(self, body: RigidBodyHandle) -> Seq<MultibodyLink> {
        if self.contains_body(body) {
            self.multibodies[self.location(body).0].links
        } else {
            seq![MultibodyLink::root(body)]
        }
    }

    /// The links of a multibody, made ready to stand behind the links of
    /// another one: the root gets the given joint to the link at
    /// `parent_index`, and every other link finds its parent `offset` places
    /// further on.
    pub open spec fn attached(
        links: Seq<MultibodyLink>,
        parent_index: int,
        offset: int,
        joint: GenericJoint,
        merge_as_single_body: bool,
    ) -> Seq<MultibodyLink> {
        Seq::new(
            links.len(),
            |n: int|
                MultibodyLink {
                    body: links[n].body,
                    edge: Some(
                        if n == 0 {
                            LinkJoint { parent: parent_index as usize, joint, merge_as_single_body }
                        } else {
                            LinkJoint {
                                parent: (links[n].edge.unwrap().parent + offset) as usize,
                                ..links[n].edge.unwrap()
                            }
                        },
                    ),
                },
        )
    }

    /// The multibody that holds `parent` and `child` once `child` hangs
    /// under `parent`: the links of the multibody of `parent`, then those of
    /// the multibody of `child`. It keeps the self-contacts flag of the
    /// multibody of `parent`; where `parent` had none, self-contacts are
    /// enabled.
    pub open spec fn merged(
        self,
        parent: RigidBodyHandle,
        child: RigidBodyHandle,
        joint: GenericJoint,
        merge_as_single_body: bool,
    ) -> MultibodyView {
        let parent_links = self.links_or_root(parent);
        MultibodyView {
            links: parent_links + Forest::attached(
                self.links_or_root(child),
                if self.contains_body(parent) {
                    self.location(parent).1
                } else {
                    0
                },
                parent_links.len() as int,
                joint,
                merge_as_single_body,
            ),
            self_contacts_enabled: if self.contains_body(parent) {
                self.multibodies[self.location(parent).0].self_contacts_enabled
            } else {
                true
            },
        }
    }

    /// The forest with `child` hung under `parent`: the merged multibody
    /// takes the place of the multibody of `parent`, or stands last where
    /// `parent` had none, and the multibody of `child` is gone.
    pub open spec fn insert(
        self,
        parent: RigidBodyHandle,
        child: RigidBodyHandle,
        joint: GenericJoint,
        merge_as_single_body: bool,
    ) -> Forest {
        let merged = self.merged(parent, child, joint, merge_as_single_body);
        let placed = if self.contains_body(parent) {
            self.multibodies.update(self.location(parent).0, merged)
        } else {
            self.multibodies.push(merged)
        };
        Forest {
            multibodies: if self.contains_body(child) {
                placed.remove(self.location(child).0)
            } else {
                placed
            },
        }
    }

    /// `child` can be hung under `parent`: they are two bodies, `child` has
    /// no parent yet, and `child` is no ancestor of `parent`.
    pub open spec fn can_insert(self, parent: RigidBodyHandle, child: RigidBodyHandle) -> bool {
        &&& parent != child
        &&& self.parent_of(child) is None
        &&& !self.is_ancestor(child, parent)
    }

    /// The root of a multibody is an ancestor of each of its other links.
    pub proof fn lemma_root_is_ancestor(multibody: MultibodyView, k: int)
        requires
            multibody.wf(),
            1 <= k < multibody.links.len(),
        ensures
            link_has_ancestor(multibody.links, k, 0),
        decreases k,
    {
        let p = multibody.links[k].edge.unwrap().parent as int;
        if p != 0 {
            Forest::lemma_root_is_ancestor(multibody, p);
        }
    }

    /// An ancestor of a link stands before the link.
    pub proof fn lemma_ancestor_stands_before(multibody: MultibodyView, k: int, a: int)
        requires
            multibody.wf(),
            link_has_ancestor(multibody.links, k, a),
        ensures
            0 <= a < k < multibody.links.len(),
        decreases k,
    {
        let p = multibody.links[k].edge.unwrap().parent as int;
        if p != a {
            Forest::lemma_ancestor_stands_before(multibody, p, a);
        }
    }

    /// Whether `child` can be hung under `parent` shows in their places:
    /// they must be two bodies, and `child`, if it belongs to a multibody,
    /// must be its root and `parent` must not belong to the same one.
    pub proof fn lemma_can_insert(self, parent: RigidBodyHandle, child: RigidBodyHandle)
        requires
            self.wf(),
        ensures
            self.can_insert(parent, child) <==> parent != child && (self.contains_body(child)
                ==> self.location(child).1 == 0 && !(self.contains_body(parent)
                && self.location(parent).0 == self.location(child).0)),
    {
        if self.contains_body(child) {
            let (j, kc) = self.location(child);
            assert(self.has_body_at(child, j, kc));
            assert(self.multibodies[j].wf());
            if kc != 0 {
                assert(self.multibodies[j].links[kc].edge is Some);
            } else if self.contains_body(parent) && parent != child {
                let (i, kp) = self.location(parent);
                assert(self.has_body_at(parent, i, kp));
                if i == j {
                    assert(self.body_at(i, kp) != self.body_at(j, kc));
                    Forest::lemma_root_is_ancestor(self.multibodies[j], kp);
                }
            }
        }
    }

    /// Where the merged multibody stands after an insertion.
    pub open spec fn merged_index(self, parent: RigidBodyHandle, child: RigidBodyHandle) -> int {
        if self.contains_body(parent) {
            if self.contains_body(child) && self.location(child).0 < self.location(parent).0 {
                self.location(parent).0 - 1
            } else {
                self.location(parent).0
            }
        } else if self.contains_body(child) {
            self.multibodies.len() - 1
        } else {
            self.multibodies.len() as int
        }
    }

    /// The place that a place of the forest moves to when `child` is hung
    /// under `parent`. The pair `(-1, 0)` stands for `parent` and `(-2, 0)`
    /// for `child` where they belonged to no multibody before.
    pub open spec fn place_after_insert(
        self,
        parent: RigidBodyHandle,
        child: RigidBodyHandle,
        i: int,
        k: int,
    ) -> (int, int) {
        let offset = self.links_or_root(parent).len() as int;
        let merged_index = self.merged_index(parent, child);
        if i == -1 {
            (merged_index, 0)
        } else if i == -2 {
            (merged_index, offset)
        } else if self.contains_body(parent) && i == self.location(parent).0 {
            (merged_index, k)
        } else if self.contains_body(child) && i == self.location(child).0 {
            (merged_index, offset + k)
        } else if self.contains_body(child) && i > self.location(child).0 {
            (i - 1, k)
        } else {
            (i, k)
        }
    }

    /// The place that a place of the forest came from when `child` was hung
    /// under `parent`: the inverse of `place_after_insert`.
    pub open spec fn place_before_insert(
        self,
        parent: RigidBodyHandle,
        child: RigidBodyHandle,
        x: int,
        k: int,
    ) -> (int, int) {
        let offset = self.links_or_root(parent).len() as int;
        if x == self.merged_index(parent, child) {
            if k < offset {
                if self.contains_body(parent) {
                    (self.location(parent).0, k)
                } else {
                    (-1, 0)
                }
            } else {
                if self.contains_body(child) {
                    (self.location(child).0, k - offset)
                } else {
                    (-2, 0)
                }
            }
        } else if self.contains_body(child) && x >= self.location(child).0 {
            (x + 1, k)
        } else {
            (x, k)
        }
    }

    /// `(i, k)` is a place of the forest, or stands for `parent` or `child`
    /// where that body belongs to no multibody.
    pub open spec fn is_place_or_new(
        self,
        parent: RigidBodyHandle,
        child: RigidBodyHandle,
        i: int,
        k: int,
    ) -> bool {
        ||| self.is_place(i, k)
        ||| (i == -1 && k == 0 && !self.contains_body(parent))
        ||| (i == -2 && k == 0 && !self.contains_body(child))
    }

    /// The body at a place of the forest, or `parent` or `child` at the
    /// pair that stands for it.
    pub open spec fn body_at_or_new(
        self,
        parent: RigidBodyHandle,
        child: RigidBodyHandle,
        i: int,
        k: int,
    ) -> RigidBodyHandle {
        if i == -1 {
            parent
        } else if i == -2 {
            child
        } else {
            self.body_at(i, k)
        }
    }

    /// The insertion is possible and its result can be stored: the merged
    /// multibody has no more links than a machine word counts.
    pub open spec fn insert_fits(self, parent: RigidBodyHandle, child: RigidBodyHandle) -> bool {
        &&& self.wf()
        &&& self.can_insert(parent, child)
        &&& self.links_or_root(parent).len() + self.links_or_root(child).len() <= usize::MAX
    }

    /// Every place of the forest after an insertion came from one place
    /// before it, and holds the body that stood there.
    pub proof fn lemma_place_before_insert(
        self,
        parent: RigidBodyHandle,
        child: RigidBodyHandle,
        joint: GenericJoint,
        merge_as_single_body: bool,
        x: int,
        k: int,
    )
        requires
            self.insert_fits(parent, child),
            self.insert(parent, child, joint, merge_as_single_body).is_place(x, k),
        ensures
            ({
                let after = self.insert(parent, child, joint, merge_as_single_body);
                let (i, b) = self.place_before_insert(parent, child, x, k);
                &&& self.is_place_or_new(parent, child, i, b)
                &&& self.body_at_or_new(parent, child, i, b) == after.body_at(x, k)
                &&& self.place_after_insert(parent, child, i, b) == (x, k)
                &&& x == self.merged_index(parent, child) ==> after.multibodies[x] == self.merged(
                    parent,
                    child,
                    joint,
                    merge_as_single_body,
                )
                &&& x != self.merged_index(parent, child) ==> after.multibodies[x]
                    == self.multibodies[i]
            }),
    {
        self.lemma_can_insert(parent, child);
        if self.contains_body(parent) {
            let (i, kp) = self.location(parent);
            assert(self.has_body_at(parent, i, kp));
        }
        if self.contains_body(child) {
            let (j, kc) = self.location(child);
            assert(self.has_body_at(child, j, kc));
        }
    }

    /// Every place of the forest before an insertion, and `parent` and
    /// `child` where they had none, has one place after it, which holds the
    /// same body.
    pub proof fn lemma_place_after_insert(
        self,
        parent: RigidBodyHandle,
        child: RigidBodyHandle,
        joint: GenericJoint,
        merge_as_single_body: bool,
        i: int,
        k: int,
    )
        requires
            self.insert_fits(parent, child),
            self.is_place_or_new(parent, child, i, k),
        ensures
            ({
                let after = self.insert(parent, child, joint, merge_as_single_body);
                let (x, b) = self.place_after_insert(parent, child, i, k);
                &&& after.is_place(x, b)
                &&& after.body_at(x, b) == self.body_at_or_new(parent, child, i, k)
                &&& self.place_before_insert(parent, child, x, b) == (i, k)
            }),
    {
        self.lemma_can_insert(parent, child);
        if self.contains_body(parent) {
            let (i, kp) = self.location(parent);
            assert(self.has_body_at(parent, i, kp));
        }
        if self.contains_body(child) {
            let (j, kc) = self.location(child);
            assert(self.has_body_at(child, j, kc));
        }
    }

    /// An insertion keeps the forest wellformed.
    pub proof fn lemma_insert_wf(
        self,
        parent: RigidBodyHandle,
        child: RigidBodyHandle,
        joint: GenericJoint,
        merge_as_single_body: bool,
    )
        requires
            self.insert_fits(parent, child),
        ensures
            self.insert(parent, child, joint, merge_as_single_body).wf(),
    {
        let after = self.insert(parent, child, joint, merge_as_single_body);
        let merged = self.merged(parent, child, joint, merge_as_single_body);
        self.lemma_can_insert(parent, child);
        if self.contains_body(parent) {
            let (i, kp) = self.location(parent);
            assert(self.has_body_at(parent, i, kp));
            assert(self.multibodies[i].wf());
        }
        if self.contains_body(child) {
            let (j, kc) = self.location(child);
            assert(self.has_body_at(child, j, kc));
            assert(self.multibodies[j].wf());
        }
        assert(merged.wf()) by {
            let offset = self.links_or_root(parent).len() as int;
            assert forall|k: int| 1 <= k < merged.links.len() implies (#[trigger] merged.links[k]).edge
                is Some && merged.links[k].edge.unwrap().parent < k by {
                if k > offset {
                    assert(self.links_or_root(child)[k - offset].edge is Some);
                }
            }
        }
        assert forall|x: int| 0 <= x < after.multibodies.len() implies (
        #[trigger] after.multibodies[x]).wf() by {
            assert(after.is_place(x, 0));
            self.lemma_place_before_insert(parent, child, joint, merge_as_single_body, x, 0);
        }
        assert forall|x: int, k: int, y: int, l: int|
            after.is_place(x, k) && after.is_place(y, l) && after.body_at(x, k) == after.body_at(
                y,
                l,
            ) implies x == y && k == l by {
            self.lemma_place_before_insert(parent, child, joint, merge_as_single_body, x, k);
            self.lemma_place_before_insert(parent, child, joint, merge_as_single_body, y, l);
            let (a, b) = self.place_before_insert(parent, child, x, k);
            let (c, d) = self.place_before_insert(parent, child, y, l);
            if a >= 0 {
                assert(self.has_body_at(self.body_at(a, b), a, b));
            }
            if c >= 0 {
                assert(self.has_body_at(self.body_at(c, d), c, d));
            }
            if a >= 0 && c >= 0 {
                assert(self.body_at(a, b) == self.body_at(c, d));
            }
        }
    }

    /// What an insertion does to the edges. The new edge ties `child` to
    /// `parent` with the given joint and hint. Every other body keeps its
    /// parent, its joint and its hint, and exactly `parent` and `child` may
    /// have joined the forest.
    pub proof fn lemma_insert_edges(
        self,
        parent: RigidBodyHandle,
        child: RigidBodyHandle,
        joint: GenericJoint,
        merge_as_single_body: bool,
        body: RigidBodyHandle,
    )
        requires
            self.insert_fits(parent, child),
        ensures
            ({
                let after = self.insert(parent, child, joint, merge_as_single_body);
                &&& after.wf()
                &&& after.contains_body(body) == (self.contains_body(body) || body == parent || body
                    == child)
                &&& after.parent_of(body) == if body == child {
                    Some(parent)
                } else {
                    self.parent_of(body)
                }
                &&& after.parent_of(body) is Some ==> after.link_of(body).edge.unwrap().joint
                    == if body == child {
                    joint
                } else {
                    self.link_of(body).edge.unwrap().joint
                }
                &&& after.parent_of(body) is Some ==> after.link_of(
                    body,
                ).edge.unwrap().merge_as_single_body == if body == child {
                    merge_as_single_body
                } else {
                    self.link_of(body).edge.unwrap().merge_as_single_body
                }
            }),
    {
        let after = self.insert(parent, child, joint, merge_as_single_body);
        let merged = self.merged(parent, child, joint, merge_as_single_body);
        let offset = self.links_or_root(parent).len() as int;
        self.lemma_insert_wf(parent, child, joint, merge_as_single_body);
        self.lemma_can_insert(parent, child);
        self.lemma_insert_place_of(parent, child, joint, merge_as_single_body, body);
        if self.contains_body(parent) {
            let (i, kp) = self.location(parent);
            assert(self.has_body_at(parent, i, kp));
            assert(self.multibodies[i].wf());
        }
        if self.contains_body(child) {
            let (j, kc) = self.location(child);
            assert(self.has_body_at(child, j, kc));
            assert(self.multibodies[j].wf());
        }
        if after.contains_body(body) {
            let (x, k) = after.location(body);
            assert(after.has_body_at(body, x, k));
            self.lemma_place_before_insert(parent, child, joint, merge_as_single_body, x, k);
            let (i, b) = self.place_before_insert(parent, child, x, k);
            if i >= 0 {
                self.lemma_location(body, i, b);
                assert(self.multibodies[i].wf());
            }
            if x != self.merged_index(parent, child) {
                assert(after.multibodies[x] == self.multibodies[i]);
            } else {
                assert(after.multibodies[x] == merged);
                if k < offset {
                    assert(merged.links[k] == self.links_or_root(parent)[k]);
                    if k > 0 {
                        let p = merged.links[k].edge.unwrap().parent as int;
                        assert(merged.links[p] == self.links_or_root(parent)[p]);
                    }
                } else if k == offset {
                    let p = merged.links[k].edge.unwrap().parent as int;
                    assert(merged.links[p] == self.links_or_root(parent)[p]);
                } else {
                    let n = k - offset;
                    let old_parent = self.links_or_root(child)[n].edge.unwrap().parent as int;
                    assert(merged.links[k].edge.unwrap().parent == old_parent + offset);
                    assert(merged.links[old_parent + offset].body == self.links_or_root(
                        child,
                    )[old_parent].body);
                }
            }
        }
    }

    /// What an insertion does to the multibodies. `parent` and `child` end
    /// up under one root: the root that `parent` had, or `parent` itself.
    /// Their multibody has the self-contacts flag that the multibody of
    /// `parent` had, or has self-contacts enabled where `parent` had none.
    /// Every body of another multibody keeps its root and its flag.
    pub proof fn lemma_insert_multibodies(
        self,
        parent: RigidBodyHandle,
        child: RigidBodyHandle,
        joint: GenericJoint,
        merge_as_single_body: bool,
        body: RigidBodyHandle,
    )
        requires
            self.insert_fits(parent, child),
        ensures
            ({
                let after = self.insert(parent, child, joint, merge_as_single_body);
                let root = match self.root_of(parent) {
                    Some(root) => root,
                    None => parent,
                };
                let enabled = match self.self_contacts_enabled(parent) {
                    Some(enabled) => enabled,
                    None => true,
                };
                let joins = self.contains_body(body) && (self.root_of(body) == self.root_of(parent)
                    || self.root_of(body) == self.root_of(child));
                &&& after.root_of(parent) == Some(root)
                &&& after.root_of(child) == Some(root)
                &&& after.self_contacts_enabled(parent) == Some(enabled)
                &&& after.self_contacts_enabled(child) == Some(enabled)
                &&& joins ==> after.root_of(body) == Some(root) && after.self_contacts_enabled(body)
                    == Some(enabled)
                &&& !joins && body != parent && body != child ==> after.root_of(body)
                    == self.root_of(body) && after.self_contacts_enabled(body)
                    == self.self_contacts_enabled(body)
            }),
    {
        let after = self.insert(parent, child, joint, merge_as_single_body);
        let merged = self.merged(parent, child, joint, merge_as_single_body);
        let merged_index = self.merged_index(parent, child);
        self.lemma_insert_wf(parent, child, joint, merge_as_single_body);
        self.lemma_can_insert(parent, child);
        self.lemma_insert_place_of(parent, child, joint, merge_as_single_body, parent);
        self.lemma_insert_place_of(parent, child, joint, merge_as_single_body, child);
        self.lemma_insert_place_of(parent, child, joint, merge_as_single_body, body);
        if self.contains_body(parent) {
            let (i, kp) = self.location(parent);
            assert(self.has_body_at(parent, i, kp));
            assert(self.has_body_at(self.body_at(i, 0), i, 0));
        }
        if self.contains_body(child) {
            let (j, kc) = self.location(child);
            assert(self.has_body_at(child, j, kc));
            assert(self.has_body_at(self.body_at(j, 0), j, 0));
        }
        assert(after.is_place(merged_index, 0)) by {
            let (x, k) = after.location(parent);
            assert(after.has_body_at(parent, x, k));
        }
        self.lemma_place_before_insert(parent, child, joint, merge_as_single_body, merged_index, 0);
        assert(after.multibodies[merged_index] == merged);
        assert(merged.links[0] == self.links_or_root(parent)[0]);
        if self.contains_body(body) {
            let (a, b) = self.location(body);
            assert(self.has_body_at(body, a, b));
            assert(self.has_body_at(self.body_at(a, 0), a, 0));
            let (x, k) = after.location(body);
            assert(after.has_body_at(body, x, k));
            self.lemma_place_before_insert(parent, child, joint, merge_as_single_body, x, k);
            if self.contains_body(parent) && self.root_of(body) == self.root_of(parent) {
                self.lemma_location(self.body_at(a, 0), self.location(parent).0, 0);
            }
            if self.contains_body(child) && self.root_of(body) == self.root_of(child) {
                self.lemma_location(self.body_at(a, 0), self.location(child).0, 0);
            }
        }
    }

    /// Where a body stands after an insertion: at the place that its place
    /// before the insertion moved to, and nowhere if it had no place and is
    /// neither `parent` nor `child`.
    pub proof fn lemma_insert_place_of(
        self,
        parent: RigidBodyHandle,
        child: RigidBodyHandle,
        joint: GenericJoint,
        merge_as_single_body: bool,
        body: RigidBodyHandle,
    )
        requires
            self.insert_fits(parent, child),
        ensures
            ({
                let after = self.insert(parent, child, joint, merge_as_single_body);
                let before = if self.contains_body(body) {
                    self.location(body)
                } else if body == parent {
                    (-1, 0)
                } else {
                    (-2, 0)
                };
                &&& after.contains_body(body) == (self.contains_body(body) || body == parent || body
                    == child)
                &&& after.contains_body(body) ==> after.location(body) == self.place_after_insert(
                    parent,
                    child,
                    before.0,
                    before.1,
                )
            }),
    {
        let after = self.insert(parent, child, joint, merge_as_single_body);
        self.lemma_insert_wf(parent, child, joint, merge_as_single_body);
        if self.contains_body(body) || body == parent || body == child {
            let before = if self.contains_body(body) {
                self.location(body)
            } else if body == parent {
                (-1, 0)
            } else {
                (-2, 0)
            };
            if self.contains_body(body) {
                assert(self.has_body_at(body, before.0, before.1));
            }
            self.lemma_place_after_insert(
                parent,
                child,
                joint,
                merge_as_single_body,
                before.0,
                before.1,
            );
            let (x, k) = self.place_after_insert(parent, child, before.0, before.1);
            after.lemma_location(body, x, k);
        } else {
            if after.contains_body(body) {
                let (x, k) = after.location(body);
                assert(after.has_body_at(body, x, k));
                self.lemma_place_before_insert(parent, child, joint, merge_as_single_body, x, k);
                let (a, b) = self.place_before_insert(parent, child, x, k);
                assert(self.has_body_at(body, a, b));
            }
        }
    }

    /// The forest with self-contacts switched on or off in the multibody of
    /// a body.
    pub open spec fn with_self_contacts(self, body: RigidBodyHandle, enabled: bool) -> Forest {
        if self.contains_body(body) {
            Forest {
                multibodies: self.multibodies.update(
                    self.location(body).0,
                    MultibodyView {
                        self_contacts_enabled: enabled,
                        ..self.multibodies[self.location(body).0]
                    },
                ),
            }
        } else {
            self
        }
    }

    /// The bodies of the multibody of a body in the order of the walk, if
    /// the body belongs to a multibody.
    pub open spec fn walk(self, body: RigidBodyHandle) -> Option<Seq<RigidBodyHandle>> {
        if self.contains_body(body) {
            Some(self.multibodies[self.location(body).0].bodies())
        } else {
            None
        }
    }

    /// Switching self-contacts in the multibody of `body` changes the flag
    /// of the bodies that share the root of `body`, and nothing else: every
    /// body keeps its place, its parent, its joint and its root, and every
    /// body under another root keeps its flag.
    pub proof fn lemma_self_contacts_scope(
        self,
        body: RigidBodyHandle,
        enabled: bool,
        other: RigidBodyHandle,
    )
        requires
            self.wf(),
            self.contains_body(body),
        ensures
            ({
                let after = self.with_self_contacts(body, enabled);
                &&& after.wf()
                &&& after.contains_body(other) == self.contains_body(other)
                &&& after.contains_body(other) ==> after.location(other) == self.location(other)
                    && after.link_of(other) == self.link_of(other)
                &&& after.parent_of(other) == self.parent_of(other)
                &&& after.root_of(other) == self.root_of(other)
                &&& after.walk(other) == self.walk(other)
                &&& after.self_contacts_enabled(other) == if self.root_of(other) == self.root_of(
                    body,
                ) {
                    Some(enabled)
                } else {
                    self.self_contacts_enabled(other)
                }
                &&& after.edge_count() == self.edge_count()
            }),
    {
        let after = self.with_self_contacts(body, enabled);
        let (i, k) = self.location(body);
        assert(self.has_body_at(body, i, k));
        assert(self.multibodies[i].wf());
        assert forall|x: int| 0 <= x < after.multibodies.len() implies (
        #[trigger] after.multibodies[x]).wf() by {
            assert(self.multibodies[x].wf());
        }
        assert forall|x: int, a: int| after.is_place(x, a) == self.is_place(x, a) && (self.is_place(
            x,
            a,
        ) ==> after.body_at(x, a) == self.body_at(x, a)) by {}
        assert forall|x: int, a: int, y: int, b: int|
            after.is_place(x, a) && after.is_place(y, b) && after.body_at(x, a) == after.body_at(
                y,
                b,
            ) implies x == y && a == b by {
            assert(self.body_at(x, a) == self.body_at(y, b));
        }
        assert(self.has_body_at(self.body_at(i, 0), i, 0));
        if self.contains_body(other) {
            let (x, a) = self.location(other);
            assert(self.has_body_at(other, x, a));
            assert(after.has_body_at(other, x, a));
            after.lemma_location(other, x, a);
            assert(self.has_body_at(self.body_at(x, 0), x, 0));
            if self.root_of(other) == self.root_of(body) {
                self.lemma_location(self.body_at(x, 0), i, 0);
            }
            assert(after.multibodies[x].bodies() =~= self.multibodies[x].bodies());
        } else {
            if after.contains_body(other) {
                let (x, a) = after.location(other);
                assert(after.has_body_at(other, x, a));
                assert(self.has_body_at(other, x, a));
            }
        }
        lemma_count_update(
            self.multibodies,
            i,
            MultibodyView { self_contacts_enabled: enabled, ..self.multibodies[i] },
        );
    }

    /// In a wellformed forest the parent of a body is one of its ancestors
    /// and stands before it in the walk, and no body is its own ancestor:
    /// the edges close no cycle.
    pub proof fn lemma_acyclic(self, ancestor: RigidBodyHandle, body: RigidBodyHandle)
        requires
            self.wf(),
        ensures
            !self.is_ancestor(body, body),
            self.is_ancestor(ancestor, body) ==> !self.is_ancestor(body, ancestor)
                && self.location(ancestor).1 < self.location(body).1,
            self.parent_of(body) == Some(ancestor) ==> self.is_ancestor(ancestor, body),
            self.is_ancestor(ancestor, body) ==> self.parent_of(body) is Some,
    {
        if self.contains_body(body) {
            let (i, k) = self.location(body);
            assert(self.has_body_at(body, i, k));
            assert(self.multibodies[i].wf());
            if self.is_ancestor(body, body) {
                Forest::lemma_ancestor_stands_before(self.multibodies[i], k, k);
            }
            if self.is_ancestor(ancestor, body) {
                let (j, a) = self.location(ancestor);
                Forest::lemma_ancestor_stands_before(self.multibodies[i], k, a);
                if self.is_ancestor(body, ancestor) {
                    Forest::lemma_ancestor_stands_before(self.multibodies[i], a, k);
                }
            }
            if self.parent_of(body) == Some(ancestor) {
                let p = self.multibodies[i].links[k].edge.unwrap().parent as int;
                assert(self.multibodies[i].links[k].edge is Some);
                assert(self.has_body_at(ancestor, i, p));
                self.lemma_location(ancestor, i, p);
            }
        }
    }

    /// An insertion adds one edge to the forest.
    pub proof fn lemma_insert_edge_count(
        self,
        parent: RigidBodyHandle,
        child: RigidBodyHandle,
        joint: GenericJoint,
        merge_as_single_body: bool,
    )
        requires
            self.insert_fits(parent, child),
        ensures
            self.insert(parent, child, joint, merge_as_single_body).edge_count()
                == self.edge_count() + 1,
    {
        let merged = self.merged(parent, child, joint, merge_as_single_body);
        self.lemma_can_insert(parent, child);
        let placed = if self.contains_body(parent) {
            self.multibodies.update(self.location(parent).0, merged)
        } else {
            self.multibodies.push(merged)
        };
        if self.contains_body(parent) {
            let (i, kp) = self.location(parent);
            assert(self.has_body_at(parent, i, kp));
            assert(self.multibodies[i].wf());
            lemma_count_update(self.multibodies, i, merged);
        } else {
            lemma_count_push(self.multibodies, merged);
        }
        if self.contains_body(child) {
            let (j, kc) = self.location(child);
            assert(self.has_body_at(child, j, kc));
            assert(self.multibodies[j].wf());
            assert(placed[j] == self.multibodies[j]);
            lemma_count_remove(placed, j);
        }
    }

    /// The number of links of the subtree that hangs on the edge of
    /// `child`, `child` included.
    pub open spec fn subtree_size(self, child: RigidBodyHandle) -> int {
        let links = self.multibodies[self.location(child).0].links;
        links.len() - kept_before(links, self.location(child).1, links.len() as int)
    }

    /// Taking out the subtree of `child` leaves only the root of its
    /// multibody, which then has no edge left.
    pub open spec fn leaves_root_alone(self, child: RigidBodyHandle) -> bool {
        self.multibodies[self.location(child).0].without_subtree(
            self.location(child).1,
        ).links.len() < 2
    }

    /// The forest without the edge of `child` and without the subtree that
    /// hangs on it. A multibody that is left without an edge is gone too.
    /// Where `child` has no parent, the forest is unchanged.
    pub open spec fn remove(self, child: RigidBodyHandle) -> Forest {
        if self.parent_of(child) is Some {
            let j = self.location(child).0;
            Forest {
                multibodies: if self.leaves_root_alone(child) {
                    self.multibodies.remove(j)
                } else {
                    self.multibodies.update(
                        j,
                        self.multibodies[j].without_subtree(self.location(child).1),
                    )
                },
            }
        } else {
            self
        }
    }

    /// The forest without the multibody of a body.
    pub open spec fn remove_multibody(self, body: RigidBodyHandle) -> Forest {
        if self.contains_body(body) {
            Forest { multibodies: self.multibodies.remove(self.location(body).0) }
        } else {
            self
        }
    }

    /// The forest without a body: without its edge and its subtree where it
    /// has a parent, and without its whole multibody where it is a root.
    pub open spec fn remove_body(self, body: RigidBodyHandle) -> Forest {
        if self.parent_of(body) is Some {
            self.remove(body)
        } else {
            self.remove_multibody(body)
        }
    }

    /// The place `(i, k)` holds a body that stays when the edge of `child`
    /// is removed.
    pub open spec fn survives(self, child: RigidBodyHandle, i: int, k: int) -> bool {
        &&& self.is_place(i, k)
        &&& i == self.location(child).0 ==> !self.leaves_root_alone(child) && !in_subtree(
            self.multibodies[i].links,
            k,
            self.location(child).1,
        )
    }

    /// The place that a surviving place moves to when the edge of `child`
    /// is removed.
    pub open spec fn place_after_remove(self, child: RigidBodyHandle, i: int, k: int) -> (int, int) {
        let j = self.location(child).0;
        if i == j {
            (j, kept_before(self.multibodies[j].links, self.location(child).1, k) as int)
        } else if self.leaves_root_alone(child) && i > j {
            (i - 1, k)
        } else {
            (i, k)
        }
    }

    /// The place that a place came from when the edge of `child` was
    /// removed: the inverse of `place_after_remove`.
    pub open spec fn place_before_remove(self, child: RigidBodyHandle, x: int, a: int) -> (
        int,
        int,
    ) {
        let j = self.location(child).0;
        let links = self.multibodies[j].links;
        if self.leaves_root_alone(child) {
            if x >= j {
                (x + 1, a)
            } else {
                (x, a)
            }
        } else if x == j {
            (j, place_before_pruning(links, self.location(child).1, links.len() as int, a))
        } else {
            (x, a)
        }
    }

    /// Every place of the forest after a removal came from one surviving
    /// place before it, and holds the body that stood there.
    pub proof fn lemma_place_before_remove(self, child: RigidBodyHandle, x: int, a: int)
        requires
            self.wf(),
            self.parent_of(child) is Some,
            self.remove(child).is_place(x, a),
        ensures
            ({
                let after = self.remove(child);
                let (i, k) = self.place_before_remove(child, x, a);
                let j = self.location(child).0;
                &&& self.survives(child, i, k)
                &&& self.body_at(i, k) == after.body_at(x, a)
                &&& self.place_after_remove(child, i, k) == (x, a)
                &&& after.multibodies[x] == if i == j {
                    self.multibodies[j].without_subtree(self.location(child).1)
                } else {
                    self.multibodies[i]
                }
            }),
    {
        let (j, top) = self.location(child);
        assert(self.has_body_at(child, j, top));
        assert(self.multibodies[j].wf());
        let links = self.multibodies[j].links;
        self.multibodies[j].lemma_without_subtree(top);
        if !self.leaves_root_alone(child) && x == j {
            lemma_kept_before(links, top, 0, links.len() as int);
            lemma_place_before_pruning(links, top, links.len() as int, a);
        }
    }

    /// Every surviving place of the forest has one place after a removal,
    /// which holds the same body.
    pub proof fn lemma_place_after_remove(self, child: RigidBodyHandle, i: int, k: int)
        requires
            self.wf(),
            self.parent_of(child) is Some,
            self.survives(child, i, k),
        ensures
            ({
                let after = self.remove(child);
                let (x, a) = self.place_after_remove(child, i, k);
                &&& after.is_place(x, a)
                &&& after.body_at(x, a) == self.body_at(i, k)
                &&& self.place_before_remove(child, x, a) == (i, k)
            }),
    {
        let (j, top) = self.location(child);
        assert(self.has_body_at(child, j, top));
        assert(self.multibodies[j].wf());
        let links = self.multibodies[j].links;
        self.multibodies[j].lemma_without_subtree(top);
        if i == j {
            lemma_kept_before(links, top, k, links.len() as int);
            lemma_place_after_pruning(links, top, links.len() as int, k);
        }
    }

    /// A removal keeps the forest wellformed.
    pub proof fn lemma_remove_wf(self, child: RigidBodyHandle)
        requires
            self.wf(),
        ensures
            self.remove(child).wf(),
    {
        if self.parent_of(child) is Some {
            let after = self.remove(child);
            let (j, top) = self.location(child);
            assert(self.has_body_at(child, j, top));
            assert(self.multibodies[j].wf());
            self.multibodies[j].lemma_without_subtree(top);
            assert forall|x: int| 0 <= x < after.multibodies.len() implies (
            #[trigger] after.multibodies[x]).wf() by {
                if self.leaves_root_alone(child) {
                    if x >= j {
                        assert(self.multibodies[x + 1].wf());
                    } else {
                        assert(self.multibodies[x].wf());
                    }
                } else if x != j {
                    assert(self.multibodies[x].wf());
                }
            }
            assert forall|x: int, a: int, y: int, b: int|
                after.is_place(x, a) && after.is_place(y, b) && after.body_at(x, a)
                    == after.body_at(y, b) implies x == y && a == b by {
                self.lemma_place_before_remove(child, x, a);
                self.lemma_place_before_remove(child, y, b);
                let (i, k) = self.place_before_remove(child, x, a);
                let (l, m) = self.place_before_remove(child, y, b);
                assert(self.body_at(i, k) == self.body_at(l, m));
            }
        }
    }

    /// What a removal does to each body. The bodies of the subtree of
    /// `child` are gone, and so is the root of its multibody where nothing
    /// else is left of it. Every other body stays, with its parent, its
    /// joint, its hint, its root and its self-contacts flag.
    pub proof fn lemma_remove_observed(self, child: RigidBodyHandle, body: RigidBodyHandle)
        requires
            self.wf(),
            self.parent_of(child) is Some,
        ensures
            ({
                let after = self.remove(child);
                let gone = body == child || self.is_ancestor(child, body);
                let stays = self.contains_body(body) && !gone && !(self.leaves_root_alone(child)
                    && self.root_of(body) == self.root_of(child));
                &&& after.wf()
                &&& after.contains_body(body) == stays
                &&& stays ==> after.parent_of(body) == self.parent_of(body)
                &&& stays && self.parent_of(body) is Some ==> after.link_of(
                    body,
                ).edge.unwrap().joint == self.link_of(body).edge.unwrap().joint
                    && after.link_of(body).edge.unwrap().merge_as_single_body == self.link_of(
                    body,
                ).edge.unwrap().merge_as_single_body
                &&& stays ==> after.root_of(body) == self.root_of(body)
                &&& stays ==> after.self_contacts_enabled(body) == self.self_contacts_enabled(body)
            }),
    {
        let after = self.remove(child);
        self.lemma_remove_wf(child);
        let (j, top) = self.location(child);
        assert(self.has_body_at(child, j, top));
        assert(self.multibodies[j].wf());
        assert(self.has_body_at(self.body_at(j, 0), j, 0));
        let links = self.multibodies[j].links;
        let n = links.len() as int;
        self.multibodies[j].lemma_without_subtree(top);
        if self.contains_body(body) {
            let (i, k) = self.location(body);
            assert(self.has_body_at(body, i, k));
            assert(self.multibodies[i].wf());
            assert(self.has_body_at(self.body_at(i, 0), i, 0));
            if self.root_of(body) == self.root_of(child) {
                self.lemma_location(self.body_at(i, 0), j, 0);
            }
            if i == j && k != top {
                assert(self.body_at(i, k) != self.body_at(j, top));
            }
            if self.survives(child, i, k) {
                self.lemma_place_after_remove(child, i, k);
                let (x, a) = self.place_after_remove(child, i, k);
                after.lemma_location(body, x, a);
                self.lemma_place_before_remove(child, x, a);
                if i == j {
                    lemma_kept_before(links, top, k, n);
                    lemma_kept_before(links, top, 0, n);
                    if k > 0 {
                        assert(links[k].edge is Some);
                        let p = links[k].edge.unwrap().parent as int;
                        assert(!in_subtree(links, p, top));
                        lemma_kept_before(links, top, p, n);
                        lemma_kept_before(links, top, p, k);
                    }
                }
            } else {
                if after.contains_body(body) {
                    let (x, a) = after.location(body);
                    assert(after.has_body_at(body, x, a));
                    self.lemma_place_before_remove(child, x, a);
                    let (l, m) = self.place_before_remove(child, x, a);
                    self.lemma_location(body, l, m);
                }
            }
        } else {
            if after.contains_body(body) {
                let (x, a) = after.location(body);
                assert(after.has_body_at(body, x, a));
                self.lemma_place_before_remove(child, x, a);
                let (l, m) = self.place_before_remove(child, x, a);
                assert(self.has_body_at(body, l, m));
            }
        }
    }

    /// A removal takes as many edges out of the forest as the subtree of
    /// `child` has links.
    pub proof fn lemma_remove_edge_count(self, child: RigidBodyHandle)
        requires
            self.wf(),
            self.parent_of(child) is Some,
        ensures
            self.remove(child).edge_count() + self.subtree_size(child) == self.edge_count(),
            self.subtree_size(child) >= 1,
    {
        let (j, top) = self.location(child);
        assert(self.has_body_at(child, j, top));
        assert(self.multibodies[j].wf());
        let links = self.multibodies[j].links;
        self.multibodies[j].lemma_without_subtree(top);
        lemma_kept_before(links, top, 0, links.len() as int);
        if self.leaves_root_alone(child) {
            lemma_count_remove(self.multibodies, j);
        } else {
            lemma_count_update(self.multibodies, j, self.multibodies[j].without_subtree(top));
        }
    }

    /// Removing the multibody of a body keeps the forest wellformed, takes
    /// out exactly the bodies under the root of that body, and leaves every
    /// other body with its parent, its joint, its root and its flag.
    pub proof fn lemma_remove_multibody(self, body: RigidBodyHandle, other: RigidBodyHandle)
        requires
            self.wf(),
        ensures
            ({
                let after = self.remove_multibody(body);
                let stays = self.contains_body(other) && !(self.contains_body(body)
                    && self.root_of(other) == self.root_of(body));
                &&& after.wf()
                &&& after.contains_body(other) == stays
                &&& stays ==> after.link_of(other).edge is Some == self.link_of(other).edge is Some
                &&& stays ==> after.parent_of(other) == self.parent_of(other)
                &&& stays && self.parent_of(other) is Some ==> after.link_of(
                    other,
                ).edge.unwrap().joint == self.link_of(other).edge.unwrap().joint
                    && after.link_of(other).edge.unwrap().merge_as_single_body == self.link_of(
                    other,
                ).edge.unwrap().merge_as_single_body
                &&& stays ==> after.root_of(other) == self.root_of(other)
                &&& stays ==> after.self_contacts_enabled(other) == self.self_contacts_enabled(
                    other,
                )
                &&& stays ==> after.walk(other) == self.walk(other)
                &&& self.contains_body(body) ==> after.edge_count() + self.multibodies[self.location(
                    body,
                ).0].edges() == self.edge_count()
                &&& !self.contains_body(body) ==> after == self
            }),
    {
        if self.contains_body(body) {
            let after = self.remove_multibody(body);
            let (j, k) = self.location(body);
            assert(self.has_body_at(body, j, k));
            assert(self.has_body_at(self.body_at(j, 0), j, 0));
            assert forall|x: int| 0 <= x < after.multibodies.len() implies (
            #[trigger] after.multibodies[x]).wf() by {
                if x >= j {
                    assert(self.multibodies[x + 1].wf());
                } else {
                    assert(self.multibodies[x].wf());
                }
            }
            assert forall|x: int, a: int, y: int, b: int|
                after.is_place(x, a) && after.is_place(y, b) && after.body_at(x, a)
                    == after.body_at(y, b) implies x == y && a == b by {
                let i = if x >= j {
                    x + 1
                } else {
                    x
                };
                let l = if y >= j {
                    y + 1
                } else {
                    y
                };
                assert(self.body_at(i, a) == self.body_at(l, b));
            }
            lemma_count_remove(self.multibodies, j);
            if self.contains_body(other) {
                let (i, a) = self.location(other);
                assert(self.has_body_at(other, i, a));
                assert(self.has_body_at(self.body_at(i, 0), i, 0));
                assert(self.multibodies[i].wf());
                if i == j {
                    if after.contains_body(other) {
                        let (x, b) = after.location(other);
                        assert(after.has_body_at(other, x, b));
                        let l = if x >= j {
                            x + 1
                        } else {
                            x
                        };
                        assert(self.has_body_at(other, l, b));
                        self.lemma_location(other, l, b);
                    }
                } else {
                    if self.root_of(other) == self.root_of(body) {
                        self.lemma_location(self.body_at(i, 0), j, 0);
                    }
                    let x = if i > j {
                        i - 1
                    } else {
                        i
                    };
                    assert(after.has_body_at(other, x, a));
                    after.lemma_location(other, x, a);
                    assert(after.multibodies[x] == self.multibodies[i]);
                }
            } else {
                if after.contains_body(other) {
                    let (x, b) = after.location(other);
                    assert(after.has_body_at(other, x, b));
                    let l = if x >= j {
                        x + 1
                    } else {
                        x
                    };
                    assert(self.has_body_at(other, l, b));
                }
            }
        }
    }
}

/// Adding a multibody adds its edges to the count.
pub proof fn lemma_count_push(multibodies: Seq<MultibodyView>, multibody: MultibodyView)
    ensures
        count_edges(multibodies.push(multibody)) == count_edges(multibodies) + multibody.edges(),
{
    assert(multibodies.push(multibody).drop_last() =~= multibodies);
}

/// Replacing a multibody replaces its edges in the count.
pub proof fn lemma_count_update(multibodies: Seq<MultibodyView>, i: int, multibody: MultibodyView)
    requires
        0 <= i < multibodies.len(),
    ensures
        count_edges(multibodies.update(i, multibody)) + multibodies[i].edges() == count_edges(
            multibodies,
        ) + multibody.edges(),
    decreases multibodies.len(),
{
    let updated = multibodies.update(i, multibody);
    if i == multibodies.len() - 1 {
        assert(updated.drop_last() =~= multibodies.drop_last());
    } else {
        lemma_count_update(multibodies.drop_last(), i, multibody);
        assert(updated.drop_last() =~= multibodies.drop_last().update(i, multibody));
    }
}

/// Taking a multibody out takes its edges out of the count.
pub proof fn lemma_count_remove(multibodies: Seq<MultibodyView>, i: int)
    requires
        0 <= i < multibodies.len(),
    ensures
        count_edges(multibodies.remove(i)) + multibodies[i].edges() == count_edges(multibodies),
    decreases multibodies.len(),
{
    let removed = multibodies.remove(i);
    if i == multibodies.len() - 1 {
        assert(removed =~= multibodies.drop_last());
    } else {
        lemma_count_remove(multibodies.drop_last(), i);
        assert(removed.drop_last() =~= multibodies.drop_last().remove(i));
    }
}

} // verus!
