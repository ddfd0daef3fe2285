//! The articulation forest: bodies tied by joints into multibodies.
//!
//! A multibody is a tree of bodies. Its links stand in the order in which a
//! solver walks them: the root first, and every other link after the link of
//! its parent. A body belongs to at most one multibody and has at most one
//! parent, so the multibodies together form a forest.

use crate::body::{RigidBodyHandle, RigidBodySet};
use crate::forest::{
    count_edges, in_subtree, kept_before, lemma_kept_before, pruned, Forest, MultibodyView,
};
use crate::generic_joint::GenericJoint;
use vstd::prelude::*;

verus! {

/// The handle of an edge of the forest: the body that the edge ties to its
/// parent.
#[derive(Clone, Copy, Debug, PartialEq, Eq, Hash, Structural)]
pub struct MultibodyJointHandle(pub RigidBodyHandle);

/// What ties a link to its parent.
#[derive(Clone, Copy, Debug, PartialEq, Eq)]
pub struct LinkJoint {
    /// The place of the parent link among the links of the multibody.
    pub parent: usize,
    /// The joint between the parent and the link.
    pub joint: GenericJoint,
    /// Whether the solver should weld the link to its parent instead of
    /// solving the joint. The forest only stores this hint.
    pub merge_as_single_body: bool,
}

/// One body of a multibody.
#[derive(Clone, Copy, Debug, PartialEq, Eq)]
pub struct MultibodyLink {
    /// The body.
    pub body: RigidBodyHandle,
    /// The joint to the parent link; the root of a multibody has none.
    pub edge: Option<LinkJoint>,
}

/// An edge of the forest, as a solver reads it.
#[derive(Clone, Copy, Debug, PartialEq, Eq)]
pub struct MultibodyEdge {
    /// The body on the side of the root.
    pub parent: RigidBodyHandle,
    /// The body that the edge ties to `parent`.
    pub child: RigidBodyHandle,
    /// The joint between the two bodies.
    pub joint: GenericJoint,
    /// Whether the solver should weld the child to its parent.
    pub merge_as_single_body: bool,
    /// Whether the bodies of the multibody that holds the edge may collide
    /// with each other.
    pub self_contacts_enabled: bool,
}

#[derive(Debug)]
struct Multibody {
    links: Vec<MultibodyLink>,
    self_contacts_enabled: bool,
}

/// The multibodies of a world.
#[derive(Debug)]
pub struct MultibodyJointSet {
    multibodies: Vec<Multibody>,
}

impl View for MultibodyJointSet {
    type V = Forest;

    closed spec fn view(&self) -> Forest {
        Forest {
            multibodies: Seq::new(
                self.multibodies.len() as nat,
                |i: int|
                    MultibodyView {
                        links: self.multibodies[i].links@,
                        self_contacts_enabled: self.multibodies[i].self_contacts_enabled,
                    },
            ),
        }
    }
}

impl MultibodyJointSet {
    /// The forest is wellformed.
    pub open spec fn wf(&self) -> bool {
        self@.wf()
    }

    /// The set without any multibody.
    pub fn new() -> (set: MultibodyJointSet)
        ensures
            set.wf(),
            set@.multibodies == Seq::<MultibodyView>::empty(),
    {
        let set = MultibodyJointSet { multibodies: Vec::new() };
        assert(set@.multibodies =~= Seq::<MultibodyView>::empty());
        set
    }

    /// The place of a body, if it belongs to a multibody.
    fn locate(&self, body: RigidBodyHandle) -> (place: Option<(usize, usize)>)
        requires
            self.wf(),
        ensures
            match place {
                Some((i, k)) => self@.has_body_at(body, i as int, k as int) && self@.contains_body(
                    body,
                ) && self@.location(body) == (i as int, k as int),
                None => !self@.contains_body(body),
            },
    {
        let mut i: usize = 0;
        while i < self.multibodies.len()
            invariant
                i <= self.multibodies.len(),
                self.wf(),
                forall|a: int, b: int| 0 <= a < i ==> !self@.has_body_at(body, a, b),
            decreases self.multibodies.len() - i,
        {
            let mut k: usize = 0;
            while k < self.multibodies[i].links.len()
                invariant
                    i < self.multibodies.len(),
                    k <= self.multibodies[i as int].links.len(),
                    self.wf(),
                    forall|a: int, b: int| 0 <= a < i ==> !self@.has_body_at(body, a, b),
                    forall|b: int| 0 <= b < k ==> !self@.has_body_at(body, i as int, b),
                decreases self.multibodies[i as int].links.len() - k,
            {
                if self.multibodies[i].links[k].body == body {
                    proof {
                        self@.lemma_location(body, i as int, k as int);
                    }
                    return Some((i, k));
                }
                k += 1;
            }
            i += 1;
        }
        None
    }

    /// Whether the body belongs to a multibody.
    pub fn contains_body(&self, body: RigidBodyHandle) -> (r: bool)
        requires
            self.wf(),
        ensures
            r == self@.contains_body(body),
    {
        self.locate(body).is_some()
    }

    /// The parent of a body, if it has one.
    pub fn parent_of(&self, body: RigidBodyHandle) -> (parent: Option<RigidBodyHandle>)
        requires
            self.wf(),
        ensures
            parent == self@.parent_of(body),
    {
        match self.locate(body) {
            Some((i, k)) => match self.multibodies[i].links[k].edge {
                Some(edge) => Some(self.multibodies[i].links[edge.parent].body),
                None => None,
            },
            None => None,
        }
    }

    /// The root of the multibody of a body, if the body belongs to one.
    pub fn root_of(&self, body: RigidBodyHandle) -> (root: Option<RigidBodyHandle>)
        requires
            self.wf(),
        ensures
            root == self@.root_of(body),
    {
        match self.locate(body) {
            Some((i, _)) => Some(self.multibodies[i].links[0].body),
            None => None,
        }
    }

    /// The edge that a handle stands for, if it stands for one.
    pub fn get(&self, handle: MultibodyJointHandle) -> (edge: Option<MultibodyEdge>)
        requires
            self.wf(),
        ensures
            edge == self@.edge(handle.0),
    {
        match self.locate(handle.0) {
            Some((i, k)) => match self.multibodies[i].links[k].edge {
                Some(edge) => Some(
                    MultibodyEdge {
                        parent: self.multibodies[i].links[edge.parent].body,
                        child: handle.0,
                        joint: edge.joint,
                        merge_as_single_body: edge.merge_as_single_body,
                        self_contacts_enabled: self.multibodies[i].self_contacts_enabled,
                    },
                ),
                None => None,
            },
            None => None,
        }
    }

    /// Whether the bodies of the multibody of a body may collide with each
    /// other, if the body belongs to a multibody.
    pub fn self_contacts_enabled(&self, body: RigidBodyHandle) -> (enabled: Option<bool>)
        requires
            self.wf(),
        ensures
            enabled == self@.self_contacts_enabled(body),
    {
        match self.locate(body) {
            Some((i, _)) => Some(self.multibodies[i].self_contacts_enabled),
            None => None,
        }
    }

    /// The links of one multibody, or a body alone as a root.
    fn links_or_root(&self, body: RigidBodyHandle, place: Option<(usize, usize)>) -> (links: Vec<
        MultibodyLink,
    >)
        requires
            self.wf(),
            match place {
                Some((i, k)) => self@.contains_body(body) && self@.location(body) == (
                    i as int,
                    k as int,
                ) && self@.is_place(i as int, k as int),
                None => !self@.contains_body(body),
            },
        ensures
            links@ == self@.links_or_root(body),
    {
        let mut links: Vec<MultibodyLink> = Vec::new();
        match place {
            Some((i, _)) => {
                let mut n: usize = 0;
                while n < self.multibodies[i].links.len()
                    invariant
                        i < self.multibodies.len(),
                        n <= self.multibodies[i as int].links.len(),
                        links@ == self.multibodies[i as int].links@.subrange(0, n as int),
                    decreases self.multibodies[i as int].links.len() - n,
                {
                    links.push(self.multibodies[i].links[n]);
                    n += 1;
                }
                assert(links@ =~= self.multibodies[i as int].links@);
            },
            None => {
                links.push(MultibodyLink { body, edge: None });
                assert(links@ =~= seq![MultibodyLink::root(body)]);
            },
        }
        links
    }

    /// Hangs `child` under `parent` with the given joint, and gives the
    /// handle of the new edge.
    ///
    /// This fails, and leaves the forest as it is, where one of the two
    /// handles stands for no body, where `parent` and `child` are the same
    /// body, where `child` has a parent already, and where `child` is an
    /// ancestor of `parent`, so that the edge would close a cycle.
    pub fn insert(
        &mut self,
        bodies: &RigidBodySet,
        parent: RigidBodyHandle,
        child: RigidBodyHandle,
        joint: GenericJoint,
        merge_as_single_body: bool,
    ) -> (handle: Option<MultibodyJointHandle>)
        requires
            old(self).wf(),
        ensures
            final(self).wf(),
            handle is Some <==> bodies@.contains_key(parent) && bodies@.contains_key(child)
                && old(self)@.can_insert(parent, child),
            old(self)@.is_ancestor(child, parent) || parent == child ==> handle is None,
            old(self)@.parent_of(child) is Some ==> handle is None,
            !bodies@.contains_key(parent) || !bodies@.contains_key(child) ==> handle is None,
            handle is Some ==> handle == Some(MultibodyJointHandle(child)) && final(self)@ == old(
                self,
            )@.insert(parent, child, joint, merge_as_single_body),
            handle is None ==> final(self)@ == old(self)@,
            final(self)@.edge_count() == old(self)@.edge_count() + if handle is Some {
                1nat
            } else {
                0nat
            },
    {
        if parent == child || !bodies.contains(parent) || !bodies.contains(child) {
            return None;
        }
        let parent_place = self.locate(parent);
        let child_place = self.locate(child);
        proof {
            self@.lemma_can_insert(parent, child);
        }
        match child_place {
            Some((j, kc)) => {
                if kc != 0 {
                    return None;
                }
                match parent_place {
                    Some((i, _)) => {
                        if i == j {
                            return None;
                        }
                    },
                    None => {},
                }
            },
            None => {},
        }
        let mut links = self.links_or_root(parent, parent_place);
        let child_links = self.links_or_root(child, child_place);
        let offset: usize = links.len();
        let parent_index: usize = match parent_place {
            Some((_, k)) => k,
            None => 0,
        };
        let enabled: bool = match parent_place {
            Some((i, _)) => self.multibodies[i].self_contacts_enabled,
            None => true,
        };
        let ghost parent_links = links@;
        let ghost expected = Forest::attached(
            child_links@,
            parent_index as int,
            offset as int,
            joint,
            merge_as_single_body,
        );
        proof {
            match child_place {
                Some((j, _)) => {
                    assert(self@.multibodies[j as int].wf());
                },
                None => {},
            }
        }
        links.push(
            MultibodyLink {
                body: child,
                edge: Some(LinkJoint { parent: parent_index, joint, merge_as_single_body }),
            },
        );
        let mut n: usize = 1;
        while n < child_links.len()
            invariant
                1 <= n <= child_links.len(),
                offset == parent_links.len(),
                links@.len() == offset + n,
                links@ == parent_links + expected.subrange(0, n as int),
                expected == Forest::attached(
                    child_links@,
                    parent_index as int,
                    offset as int,
                    joint,
                    merge_as_single_body,
                ),
                forall|k: int|
                    1 <= k < child_links@.len() ==> (#[trigger] child_links@[k]).edge is Some
                        && child_links@[k].edge.unwrap().parent < k,
            decreases child_links.len() - n,
        {
            let link = child_links[n];
            assert(child_links@[n as int].edge is Some && child_links@[n as int].edge.unwrap().parent
                < n);
            assert(links.len() <= usize::MAX);
            match link.edge {
                Some(edge) => {
                    links.push(
                        MultibodyLink {
                            body: link.body,
                            edge: Some(
                                LinkJoint {
                                    parent: edge.parent + offset,
                                    joint: edge.joint,
                                    merge_as_single_body: edge.merge_as_single_body,
                                },
                            ),
                        },
                    );
                },
                None => {},
            }
            n += 1;
        }
        assert(links@ =~= parent_links + expected);
        assert(parent_links.len() + child_links@.len() == links.len() <= usize::MAX);
        let merged = Multibody { links, self_contacts_enabled: enabled };
        match parent_place {
            Some((i, _)) => {
                self.multibodies[i] = merged;
            },
            None => {
                self.multibodies.push(merged);
            },
        }
        match child_place {
            Some((j, _)) => {
                self.multibodies.remove(j);
            },
            None => {},
        }
        proof {
            let after = old(self)@.insert(parent, child, joint, merge_as_single_body);
            assert(self@.multibodies =~= after.multibodies);
            old(self)@.lemma_insert_wf(parent, child, joint, merge_as_single_body);
            old(self)@.lemma_insert_edge_count(parent, child, joint, merge_as_single_body);
        }
        Some(MultibodyJointHandle(child))
    }

    /// Switches self-contacts on or off in the multibody that holds an edge,
    /// and tells whether the handle stands for an edge. Where it stands for
    /// none, nothing changes.
    pub fn set_self_contacts_enabled(&mut self, handle: MultibodyJointHandle, enabled: bool) -> (found:
        bool)
        requires
            old(self).wf(),
        ensures
            final(self).wf(),
            found == old(self)@.edge(handle.0) is Some,
            final(self)@ == if found {
                old(self)@.with_self_contacts(handle.0, enabled)
            } else {
                old(self)@
            },
    {
        match self.locate(handle.0) {
            Some((i, k)) => {
                if k == 0 {
                    proof {
                        assert(self@.multibodies[i as int].wf());
                    }
                    return false;
                }
                proof {
                    assert(self@.multibodies[i as int].wf());
                    assert(self@.multibodies[i as int].links[k as int].edge is Some);
                    self@.lemma_self_contacts_scope(handle.0, enabled, handle.0);
                }
                let mut multibody = self.multibodies.remove(i);
                multibody.self_contacts_enabled = enabled;
                self.multibodies.insert(i, multibody);
                assert(self@.multibodies =~= old(self)@.with_self_contacts(
                    handle.0,
                    enabled,
                ).multibodies);
                true
            },
            None => false,
        }
    }

    /// The bodies of the multibody of a body in the order in which a solver
    /// walks them, every parent before its children, if the body belongs to
    /// a multibody.
    pub fn walk(&self, body: RigidBodyHandle) -> (bodies: Option<Vec<RigidBodyHandle>>)
        requires
            self.wf(),
        ensures
            match bodies {
                Some(bodies) => self@.walk(body) == Some(bodies@),
                None => self@.walk(body) is None,
            },
    {
        match self.locate(body) {
            Some((i, _)) => {
                let mut bodies: Vec<RigidBodyHandle> = Vec::new();
                let mut n: usize = 0;
                while n < self.multibodies[i].links.len()
                    invariant
                        i < self.multibodies.len(),
                        n <= self.multibodies[i as int].links.len(),
                        bodies@ == self@.multibodies[i as int].bodies().subrange(0, n as int),
                    decreases self.multibodies[i as int].links.len() - n,
                {
                    bodies.push(self.multibodies[i].links[n].body);
                    n += 1;
                }
                assert(bodies@ =~= self@.multibodies[i as int].bodies());
                Some(bodies)
            },
            None => None,
        }
    }

    /// The number of edges of the forest, or the largest number that a
    /// machine word holds where there are more.
    pub fn edge_count(&self) -> (count: usize)
        requires
            self.wf(),
        ensures
            count == if self@.edge_count() <= usize::MAX {
                self@.edge_count()
            } else {
                usize::MAX as nat
            },
    {
        let mut count: usize = 0;
        let mut i: usize = 0;
        while i < self.multibodies.len()
            invariant
                i <= self.multibodies.len(),
                self.wf(),
                count == if count_edges(self@.multibodies.subrange(0, i as int)) <= usize::MAX {
                    count_edges(self@.multibodies.subrange(0, i as int))
                } else {
                    usize::MAX as nat
                },
            decreases self.multibodies.len() - i,
        {
            proof {
                assert(self@.multibodies[i as int].wf());
                assert(self@.multibodies.subrange(0, i + 1).drop_last() =~= self@.multibodies.subrange(
                    0,
                    i as int,
                ));
            }
            let edges: usize = self.multibodies[i].links.len() - 1;
            count = match count.checked_add(edges) {
                Some(sum) => sum,
                None => usize::MAX,
            };
            i += 1;
        }
        assert(self@.multibodies.subrange(0, i as int) =~= self@.multibodies);
        count
    }

    /// The number of multibodies of the forest.
    pub fn multibody_count(&self) -> (count: usize)
        ensures
            count == self@.multibodies.len(),
    {
        self.multibodies.len()
    }

    /// Removes an edge together with the subtree that hangs on it, and
    /// gives the edge as it was. A multibody that is left without an edge
    /// is removed too. Where the handle stands for no edge, nothing
    /// changes.
    pub fn remove(&mut self, handle: MultibodyJointHandle) -> (edge: Option<MultibodyEdge>)
        requires
            old(self).wf(),
        ensures
            final(self).wf(),
            edge == old(self)@.edge(handle.0),
            final(self)@ == old(self)@.remove(handle.0),
    {
        let edge = self.get(handle);
        match self.locate(handle.0) {
            Some((j, top)) => {
                proof {
                    assert(self@.multibodies[j as int].wf());
                    if top > 0 {
                        assert(self@.multibodies[j as int].links[top as int].edge is Some);
                    }
                }
                if top > 0 {
                    let links = prune(&self.multibodies[j].links, top);
                    let enabled = self.multibodies[j].self_contacts_enabled;
                    if links.len() >= 2 {
                        self.multibodies[j] = Multibody { links, self_contacts_enabled: enabled };
                    } else {
                        self.multibodies.remove(j);
                    }
                    proof {
                        assert(self@.multibodies =~= old(self)@.remove(handle.0).multibodies);
                    }
                }
            },
            None => {},
        }
        proof {
            old(self)@.lemma_remove_wf(handle.0);
        }
        edge
    }

    /// Removes the whole multibody of a body, and tells whether the body
    /// belonged to one.
    pub fn remove_multibody(&mut self, body: RigidBodyHandle) -> (found: bool)
        requires
            old(self).wf(),
        ensures
            final(self).wf(),
            found == old(self)@.contains_body(body),
            final(self)@ == old(self)@.remove_multibody(body),
    {
        proof {
            self@.lemma_remove_multibody(body, body);
        }
        match self.locate(body) {
            Some((j, _)) => {
                self.multibodies.remove(j);
                assert(self@.multibodies =~= old(self)@.remove_multibody(body).multibodies);
                true
            },
            None => false,
        }
    }

    /// Removes what a body takes part in: its edge and the subtree on it
    /// where the body has a parent, its whole multibody where it is a root.
    /// Tells whether the body belonged to a multibody.
    pub fn remove_body(&mut self, body: RigidBodyHandle) -> (found: bool)
        requires
            old(self).wf(),
        ensures
            final(self).wf(),
            found == old(self)@.contains_body(body),
            final(self)@ == old(self)@.remove_body(body),
    {
        match self.remove(MultibodyJointHandle(body)) {
            Some(_) => true,
            None => self.remove_multibody(body),
        }
    }

    /// Removes every multibody.
    pub fn clear(&mut self)
        ensures
            final(self).wf(),
            final(self)@.multibodies == Seq::<MultibodyView>::empty(),
    {
        self.multibodies.clear();
        assert(self@.multibodies =~= Seq::<MultibodyView>::empty());
    }
}

/// The links of a multibody without the subtree at place `top`.
fn prune(links: &Vec<MultibodyLink>, top: usize) -> (kept: Vec<MultibodyLink>)
    requires
        1 <= top < links.len(),
        links@[0].edge is None,
        forall|k: int|
            1 <= k < links@.len() ==> (#[trigger] links@[k]).edge is Some
                && links@[k].edge.unwrap().parent < k,
    ensures
        kept@ == pruned(links@, top as int, links@.len() as int),
{
    let mut kept: Vec<MultibodyLink> = Vec::new();
    let mut gone: Vec<bool> = Vec::new();
    let mut moved: Vec<usize> = Vec::new();
    let mut n: usize = 0;
    while n < links.len()
        invariant
            n <= links.len(),
            1 <= top < links.len(),
            links@[0].edge is None,
            forall|k: int|
                1 <= k < links@.len() ==> (#[trigger] links@[k]).edge is Some
                    && links@[k].edge.unwrap().parent < k,
            gone@.len() == n,
            moved@.len() == n,
            forall|k: int| 0 <= k < n ==> gone@[k] == in_subtree(links@, k, top as int),
            forall|k: int| 0 <= k < n ==> moved@[k] == kept_before(links@, top as int, k),
            kept@ == pruned(links@, top as int, n as int),
        decreases links.len() - n,
    {
        proof {
            lemma_kept_before(links@, top as int, n as int, n as int);
        }
        let link = links[n];
        let in_tree = n == top || match link.edge {
            Some(edge) => gone[edge.parent],
            None => false,
        };
        moved.push(kept.len());
        gone.push(in_tree);
        if !in_tree {
            let edge = match link.edge {
                Some(edge) => Some(
                    LinkJoint {
                        parent: moved[edge.parent],
                        joint: edge.joint,
                        merge_as_single_body: edge.merge_as_single_body,
                    },
                ),
                None => None,
            };
            kept.push(MultibodyLink { body: link.body, edge });
        }
        n += 1;
    }
    kept
}

} // verus!
