//! A map of domain names, held as a tree of labels from the top level down.
use fnv::FnvHashMap as HashMap;
use vstd::prelude::*;
use crate::textutil::{split_dots, split_on_dots};

verus! {

#[verifier::external_type_specification]
#[verifier::external_body]
pub struct ExFnvHasher(fnv::FnvHasher);

#[verifier::external_type_specification]
#[verifier::external_body]
#[verifier::reject_recursive_types(H)]
pub struct ExBuildHasherDefault<H>(std::hash::BuildHasherDefault<H>);

/// The map from a label to the node below it.
pub type LabelMap = HashMap<String, SubDomain>;

/// The labels under a node, each with the node that it leads to.
pub uninterp spec fn label_children(m: LabelMap) -> Map<Seq<char>, SubDomain>;

/// An empty map made with `FnvHashMap::default`.
#[verifier::external_body]
fn children_new() -> (m: LabelMap)
    ensures
        label_children(m).dom() == Set::<Seq<char>>::empty(),
{
    HashMap::default()
}

/// Looks `k` up with `HashMap::get`.
#[verifier::external_body]
fn children_get<'a>(m: &'a LabelMap, k: &str) -> (r: Option<&'a SubDomain>)
    ensures
        r is Some <==> label_children(*m).contains_key(k@),
        r matches Some(v) ==> *v == label_children(*m)[k@],
{
    m.get(k)
}

/// Takes the entry of `k` out with `HashMap::remove`.
#[verifier::external_body]
fn children_remove(m: &mut LabelMap, k: &str) -> (r: Option<SubDomain>)
    ensures
        label_children(*final(m)) == label_children(*old(m)).remove(k@),
        r is Some <==> label_children(*old(m)).contains_key(k@),
        r matches Some(v) ==> v == label_children(*old(m))[k@],
{
    m.remove(k)
}

/// Puts `v` under `k` with `HashMap::insert`.
#[verifier::external_body]
fn children_insert(m: &mut LabelMap, k: String, v: SubDomain)
    ensures
        label_children(*final(m)) == label_children(*old(m)).insert(k@, v),
{
    m.insert(k, v);
}

pub struct SubDomain {
    next_subdomains: LabelMap,
    leaf: bool,
}

/// The node that the label path `p` leads to from `node`, if there is one.
pub closed spec fn node_at(node: SubDomain, p: Seq<Seq<char>>) -> Option<SubDomain>
    decreases p.len(),
{
    if p.len() == 0 {
        Some(node)
    } else {
        let c = label_children(node.next_subdomains);
        if c.contains_key(p[0]) {
            node_at(c[p[0]], p.drop_first())
        } else {
            None
        }
    }
}

/// The label path `p` leads to a node from `node`.
pub open spec fn has_node(node: SubDomain, p: Seq<Seq<char>>) -> bool {
    node_at(node, p) is Some
}

/// The label path `p` leads to a node from `node` at which an inserted name ends.
pub closed spec fn has_leaf(node: SubDomain, p: Seq<Seq<char>>) -> bool {
    node_at(node, p) matches Some(n) && n.leaf
}

/// `a` is a prefix of `b`.
pub open spec fn is_prefix(a: Seq<Seq<char>>, b: Seq<Seq<char>>) -> bool {
    a.len() <= b.len() && b.subrange(0, a.len() as int) == a
}

/// Looking up the labels `r` from `node` succeeds: walking down `r`, some node on the way
/// is the end of an inserted name, or `r` is walked to its end.
pub open spec fn walk_hits(node: SubDomain, r: Seq<Seq<char>>) -> bool {
    exists|k: int|
        1 <= k <= r.len() && #[trigger] has_node(node, r.subrange(0, k)) && (has_leaf(
            node,
            r.subrange(0, k),
        ) || k == r.len())
}

proof fn lemma_node_at_step(node: SubDomain, r: Seq<Seq<char>>, k: int)
    requires
        1 <= k <= r.len(),
    ensures
        node_at(node, r.subrange(0, k)) == (if label_children(node.next_subdomains).contains_key(
            r[0],
        ) {
            node_at(label_children(node.next_subdomains)[r[0]], r.subrange(1, k))
        } else {
            None
        }),
{
    assert(r.subrange(0, k).drop_first() =~= r.subrange(1, k));
}

/// Unfolds the prefix relation by one label.
proof fn lemma_prefix_cons(p: Seq<Seq<char>>, q: Seq<Seq<char>>)
    requires
        p.len() > 0,
        q.len() > 0,
    ensures
        is_prefix(p, q) <==> (p[0] == q[0] && is_prefix(p.drop_first(), q.drop_first())),
        (p == q) <==> (p[0] == q[0] && p.drop_first() == q.drop_first()),
{
    if is_prefix(p, q) {
        assert(q.subrange(0, p.len() as int)[0] == p[0]);
        assert(q.drop_first().subrange(0, p.drop_first().len() as int) =~= p.drop_first());
    }
    if p[0] == q[0] && is_prefix(p.drop_first(), q.drop_first()) {
        let qs = q.drop_first().subrange(0, p.len() - 1);
        assert forall|i: int| 0 <= i < p.len() implies #[trigger] q.subrange(0, p.len() as int)[i]
            == p[i] by {
            if i > 0 {
                assert(qs[i - 1] == p.drop_first()[i - 1]);
            }
        }
        assert(q.subrange(0, p.len() as int) =~= p);
    }
    if p[0] == q[0] && p.drop_first() == q.drop_first() {
        assert(p =~= seq![p[0]] + p.drop_first());
        assert(q =~= seq![q[0]] + q.drop_first());
    }
}

/// Marking a node as the end of a name changes only what ends at that node itself.
proof fn lemma_leaf_set(old_sub: SubDomain, new_sub: SubDomain)
    requires
        new_sub.next_subdomains == old_sub.next_subdomains,
        new_sub.leaf,
    ensures
        forall|p: Seq<Seq<char>>| #[trigger] has_node(new_sub, p) <==> has_node(old_sub, p),
        forall|p: Seq<Seq<char>>| #[trigger]
            has_leaf(new_sub, p) <==> has_leaf(old_sub, p) || p.len() == 0,
{
    assert forall|p: Seq<Seq<char>>| #[trigger] node_at(new_sub, p) == (if p.len() == 0 {
        Some(new_sub)
    } else {
        node_at(old_sub, p)
    }) by {}
}

/// Lifts what an insertion did below the child `q[0]` to the node above it.
proof fn lemma_insert_lift(
    old_self: SubDomain,
    new_self: SubDomain,
    old_sub: SubDomain,
    new_sub: SubDomain,
    q: Seq<Seq<char>>,
)
    requires
        q.len() >= 1,
        new_self.leaf == old_self.leaf,
        label_children(new_self.next_subdomains) == label_children(old_self.next_subdomains).insert(
            q[0],
            new_sub,
        ),
        label_children(old_self.next_subdomains).contains_key(q[0]) ==> old_sub
            == label_children(old_self.next_subdomains)[q[0]],
        !label_children(old_self.next_subdomains).contains_key(q[0]) ==> (forall|
            p: Seq<Seq<char>>,
        | #[trigger] has_node(old_sub, p) <==> p.len() == 0) && (forall|p: Seq<Seq<char>>|
            !#[trigger] has_leaf(old_sub, p)),
        forall|p: Seq<Seq<char>>| #[trigger]
            has_node(new_sub, p) <==> has_node(old_sub, p) || is_prefix(p, q.drop_first()),
        forall|p: Seq<Seq<char>>| #[trigger]
            has_leaf(new_sub, p) <==> has_leaf(old_sub, p) || p == q.drop_first(),
    ensures
        forall|p: Seq<Seq<char>>| #[trigger]
            has_node(new_self, p) <==> has_node(old_self, p) || is_prefix(p, q),
        forall|p: Seq<Seq<char>>| #[trigger]
            has_leaf(new_self, p) <==> has_leaf(old_self, p) || p == q,
{
    let oc = label_children(old_self.next_subdomains);
    assert forall|p: Seq<Seq<char>>|
        #[trigger] has_node(new_self, p) <==> has_node(old_self, p) || is_prefix(p, q) by {
        if p.len() == 0 {
            assert(q.subrange(0, 0) =~= p);
        } else {
            lemma_prefix_cons(p, q);
            if p[0] == q[0] {
                assert(node_at(new_self, p) == node_at(new_sub, p.drop_first()));
                assert(has_node(new_sub, p.drop_first()) <==> has_node(old_sub, p.drop_first())
                    || is_prefix(p.drop_first(), q.drop_first()));
                if oc.contains_key(q[0]) {
                    assert(node_at(old_self, p) == node_at(old_sub, p.drop_first()));
                } else {
                    assert(has_node(old_sub, p.drop_first()) <==> p.drop_first().len() == 0);
                    assert(node_at(old_self, p) is None);
                    if is_prefix(p.drop_first(), q.drop_first()) {
                    } else {
                        assert(p.drop_first().len() != 0) by {
                            if p.drop_first().len() == 0 {
                                assert(q.drop_first().subrange(0, 0) =~= p.drop_first());
                            }
                        }
                    }
                }
            } else {
                assert(node_at(new_self, p) == node_at(old_self, p));
            }
        }
    }
    assert forall|p: Seq<Seq<char>>|
        #[trigger] has_leaf(new_self, p) <==> has_leaf(old_self, p) || p == q by {
        if p.len() == 0 {
            assert(p != q);
        } else {
            lemma_prefix_cons(p, q);
            if p[0] == q[0] {
                assert(node_at(new_self, p) == node_at(new_sub, p.drop_first()));
                assert(has_leaf(new_sub, p.drop_first()) <==> has_leaf(old_sub, p.drop_first())
                    || p.drop_first() == q.drop_first());
                if oc.contains_key(q[0]) {
                    assert(node_at(old_self, p) == node_at(old_sub, p.drop_first()));
                } else {
                    assert(!has_leaf(old_sub, p.drop_first()));
                    assert(node_at(old_self, p) is None);
                }
            } else {
                assert(node_at(new_self, p) == node_at(old_self, p));
            }
        }
    }
}

impl SubDomain {
    pub fn new() -> (r: SubDomain)
        ensures
            forall|p: Seq<Seq<char>>| !#[trigger] has_leaf(r, p),
            forall|p: Seq<Seq<char>>| #[trigger] has_node(r, p) <==> p.len() == 0,
    {
        let r = SubDomain { leaf: false, next_subdomains: children_new() };
        assert forall|p: Seq<Seq<char>>| !#[trigger] has_leaf(r, p) by {
            if p.len() > 0 {
                assert(!label_children(r.next_subdomains).contains_key(p[0]));
            }
        }
        assert forall|p: Seq<Seq<char>>| #[trigger] has_node(r, p) <==> p.len() == 0 by {
            if p.len() > 0 {
                assert(!label_children(r.next_subdomains).contains_key(p[0]));
            }
        }
        r
    }

    /// Inserts the labels `parts[idx..]` below this node; the node at their end becomes the end
    /// of a name.
    pub fn insert(&mut self, parts: &Vec<&str>, idx: usize)
        requires
            idx < parts@.len(),
        ensures
            ({
                let q = labels_from(parts@, idx as int);
                &&& forall|p: Seq<Seq<char>>| #[trigger]
                    has_node(*final(self), p) <==> has_node(*old(self), p) || is_prefix(p, q)
                &&& forall|p: Seq<Seq<char>>| #[trigger]
                    has_leaf(*final(self), p) <==> has_leaf(*old(self), p) || (p == q)
            }),
        decreases parts@.len() - idx,
    {
        let ghost q = labels_from(parts@, idx as int);
        let ghost old_self = *self;
        let _n = parts.len();
        let domain = parts[idx];
        let mut subdomain = match children_remove(&mut self.next_subdomains, domain) {
            Some(s) => s,
            None => SubDomain::new(),
        };
        let ghost old_sub = subdomain;
        let next = idx + 1;
        if parts.len() > next {
            subdomain.insert(parts, next);
        } else {
            subdomain.leaf = true;
        }
        let ghost new_sub = subdomain;
        children_insert(&mut self.next_subdomains, domain.to_string(), subdomain);
        proof {
            assert(q[0] == domain@);
            assert(q.drop_first() =~= labels_from(parts@, next as int));
            if next >= parts@.len() {
                lemma_leaf_set(old_sub, new_sub);
                assert forall|p: Seq<Seq<char>>| #[trigger] is_prefix(p, q.drop_first()) <==> p.len() == 0 by {
                    if p.len() == 0 {
                        assert(q.drop_first().subrange(0, 0) =~= p);
                    }
                }
                assert forall|p: Seq<Seq<char>>| (p == q.drop_first()) <==> p.len() == 0 by {
                    if p.len() == 0 {
                        assert(p =~= q.drop_first());
                    }
                }
            }
            assert(label_children(self.next_subdomains) =~= label_children(
                old_self.next_subdomains,
            ).insert(q[0], new_sub));
            lemma_insert_lift(old_self, *self, old_sub, new_sub, q);
        }
    }

    /// Looks the labels `parts[idx..]` up below this node.
    pub fn has(&self, parts: &Vec<&str>, idx: usize) -> (res: bool)
        requires
            idx < parts@.len(),
        ensures
            res == walk_hits(*self, labels_from(parts@, idx as int)),
        decreases parts@.len() - idx,
    {
        let ghost r = labels_from(parts@, idx as int);
        let domain = parts[idx];
        let subdomain = children_get(&self.next_subdomains, domain);
        proof {
            assert(r[0] == domain@);
            assert forall|k: int| 1 <= k <= r.len() implies node_at(*self, r.subrange(0, k)) == (
            if label_children(self.next_subdomains).contains_key(r[0]) {
                node_at(label_children(self.next_subdomains)[r[0]], r.subrange(1, k))
            } else {
                None
            }) by {
                lemma_node_at_step(*self, r, k);
            }
        }
        match subdomain {
            Some(s) => {
                if s.leaf || parts.len() <= idx + 1 {
                    proof {
                        assert(r.subrange(1, 1) =~= Seq::<Seq<char>>::empty());
                        assert(has_node(*self, r.subrange(0, 1)));
                    }
                    return true;
                } else {
                    let res = s.has(parts, idx + 1);
                    proof {
                        let r1 = labels_from(parts@, idx + 1);
                        assert(r1 =~= r.drop_first());
                        assert forall|k: int| 1 <= k <= r1.len() implies r1.subrange(0, k) =~= r.subrange(1, k + 1) by {}
                        if res {
                            let k = choose|k: int|
                                1 <= k <= r1.len() && #[trigger] has_node(*s, r1.subrange(0, k)) && (has_leaf(
                                    *s,
                                    r1.subrange(0, k),
                                ) || k == r1.len());
                            assert(r1.subrange(0, k) =~= r.subrange(1, k + 1));
                            assert(has_node(*self, r.subrange(0, k + 1)));
                        } else {
                            assert forall|k: int|
                                1 <= k <= r.len() && #[trigger] has_node(*self, r.subrange(0, k)) implies !(has_leaf(
                                    *self,
                                    r.subrange(0, k),
                                ) || k == r.len()) by {
                                if k == 1 {
                                    assert(r.subrange(1, 1) =~= Seq::<Seq<char>>::empty());
                                } else {
                                    assert(r1.subrange(0, k - 1) =~= r.subrange(1, k));
                                    assert(has_node(*s, r1.subrange(0, k - 1)));
                                }
                            }
                        }
                    }
                    return res;
                }
            },
            None => {
                return false;
            },
        }
    }
}

/// The labels of `parts` from `idx` on, each as a sequence of characters.
pub open spec fn labels_from(parts: Seq<&str>, idx: int) -> Seq<Seq<char>> {
    parts.subrange(idx, parts.len() as int).map_values(|s: &str| s@)
}

/// The labels of a domain name from the top level down: `www.example.com` gives
/// `com`, `example`, `www`.
pub open spec fn domain_labels(d: Seq<char>) -> Seq<Seq<char>> {
    split_dots(d).reverse()
}

/// Some name in `names` is a label suffix of the name with labels `r`, or the other way round.
pub open spec fn name_hits(names: Set<Seq<Seq<char>>>, r: Seq<Seq<char>>) -> bool {
    exists|d: Seq<Seq<char>>| #[trigger] names.contains(d) && (is_prefix(d, r) || is_prefix(r, d))
}

/// Cuts `domain` at its dots and returns the pieces from the last to the first.
fn split_reversed(domain: &str) -> (r: Vec<&str>)
    ensures
        r@.map_values(|s: &str| s@) == domain_labels(domain@),
{
    let pieces = split_on_dots(domain);
    let mut r: Vec<&str> = Vec::new();
    let mut j: usize = pieces.len();
    while j > 0
        invariant
            j <= pieces@.len(),
            r@.len() == pieces@.len() - j,
            forall|k: int| 0 <= k < r@.len() ==> #[trigger] r@[k] == pieces@[pieces@.len() - 1 - k],
        decreases j,
    {
        j = j - 1;
        r.push(pieces[j]);
    }
    proof {
        assert(r@.map_values(|s: &str| s@) =~= pieces@.map_values(|s: &str| s@).reverse());
    }
    r
}

/// A set of domain names; looking a name up finds it when some inserted name is one of its
/// label suffixes, or when it is a label suffix of some inserted name.
pub struct DomainMap {
    root: SubDomain,
}

impl DomainMap {
    /// The label paths of the inserted names.
    pub closed spec fn names(self) -> Set<Seq<Seq<char>>> {
        Set::new(|p: Seq<Seq<char>>| has_leaf(self.root, p))
    }

    /// The tree holds exactly the prefixes of the inserted names, and no name is empty.
    pub closed spec fn wf(self) -> bool {
        &&& forall|p: Seq<Seq<char>>| #[trigger]
            has_node(self.root, p) <==> (p.len() == 0 || exists|d: Seq<Seq<char>>|
                #[trigger] has_leaf(self.root, d) && is_prefix(p, d))
        &&& !has_leaf(self.root, Seq::<Seq<char>>::empty())
    }

    pub fn new() -> (r: DomainMap)
        ensures
            r.wf(),
            r.names() == Set::<Seq<Seq<char>>>::empty(),
    {
        let r = DomainMap { root: SubDomain::new() };
        assert(r.names() =~= Set::<Seq<Seq<char>>>::empty());
        r
    }

    /// Inserts `domain` when it has at least two labels and a non-empty top level label;
    /// leaves the map as it is otherwise.
    pub fn insert(&mut self, domain: &str)
        requires
            old(self).wf(),
        ensures
            final(self).wf(),
            ({
                let r = domain_labels(domain@);
                if r.len() < 2 || r[0].len() == 0 {
                    final(self).names() == old(self).names()
                } else {
                    final(self).names() == old(self).names().insert(r)
                }
            }),
    {
        let vec = split_reversed(domain);
        let ghost r = domain_labels(domain@);
        proof {
            assert(vec@.len() == r.len());
        }
        if vec.len() < 2 {
            return;
        }
        let top = vec[0];
        proof {
            assert(vec@.map_values(|s: &str| s@)[0] == vec@[0]@);
            assert(top@ == r[0]);
        }
        if top.is_empty() {
            return;
        }
        let ghost old_self = *self;
        self.root.insert(&vec, 0);
        proof {
            assert(labels_from(vec@, 0) =~= r);
            assert(self.names() =~= old_self.names().insert(r));
            assert forall|p: Seq<Seq<char>>| #[trigger]
                has_node(self.root, p) <==> (p.len() == 0 || exists|d: Seq<Seq<char>>|
                    #[trigger] has_leaf(self.root, d) && is_prefix(p, d)) by {
                if has_node(old_self.root, p) && p.len() > 0 {
                    let d = choose|d: Seq<Seq<char>>| #[trigger] has_leaf(old_self.root, d) && is_prefix(p, d);
                    assert(has_leaf(self.root, d));
                }
                if is_prefix(p, r) {
                    assert(has_leaf(self.root, r));
                }
                if p.len() > 0 && exists|d: Seq<Seq<char>>| #[trigger] has_leaf(self.root, d) && is_prefix(p, d) {
                    let d = choose|d: Seq<Seq<char>>| #[trigger] has_leaf(self.root, d) && is_prefix(p, d);
                    if d != r {
                        assert(has_leaf(old_self.root, d));
                    }
                }
            }
            assert(r != Seq::<Seq<char>>::empty());
        }
    }

    /// Looks `domain` up: true when it has at least two labels and some inserted name is one
    /// of its label suffixes, or it is a label suffix of some inserted name.
    pub fn has(&self, domain: &str) -> (res: bool)
        requires
            self.wf(),
        ensures
            ({
                let r = domain_labels(domain@);
                res == (r.len() >= 2 && name_hits(self.names(), r))
            }),
    {
        let vec = split_reversed(domain);
        let ghost r = domain_labels(domain@);
        proof {
            assert(vec@.len() == r.len());
        }
        if vec.len() < 2 {
            return false;
        }
        let res = self.root.has(&vec, 0);
        proof {
            assert(labels_from(vec@, 0) =~= r);
            if res {
                let k = choose|k: int|
                    1 <= k <= r.len() && #[trigger] has_node(self.root, r.subrange(0, k)) && (
                    has_leaf(self.root, r.subrange(0, k)) || k == r.len());
                if has_leaf(self.root, r.subrange(0, k)) {
                    let d = r.subrange(0, k);
                    assert(self.names().contains(d));
                    assert(is_prefix(d, r));
                } else {
                    assert(r.subrange(0, k) =~= r);
                    let d = choose|d: Seq<Seq<char>>| #[trigger] has_leaf(self.root, d) && is_prefix(r, d);
                    assert(self.names().contains(d));
                }
            } else {
                assert forall|d: Seq<Seq<char>>| #[trigger] self.names().contains(d) implies !(
                is_prefix(d, r) || is_prefix(r, d)) by {
                    assert(has_leaf(self.root, d));
                    if is_prefix(d, r) {
                        assert(d.len() > 0);
                        let k = d.len() as int;
                        assert(r.subrange(0, k) =~= d);
                        assert(has_node(self.root, d));
                    }
                    if is_prefix(r, d) {
                        assert(r.subrange(0, r.len() as int) =~= r);
                        assert(has_node(self.root, r));
                    }
                }
            }
        }
        res
    }
}

} // verus!

