//! Inclusion proofs in a Merkle-Patricia trie.
//!
//! A proof is the list of encoded nodes on the way from the root to the leaf
//! that holds a key. The first node hashes to the root. Each node leads to
//! the next one by a 32-byte hash, which the next element of the list must
//! hash to, or holds the next node itself when that node is shorter than a
//! hash. The key is walked in nibbles: a branch consumes one, an extension
//! or a leaf consumes its path.

use vstd::prelude::*;
use crate::bytes::{slices_equal, words_equal};
use crate::hash::{keccak256, keccak256_of};
use crate::rlp::{item_at, items_between, lemma_item_bounds, lemma_items_bounds, read_item,
    read_items, Item};

verus! {

/// Why a proof was rejected.
#[derive(Debug, Clone, Copy, PartialEq, Eq, Structural)]
pub enum TrieFailure {
    /// The proof holds no node.
    EmptyProof,
    /// The first node does not hash to the root.
    RootMismatch,
    /// A node on the way is no canonical encoding of a trie node.
    MalformedNode,
    /// A node does not hash to the reference that leads to it.
    HashMismatch,
    /// The proof ends at a reference to a node that it does not hold.
    MissingNode,
    /// The key leaves the trie: a branch has no child for its next nibble,
    /// or the path of an extension or a leaf differs from the key.
    PathMismatch,
    /// The leaf holds another value.
    ValueMismatch,
    /// The proof holds nodes after the leaf.
    TrailingNodes,
}

/// How a node refers to the node below it.
pub enum Link {
    /// No node.
    Absent,
    /// The hash of the node's encoding.
    Hashed(Seq<u8>),
    /// The node's encoding itself.
    Embedded(Seq<u8>),
}

/// A trie node. A reference that is neither empty, nor a hash, nor a short
/// embedded node shows as `None`.
pub enum Node {
    /// Sixteen children, one for each nibble.
    Branch { children: Seq<Option<Link>> },
    /// A shared stretch of path, and the node below it.
    Extension { path: Seq<u8>, child: Option<Link> },
    /// The rest of the key's path, and the value.
    Leaf { path: Seq<u8>, value: Seq<u8> },
}

/// The nibbles of a byte string, the high half of each byte first.
pub open spec fn nibbles_of(bytes: Seq<u8>) -> Seq<u8> {
    Seq::new(
        2 * bytes.len(),
        |k: int|
            if k % 2 == 0 {
                bytes[k / 2] >> 4
            } else {
                bytes[k / 2] & 0x0f
            },
    )
}

/// A compact path starts with a flag byte: the high nibble is 0 or 1 for an
/// extension and 2 or 3 for a leaf, and is odd when the low nibble is the
/// first nibble of the path. With an even count the low nibble is zero.
pub open spec fn compact_is_valid(path: Seq<u8>) -> bool {
    &&& path.len() > 0
    &&& path[0] < 0x40
    &&& (path[0] & 0x10 == 0 ==> path[0] & 0x0f == 0)
}

/// Whether a compact path is that of a leaf.
pub open spec fn compact_is_leaf(path: Seq<u8>) -> bool {
    path[0] & 0x20 != 0
}

/// The nibbles that a compact path stands for.
pub open spec fn compact_nibbles(path: Seq<u8>) -> Seq<u8> {
    if path[0] & 0x10 != 0 {
        seq![path[0] & 0x0f] + nibbles_of(path.skip(1))
    } else {
        nibbles_of(path.skip(1))
    }
}

/// The reference that an item of a node stands for: the empty string for no
/// node, a string of 32 bytes for a hash, a list shorter than 32 bytes for
/// an embedded node.
pub open spec fn link_of(node: Seq<u8>, item: Item) -> Option<Link> {
    if item.is_list {
        if item.end - item.at < 32 {
            Some(Link::Embedded(item.encoding(node)))
        } else {
            None
        }
    } else if item.end == item.start {
        Some(Link::Absent)
    } else if item.end - item.start == 32 {
        Some(Link::Hashed(item.payload(node)))
    } else {
        None
    }
}

/// A list of seventeen items is a branch, if the seventeenth, the branch's
/// own value, is empty.
pub open spec fn branch_of(node: Seq<u8>, items: Seq<Item>) -> Option<Node> {
    if !items[16].is_list && items[16].start == items[16].end {
        Some(Node::Branch { children: Seq::new(16, |k: int| link_of(node, items[k])) })
    } else {
        None
    }
}

/// A list of two items is an extension or a leaf: a compact path, then the
/// reference to the child or the value.
pub open spec fn short_node_of(node: Seq<u8>, items: Seq<Item>) -> Option<Node> {
    let path = items[0].payload(node);
    if items[0].is_list || !compact_is_valid(path) {
        None
    } else if compact_is_leaf(path) {
        if items[1].is_list {
            None
        } else {
            Some(Node::Leaf { path: compact_nibbles(path), value: items[1].payload(node) })
        }
    } else {
        Some(Node::Extension { path: compact_nibbles(path), child: link_of(node, items[1]) })
    }
}

/// The node that a byte string encodes: one list that takes up the whole
/// string, with seventeen or two items.
pub open spec fn node_of(node: Seq<u8>) -> Option<Node> {
    match item_at(node, 0, node.len() as int) {
        Some(top) => if top.is_list && top.end == node.len() {
            match items_between(node, top.start as int, top.end as int) {
                Some(items) => if items.len() == 17 {
                    branch_of(node, items)
                } else if items.len() == 2 {
                    short_node_of(node, items)
                } else {
                    None
                },
                None => None,
            }
        } else {
            None
        },
        None => None,
    }
}

/// The outcome of walking `key` from nibble `depth` on, starting at the
/// node encoded by `node`, with `proof[next..]` as the nodes still to come.
/// `None` means that the walk ends in a leaf that holds `value`, with the
/// key and the proof both used up.
pub open spec fn walk(
    proof: Seq<Seq<u8>>,
    next: int,
    node: Seq<u8>,
    key: Seq<u8>,
    depth: int,
    value: Seq<u8>,
) -> Option<TrieFailure>
    decreases proof.len() - next, node.len(), 1int,
{
    match node_of(node) {
        None => Some(TrieFailure::MalformedNode),
        Some(Node::Leaf { path, value: held }) => if key.skip(depth) != path {
            Some(TrieFailure::PathMismatch)
        } else if held != value {
            Some(TrieFailure::ValueMismatch)
        } else if next < proof.len() {
            Some(TrieFailure::TrailingNodes)
        } else {
            None
        },
        Some(Node::Extension { path, child }) => if !path.is_prefix_of(key.skip(depth)) {
            Some(TrieFailure::PathMismatch)
        } else {
            follow(proof, next, node.len(), child, key, depth + path.len(), value)
        },
        Some(Node::Branch { children }) => if !(0 <= depth < key.len() && key[depth] < 16) {
            Some(TrieFailure::PathMismatch)
        } else {
            follow(proof, next, node.len(), children[key[depth] as int], key, depth + 1, value)
        },
    }
}

/// The outcome of walking on through a reference found in a node of
/// `above` bytes.
pub open spec fn follow(
    proof: Seq<Seq<u8>>,
    next: int,
    above: nat,
    link: Option<Link>,
    key: Seq<u8>,
    depth: int,
    value: Seq<u8>,
) -> Option<TrieFailure>
    decreases proof.len() - next, above, 0int,
{
    match link {
        None => Some(TrieFailure::MalformedNode),
        Some(Link::Absent) => Some(TrieFailure::PathMismatch),
        Some(Link::Hashed(hash)) => if !(0 <= next < proof.len()) {
            Some(TrieFailure::MissingNode)
        } else if keccak256_of(proof[next]) != hash {
            Some(TrieFailure::HashMismatch)
        } else {
            walk(proof, next + 1, proof[next], key, depth, value)
        },
        Some(Link::Embedded(encoding)) => if encoding.len() < above {
            walk(proof, next, encoding, key, depth, value)
        } else {
            Some(TrieFailure::MalformedNode)
        },
    }
}

/// Whether `proof` shows that the trie with root hash `root` maps `key` to
/// `value`, and if not, why not.
pub open spec fn verdict(root: Seq<u8>, key: Seq<u8>, value: Seq<u8>, proof: Seq<Seq<u8>>) -> Result<
    (),
    TrieFailure,
> {
    if proof.len() == 0 {
        Err(TrieFailure::EmptyProof)
    } else if keccak256_of(proof[0]) != root {
        Err(TrieFailure::RootMismatch)
    } else {
        match walk(proof, 1, proof[0], nibbles_of(key), 0, value) {
            None => Ok(()),
            Some(failure) => Err(failure),
        }
    }
}

/// The byte strings that a list of nodes holds.
pub open spec fn nodes_of(proof: Seq<Vec<u8>>) -> Seq<Seq<u8>> {
    Seq::new(proof.len(), |k: int| proof[k]@)
}

/// A node as read: the places of its parts inside the encoding.
enum Shape {
    Branch(Vec<Item>),
    Extension { path: Item, child: Item },
    Leaf { path: Item, value: Item },
}

impl Shape {
    spec fn node(self, buf: Seq<u8>) -> Node {
        match self {
            Shape::Branch(items) => Node::Branch {
                children: Seq::new(16, |k: int| link_of(buf, items@[k])),
            },
            Shape::Extension { path, child } => Node::Extension {
                path: compact_nibbles(path.payload(buf)),
                child: link_of(buf, child),
            },
            Shape::Leaf { path, value } => Node::Leaf {
                path: compact_nibbles(path.payload(buf)),
                value: value.payload(buf),
            },
        }
    }

    spec fn fits(self, limit: int) -> bool {
        match self {
            Shape::Branch(items) => items@.len() == 17 && forall|k: int|
                0 <= k < 17 ==> (#[trigger] items@[k]).within(limit),
            Shape::Extension { path, child } => path.within(limit) && child.within(limit)
                && path.start < path.end,
            Shape::Leaf { path, value } => path.within(limit) && value.within(limit) && path.start
                < path.end,
        }
    }
}

/// Reads the node that `node` encodes.
fn read_node(node: &[u8]) -> (shape: Option<Shape>)
    ensures
        match shape {
            Some(found) => node_of(node@) == Some(found.node(node@)) && found.fits(
                node.len() as int,
            ),
            None => node_of(node@) is None,
        },
{
    let top = match read_item(node, 0, node.len()) {
        Some(top) => top,
        None => {
            return None;
        },
    };
    proof {
        lemma_item_bounds(node@, 0, node.len() as int);
    }
    if !top.is_list || top.end != node.len() {
        return None;
    }
    let items = match read_items(node, top.start, top.end) {
        Some(items) => items,
        None => {
            return None;
        },
    };
    proof {
        lemma_items_bounds(node@, top.start as int, top.end as int);
    }
    if items.len() == 17 {
        let own = items[16];
        if !own.is_list && own.start == own.end {
            Some(Shape::Branch(items))
        } else {
            None
        }
    } else if items.len() == 2 {
        let path = items[0];
        let second = items[1];
        if path.is_list || path.start == path.end {
            return None;
        }
        let flag = node[path.start];
        assert(flag == path.payload(node@)[0]);
        if flag >= 0x40 || (flag & 0x10 == 0 && flag & 0x0f != 0) {
            return None;
        }
        if flag & 0x20 != 0 {
            if second.is_list {
                None
            } else {
                Some(Shape::Leaf { path, value: second })
            }
        } else {
            Some(Shape::Extension { path, child: second })
        }
    } else {
        None
    }
}

/// The nibble of `key` at `at`.
fn key_nibble(key: &[u8; 32], at: usize) -> (nibble: u8)
    requires
        at < 64,
    ensures
        nibble == nibbles_of(key@)[at as int],
        nibble < 16,
{
    let byte = key[at / 2];
    assert(byte >> 4 < 16 && byte & 0x0f < 16) by (bit_vector);
    if at % 2 == 0 {
        byte >> 4
    } else {
        byte & 0x0f
    }
}

/// The nibble at `at` of the path that the compact path in
/// `node[path.start..path.end]` stands for.
fn path_nibble(node: &[u8], path: Item, at: usize) -> (nibble: u8)
    requires
        path.within(node.len() as int),
        path.start < path.end,
        at < compact_nibbles(path.payload(node@)).len(),
        at <= 64,
    ensures
        nibble == compact_nibbles(path.payload(node@))[at as int],
{
    let ghost compact = path.payload(node@);
    let flag = node[path.start];
    assert(flag == compact[0]);
    if flag & 0x10 != 0 {
        if at == 0 {
            flag & 0x0f
        } else {
            let rest = at - 1;
            let byte = node[path.start + 1 + rest / 2];
            assert(byte == compact.skip(1)[(rest / 2) as int]);
            if rest % 2 == 0 {
                byte >> 4
            } else {
                byte & 0x0f
            }
        }
    } else {
        let byte = node[path.start + 1 + at / 2];
        assert(byte == compact.skip(1)[(at / 2) as int]);
        if at % 2 == 0 {
            byte >> 4
        } else {
            byte & 0x0f
        }
    }
}

/// Holds the path of an extension or a leaf against the key from `depth`
/// on. Returns the number of nibbles of the path if the key goes on with
/// them, and `None` if it does not.
fn match_path(node: &[u8], path: Item, key: &[u8; 32], depth: usize) -> (taken: Option<usize>)
    requires
        path.within(node.len() as int),
        path.start < path.end,
        depth <= 64,
    ensures
        match taken {
            Some(count) => {
                &&& count == compact_nibbles(path.payload(node@)).len()
                &&& depth + count <= 64
                &&& compact_nibbles(path.payload(node@)).is_prefix_of(
                    nibbles_of(key@).skip(depth as int),
                )
            },
            None => !compact_nibbles(path.payload(node@)).is_prefix_of(
                nibbles_of(key@).skip(depth as int),
            ),
        },
{
    let ghost compact = path.payload(node@);
    let ghost nibbles = compact_nibbles(compact);
    let ghost rest = nibbles_of(key@).skip(depth as int);
    let bytes = path.end - path.start - 1;
    let flag = node[path.start];
    assert(flag == compact[0]);
    if bytes > 32 {
        return None;
    }
    let count: usize = if flag & 0x10 != 0 {
        2 * bytes + 1
    } else {
        2 * bytes
    };
    assert(count == nibbles.len());
    if count > 64 - depth {
        return None;
    }
    let mut at: usize = 0;
    while at < count
        invariant
            at <= count,
            count == nibbles.len(),
            depth + count <= 64,
            path.within(node.len() as int),
            path.start < path.end,
            nibbles == compact_nibbles(path.payload(node@)),
            rest == nibbles_of(key@).skip(depth as int),
            forall|k: int| 0 <= k < at ==> nibbles[k] == rest[k],
        decreases count - at,
    {
        let ours = path_nibble(node, path, at);
        let theirs = key_nibble(key, depth + at);
        assert(theirs == rest[at as int]);
        if ours != theirs {
            assert(nibbles[at as int] != rest.subrange(0, nibbles.len() as int)[at as int]);
            return None;
        }
        at += 1;
    }
    assert(nibbles =~= rest.subrange(0, nibbles.len() as int));
    Some(count)
}

/// Checks an inclusion proof: that the trie with root hash `root` maps the
/// 32-byte `key` to `value`, as shown by the nodes of `proof`, ordered from
/// the root down.
///
/// The proof is accepted only if its first node hashes to `root`, every
/// later node hashes to the reference that leads to it, the walk ends in a
/// leaf exactly when the key is used up, that leaf holds exactly `value`,
/// and no node is left over. Anything else is a rejection.
pub fn verify_proof(root: &[u8; 32], key: &[u8; 32], value: &[u8], proof: &Vec<Vec<u8>>) -> (outcome:
    Result<(), TrieFailure>)
    ensures
        outcome == verdict(root@, key@, value@, nodes_of(proof@)),
{
    let ghost nodes = nodes_of(proof@);
    let ghost nibbles = nibbles_of(key@);
    if proof.len() == 0 {
        return Err(TrieFailure::EmptyProof);
    }
    let first = proof[0].as_slice();
    assert(first@ == nodes[0]);
    let digest = keccak256(first);
    if !words_equal(&digest, root) {
        return Err(TrieFailure::RootMismatch);
    }
    let ghost goal = walk(nodes, 1, nodes[0], nibbles, 0, value@);
    let mut node: &[u8] = first;
    let mut next: usize = 1;
    let mut depth: usize = 0;
    loop
        invariant
            1 <= next <= proof.len(),
            depth <= 64,
            nodes == nodes_of(proof@),
            nibbles == nibbles_of(key@),
            keccak256_of(nodes[0]) == root@,
            goal == walk(nodes, 1, nodes[0], nibbles, 0, value@),
            walk(nodes, next as int, node@, nibbles, depth as int, value@) == goal,
        decreases proof.len() - next, node.len(),
    {
        let shape = match read_node(node) {
            Some(shape) => shape,
            None => {
                return Err(TrieFailure::MalformedNode);
            },
        };
        let link: Item = match shape {
            Shape::Leaf { path, value: held } => {
                let ghost rest = nibbles.skip(depth as int);
                let ghost ours = compact_nibbles(path.payload(node@));
                match match_path(node, path, key, depth) {
                    None => {
                        return Err(TrieFailure::PathMismatch);
                    },
                    Some(count) => {
                        if depth + count != 64 {
                            assert(rest.len() != ours.len());
                            return Err(TrieFailure::PathMismatch);
                        }
                        assert(rest =~= ours);
                    },
                }
                let found = &node[held.start..held.end];
                assert(found@ == held.payload(node@));
                if !slices_equal(found, value) {
                    return Err(TrieFailure::ValueMismatch);
                }
                if next < proof.len() {
                    return Err(TrieFailure::TrailingNodes);
                }
                return Ok(());
            },
            Shape::Extension { path, child } => {
                match match_path(node, path, key, depth) {
                    None => {
                        return Err(TrieFailure::PathMismatch);
                    },
                    Some(count) => {
                        depth += count;
                    },
                }
                child
            },
            Shape::Branch(items) => {
                if depth >= 64 {
                    return Err(TrieFailure::PathMismatch);
                }
                let nibble = key_nibble(key, depth);
                depth += 1;
                items[nibble as usize]
            },
        };
        if link.is_list {
            if link.end - link.at >= 32 || link.end - link.at >= node.len() {
                return Err(TrieFailure::MalformedNode);
            }
            let inner = &node[link.at..link.end];
            assert(inner@ == link.encoding(node@));
            node = inner;
        } else if link.end == link.start {
            return Err(TrieFailure::PathMismatch);
        } else if link.end - link.start == 32 {
            if next >= proof.len() {
                return Err(TrieFailure::MissingNode);
            }
            let below = proof[next].as_slice();
            assert(below@ == nodes[next as int]);
            let digest = keccak256(below);
            let wanted = &node[link.start..link.end];
            assert(wanted@ == link.payload(node@));
            if !slices_equal(digest.as_slice(), wanted) {
                return Err(TrieFailure::HashMismatch);
            }
            node = below;
            next += 1;
        } else {
            return Err(TrieFailure::MalformedNode);
        }
    }
}

/// A walk that is accepted and has yet to reach node `at` of the proof is
/// rejected once that node is replaced by one with another hash.
proof fn lemma_walk_meets_altered_node(
    proof: Seq<Seq<u8>>,
    next: int,
    node: Seq<u8>,
    key: Seq<u8>,
    depth: int,
    value: Seq<u8>,
    at: int,
    altered: Seq<u8>,
)
    requires
        0 <= next <= at < proof.len(),
        keccak256_of(altered) != keccak256_of(proof[at]),
        walk(proof, next, node, key, depth, value) is None,
    ensures
        walk(proof.update(at, altered), next, node, key, depth, value) is Some,
    decreases proof.len() - next, node.len(), 1int,
{
    let changed = proof.update(at, altered);
    match node_of(node) {
        None => {},
        Some(Node::Leaf { .. }) => {},
        Some(Node::Extension { path, child }) => {
            lemma_follow_meets_altered_node(
                proof,
                next,
                node.len(),
                child,
                key,
                depth + path.len(),
                value,
                at,
                altered,
            );
        },
        Some(Node::Branch { children }) => {
            lemma_follow_meets_altered_node(
                proof,
                next,
                node.len(),
                children[key[depth] as int],
                key,
                depth + 1,
                value,
                at,
                altered,
            );
        },
    }
}

/// The same for a walk that goes on through a reference.
proof fn lemma_follow_meets_altered_node(
    proof: Seq<Seq<u8>>,
    next: int,
    above: nat,
    link: Option<Link>,
    key: Seq<u8>,
    depth: int,
    value: Seq<u8>,
    at: int,
    altered: Seq<u8>,
)
    requires
        0 <= next <= at < proof.len(),
        keccak256_of(altered) != keccak256_of(proof[at]),
        follow(proof, next, above, link, key, depth, value) is None,
    ensures
        follow(proof.update(at, altered), next, above, link, key, depth, value) is Some,
    decreases proof.len() - next, above, 0int,
{
    match link {
        Some(Link::Hashed(hash)) => {
            if next < at {
                lemma_walk_meets_altered_node(
                    proof,
                    next + 1,
                    proof[next],
                    key,
                    depth,
                    value,
                    at,
                    altered,
                );
            }
        },
        Some(Link::Embedded(encoding)) => {
            lemma_walk_meets_altered_node(proof, next, encoding, key, depth, value, at, altered);
        },
        _ => {},
    }
}

/// A proof that is accepted is rejected once any one of its nodes is
/// replaced by a node with another hash, be it a node altered in a single
/// byte or another node of the proof put in its place.
pub proof fn lemma_altered_node_is_rejected(
    root: Seq<u8>,
    key: Seq<u8>,
    value: Seq<u8>,
    proof: Seq<Seq<u8>>,
    at: int,
    altered: Seq<u8>,
)
    requires
        verdict(root, key, value, proof) is Ok,
        0 <= at < proof.len(),
        keccak256_of(altered) != keccak256_of(proof[at]),
    ensures
        verdict(root, key, value, proof.update(at, altered)) is Err,
{
    if at > 0 {
        lemma_walk_meets_altered_node(proof, 1, proof[0], nibbles_of(key), 0, value, at, altered);
    }
}

/// A walk that is accepted for one value is rejected for any other.
proof fn lemma_walk_holds_one_value(
    proof: Seq<Seq<u8>>,
    next: int,
    node: Seq<u8>,
    key: Seq<u8>,
    depth: int,
    value: Seq<u8>,
    other: Seq<u8>,
)
    requires
        value != other,
        walk(proof, next, node, key, depth, value) is None,
    ensures
        walk(proof, next, node, key, depth, other) is Some,
    decreases proof.len() - next, node.len(), 1int,
{
    match node_of(node) {
        None => {},
        Some(Node::Leaf { .. }) => {},
        Some(Node::Extension { path, child }) => {
            lemma_follow_holds_one_value(
                proof,
                next,
                node.len(),
                child,
                key,
                depth + path.len(),
                value,
                other,
            );
        },
        Some(Node::Branch { children }) => {
            lemma_follow_holds_one_value(
                proof,
                next,
                node.len(),
                children[key[depth] as int],
                key,
                depth + 1,
                value,
                other,
            );
        },
    }
}

/// The same for a walk that goes on through a reference.
proof fn lemma_follow_holds_one_value(
    proof: Seq<Seq<u8>>,
    next: int,
    above: nat,
    link: Option<Link>,
    key: Seq<u8>,
    depth: int,
    value: Seq<u8>,
    other: Seq<u8>,
)
    requires
        value != other,
        follow(proof, next, above, link, key, depth, value) is None,
    ensures
        follow(proof, next, above, link, key, depth, other) is Some,
    decreases proof.len() - next, above, 0int,
{
    match link {
        Some(Link::Hashed(hash)) => {
            lemma_walk_holds_one_value(proof, next + 1, proof[next], key, depth, value, other);
        },
        Some(Link::Embedded(encoding)) => {
            lemma_walk_holds_one_value(proof, next, encoding, key, depth, value, other);
        },
        _ => {},
    }
}

/// A proof proves one value only: accepted for a value, it is rejected for
/// every value that differs from it, if only in one byte.
pub proof fn lemma_other_value_is_rejected(
    root: Seq<u8>,
    key: Seq<u8>,
    value: Seq<u8>,
    other: Seq<u8>,
    proof: Seq<Seq<u8>>,
)
    requires
        verdict(root, key, value, proof) is Ok,
        value != other,
    ensures
        verdict(root, key, other, proof) is Err,
{
    lemma_walk_holds_one_value(proof, 1, proof[0], nibbles_of(key), 0, value, other);
}

/// A proof is accepted only against the hash of its first node.
pub proof fn lemma_other_root_is_rejected(
    root: Seq<u8>,
    other: Seq<u8>,
    key: Seq<u8>,
    value: Seq<u8>,
    proof: Seq<Seq<u8>>,
)
    requires
        verdict(root, key, value, proof) is Ok,
        root != other,
    ensures
        verdict(other, key, value, proof) == Err::<(), TrieFailure>(TrieFailure::RootMismatch),
{
}

} // verus!
