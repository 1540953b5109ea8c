//! Merkle-Patricia inclusion proofs, checked by `alloy_trie`.
//!
//! The outside check walks the nodes of a proof and keeps the path it has
//! walked in 64 nibbles. Before a proof is handed to it, the nodes are read
//! here as RLP and held to what a proof for a 32-byte key is made of, so that
//! the walk stays within those 64 nibbles and meets no node stored in place.
use crate::bytes::B256;
use vstd::prelude::*;

verus! {

/// The proof's nodes as byte strings.
pub open spec fn nodes_view(nodes: Seq<Vec<u8>>) -> Seq<Seq<u8>> {
    Seq::new(nodes.len(), |i: int| nodes[i]@)
}

/// The number of nibbles of a path of 32 bytes.
pub const PATH_NIBBLES: usize = 64;

/// Reads the header of an RLP item whose length takes `length_bytes` bytes
/// after its first byte: whether it is a list, where its payload starts and
/// where it ends. Lengths of more than two bytes, lengths with a leading
/// zero and lengths below 56 are no such header.
pub open spec fn long_item(s: Seq<u8>, pos: int, list: bool, length_bytes: int) -> Option<
    (bool, int, int),
> {
    if length_bytes > 2 || pos + 1 + length_bytes > s.len() || s[pos + 1] == 0 {
        None
    } else {
        let n = if length_bytes == 1 {
            s[pos + 1] as int
        } else {
            s[pos + 1] as int * 256 + s[pos + 2] as int
        };
        if n < 56 || pos + 1 + length_bytes + n > s.len() {
            None
        } else {
            Some((list, pos + 1 + length_bytes, pos + 1 + length_bytes + n))
        }
    }
}

/// Reads the canonical RLP item at `pos`: whether it is a list, where its
/// payload starts and where it ends; `None` where no item of at most 65535
/// bytes stands there whole.
pub open spec fn rlp_item(s: Seq<u8>, pos: int) -> Option<(bool, int, int)> {
    if pos < 0 || pos >= s.len() {
        None
    } else if s[pos] < 0x80 {
        Some((false, pos, pos + 1))
    } else if s[pos] <= 0xb7 {
        let n = s[pos] - 0x80;
        if pos + 1 + n > s.len() {
            None
        } else if n == 1 && s[pos + 1] < 0x80 {
            None
        } else {
            Some((false, pos + 1, pos + 1 + n))
        }
    } else if s[pos] <= 0xbf {
        long_item(s, pos, false, s[pos] - 0xb7)
    } else if s[pos] <= 0xf7 {
        let n = s[pos] - 0xc0;
        if pos + 1 + n > s.len() {
            None
        } else {
            Some((true, pos + 1, pos + 1 + n))
        }
    } else {
        long_item(s, pos, true, s[pos] - 0xf7)
    }
}

/// Where the child of a branch that stands at `pos` ends: a child is the
/// empty string, or an item of 33 bytes, which is the hash of a node.
pub open spec fn child_end(s: Seq<u8>, pos: int) -> Option<int> {
    match rlp_item(s, pos) {
        Some((_, _, end)) => if (end - pos == 1 && s[pos] == 0x80) || end - pos == 33 {
            Some(end)
        } else {
            None
        },
        None => None,
    }
}

/// Where `left` children of a branch that start at `pos` end.
pub open spec fn children_end(s: Seq<u8>, pos: int, left: nat) -> Option<int>
    decreases left,
{
    if left == 0 {
        Some(pos)
    } else {
        match child_end(s, pos) {
            Some(next) => children_end(s, next, (left - 1) as nat),
            None => None,
        }
    }
}

/// Whether `s` is a branch node with no child stored in place: a list of 16
/// children and an empty value, and nothing after it.
pub open spec fn is_branch(s: Seq<u8>) -> bool {
    match rlp_item(s, 0) {
        Some((list, start, end)) => list && end == s.len() && match children_end(s, start, 16) {
            Some(p) => p + 1 == s.len() && s[p] == 0x80,
            None => false,
        },
        None => false,
    }
}

/// The number of nibbles of the path of a leaf or extension node: `s` is a
/// list of a compact path of at most 64 nibbles and a second item, which for
/// an extension is the hash of a node and for a leaf a string; `None` for
/// every other node.
pub open spec fn path_nibbles(s: Seq<u8>) -> Option<nat> {
    match rlp_item(s, 0) {
        Some((list, start, end)) => if !list || end != s.len() {
            None
        } else {
            match rlp_item(s, start) {
                Some((key_list, key, key_end)) => if key_list || key_end - key < 1 {
                    None
                } else {
                    let flag = s[key] / 16;
                    let count = 2 * (key_end - key - 1) + flag % 2;
                    if flag > 3 || count > PATH_NIBBLES {
                        None
                    } else {
                        match rlp_item(s, key_end) {
                            Some((second_list, _, second_end)) => if second_end != s.len() {
                                None
                            } else if flag < 2 && second_end - key_end != 33 {
                                None
                            } else if flag >= 2 && second_list {
                                None
                            } else {
                                Some(count as nat)
                            },
                            None => None,
                        }
                    }
                },
                None => None,
            }
        },
        None => None,
    }
}

/// The most nibbles that the walk adds to its path at the node `s`: those of
/// the path of a leaf or extension, one at a branch; `None` where `s` is no
/// node that the walk is sure to pass.
pub open spec fn node_nibbles(s: Seq<u8>) -> Option<nat> {
    match path_nibbles(s) {
        Some(count) => Some(count),
        None => if is_branch(s) {
            Some(1)
        } else {
            None
        },
    }
}

/// The nibbles that the first `n` nodes add together, where each of them is
/// a node that the walk passes and the sum stays within 64.
pub open spec fn nibbles_upto(nodes: Seq<Seq<u8>>, n: nat) -> Option<nat>
    decreases n,
{
    if n == 0 {
        Some(0)
    } else {
        match nibbles_upto(nodes, (n - 1) as nat) {
            Some(before) => match node_nibbles(nodes[n - 1]) {
                Some(count) => if before + count <= PATH_NIBBLES {
                    Some(before + count)
                } else {
                    None
                },
                None => None,
            },
            None => None,
        }
    }
}

/// Whether the outside check can walk the nodes: each is a branch, a leaf or
/// an extension without a node stored in place, and their paths add up to at
/// most 64 nibbles.
pub open spec fn walkable(nodes: Seq<Seq<u8>>) -> bool {
    nibbles_upto(nodes, nodes.len()) is Some
}

/// Nodes that cannot be walked up to some node cannot be walked further.
pub proof fn lemma_unwalkable_stays(nodes: Seq<Seq<u8>>, n: nat, m: nat)
    requires
        nibbles_upto(nodes, n) is None,
        n <= m,
    ensures
        nibbles_upto(nodes, m) is None,
    decreases m,
{
    if n < m {
        lemma_unwalkable_stays(nodes, n, (m - 1) as nat);
    }
}

/// Whether `proof` shows that the trie with root `root` holds `value` at the
/// path made of the nibbles of `key`.
pub uninterp spec fn trie_proof_holds(
    root: Seq<u8>,
    key: Seq<u8>,
    value: Seq<u8>,
    proof: Seq<Seq<u8>>,
) -> bool;

/// Calls `alloy_trie::proof::verify_proof` with the nibbles of `key` as the
/// path and `value` as the value expected there.
///
/// Not proved: that the call accepts exactly the proofs that
/// [`trie_proof_holds`] names. Nodes that are not [`walkable`] are left out:
/// on a path of more than 64 nibbles, and on some nodes stored in place, the
/// outside function does not return.
#[verifier::external_body]
pub(crate) fn verify_trie_proof(
    root: &B256,
    key: &B256,
    value: Vec<u8>,
    nodes: &Vec<Vec<u8>>,
) -> (r: bool)
    requires
        walkable(nodes_view(nodes@)),
    ensures
        r == trie_proof_holds(root@, key@, value@, nodes_view(nodes@)),
{
    let mut path_nodes: Vec<alloy_primitives::Bytes> = Vec::new();
    for node in nodes {
        path_nodes.push(alloy_primitives::Bytes::copy_from_slice(node));
    }
    let root = alloy_primitives::B256::new(*root);
    let path = alloy_trie::Nibbles::unpack(key);
    alloy_trie::proof::verify_proof(root, path, Some(value), &path_nodes).is_ok()
}

/// Whether the nodes can be walked and show that the trie with root `root`
/// holds `value` at the path made of the nibbles of `key`.
pub open spec fn trie_proof_accepted(
    root: Seq<u8>,
    key: Seq<u8>,
    value: Seq<u8>,
    nodes: Seq<Seq<u8>>,
) -> bool {
    walkable(nodes) && trie_proof_holds(root, key, value, nodes)
}

/// Reads the header of an RLP item whose length takes `length_bytes` bytes.
fn read_long_item(s: &[u8], pos: usize, list: bool, length_bytes: u8) -> (r: Option<
    (bool, usize, usize),
>)
    requires
        pos < s@.len(),
        1 <= length_bytes <= 8,
    ensures
        match r {
            Some((l, start, end)) => long_item(s@, pos as int, list, length_bytes as int) == Some(
                (l, start as int, end as int),
            ) && pos < start <= end <= s@.len(),
            None => long_item(s@, pos as int, list, length_bytes as int) is None,
        },
{
    let room = s.len() - pos - 1;
    if length_bytes > 2 || room < length_bytes as usize || s[pos + 1] == 0 {
        return None;
    }
    let n: usize = if length_bytes == 1 {
        s[pos + 1] as usize
    } else {
        s[pos + 1] as usize * 256 + s[pos + 2] as usize
    };
    if n < 56 || room - (length_bytes as usize) < n {
        return None;
    }
    let start = pos + 1 + length_bytes as usize;
    Some((list, start, start + n))
}

/// Reads the canonical RLP item at `pos`.
pub fn read_item(s: &[u8], pos: usize) -> (r: Option<(bool, usize, usize)>)
    ensures
        match r {
            Some((list, start, end)) => rlp_item(s@, pos as int) == Some(
                (list, start as int, end as int),
            ) && pos <= start <= end <= s@.len() && pos < end,
            None => rlp_item(s@, pos as int) is None,
        },
{
    if pos >= s.len() {
        return None;
    }
    let b = s[pos];
    let room = s.len() - pos - 1;
    if b < 0x80 {
        Some((false, pos, pos + 1))
    } else if b <= 0xb7 {
        let n = (b - 0x80) as usize;
        if room < n {
            None
        } else if n == 1 && s[pos + 1] < 0x80 {
            None
        } else {
            Some((false, pos + 1, pos + 1 + n))
        }
    } else if b <= 0xbf {
        read_long_item(s, pos, false, b - 0xb7)
    } else if b <= 0xf7 {
        let n = (b - 0xc0) as usize;
        if room < n {
            None
        } else {
            Some((true, pos + 1, pos + 1 + n))
        }
    } else {
        read_long_item(s, pos, true, b - 0xf7)
    }
}

/// Whether `s` is a branch node with no child stored in place.
pub fn check_branch(s: &[u8]) -> (r: bool)
    ensures
        r == is_branch(s@),
{
    let (list, start, end) = match read_item(s, 0) {
        Some(item) => item,
        None => {
            return false;
        },
    };
    if !list || end != s.len() {
        return false;
    }
    let mut pos = start;
    let mut i: usize = 0;
    while i < 16
        invariant
            i <= 16,
            pos <= s@.len(),
            rlp_item(s@, 0) == Some((true, start as int, s@.len() as int)),
            children_end(s@, start as int, 16) == children_end(s@, pos as int, (16 - i) as nat),
        decreases 16 - i,
    {
        let child = match read_item(s, pos) {
            Some((_, _, child)) => child,
            None => {
                return false;
            },
        };
        if !((child - pos == 1 && s[pos] == 0x80) || child - pos == 33) {
            return false;
        }
        pos = child;
        i += 1;
    }
    pos < s.len() && s.len() - pos == 1 && s[pos] == 0x80
}

/// The number of nibbles of the path of a leaf or extension node.
pub fn read_path_nibbles(s: &[u8]) -> (r: Option<usize>)
    ensures
        match r {
            Some(count) => path_nibbles(s@) == Some(count as nat) && count <= PATH_NIBBLES,
            None => path_nibbles(s@) is None,
        },
{
    let (list, start, end) = match read_item(s, 0) {
        Some(item) => item,
        None => {
            return None;
        },
    };
    if !list || end != s.len() {
        return None;
    }
    let (key_list, key, key_end) = match read_item(s, start) {
        Some(item) => item,
        None => {
            return None;
        },
    };
    if key_list || key_end - key < 1 {
        return None;
    }
    let flag = s[key] / 16;
    if flag > 3 || key_end - key > 33 {
        return None;
    }
    let count = 2 * (key_end - key - 1) + (flag % 2) as usize;
    if count > PATH_NIBBLES {
        return None;
    }
    let (second_list, _, second_end) = match read_item(s, key_end) {
        Some(item) => item,
        None => {
            return None;
        },
    };
    if second_end != s.len() {
        return None;
    }
    if flag < 2 && second_end - key_end != 33 {
        return None;
    }
    if flag >= 2 && second_list {
        return None;
    }
    Some(count)
}

/// The most nibbles that the walk adds to its path at the node `s`.
pub fn read_node_nibbles(s: &[u8]) -> (r: Option<usize>)
    ensures
        match r {
            Some(count) => node_nibbles(s@) == Some(count as nat) && count <= PATH_NIBBLES,
            None => node_nibbles(s@) is None,
        },
{
    match read_path_nibbles(s) {
        Some(count) => Some(count),
        None => if check_branch(s) {
            Some(1)
        } else {
            None
        },
    }
}

/// Whether the outside check can walk the nodes.
pub fn check_walkable(nodes: &Vec<Vec<u8>>) -> (r: bool)
    ensures
        r == walkable(nodes_view(nodes@)),
{
    let ghost view = nodes_view(nodes@);
    let n = nodes.len();
    let mut total: usize = 0;
    let mut i: usize = 0;
    while i < n
        invariant
            i <= n,
            n == nodes@.len(),
            view == nodes_view(nodes@),
            total <= PATH_NIBBLES,
            nibbles_upto(view, i as nat) == Some(total as nat),
        decreases n - i,
    {
        proof {
            assert(view[i as int] == nodes@[i as int]@);
        }
        match read_node_nibbles(nodes[i].as_slice()) {
            Some(count) => {
                if total + count > PATH_NIBBLES {
                    proof {
                        lemma_unwalkable_stays(view, (i + 1) as nat, n as nat);
                    }
                    return false;
                }
                total = total + count;
            },
            None => {
                proof {
                    lemma_unwalkable_stays(view, (i + 1) as nat, n as nat);
                }
                return false;
            },
        }
        i += 1;
    }
    true
}

/// Checks a Merkle-Patricia proof: whether the nodes can be walked and show
/// that the trie with root `root` holds `value` at the path made of the
/// nibbles of `key`. Nodes that cannot be walked are no proof.
pub fn check_trie_proof(root: &B256, key: &B256, value: Vec<u8>, nodes: &Vec<Vec<u8>>) -> (r: bool)
    ensures
        r == trie_proof_accepted(root@, key@, value@, nodes_view(nodes@)),
{
    if !check_walkable(nodes) {
        return false;
    }
    verify_trie_proof(root, key, value, nodes)
}

} // verus!
