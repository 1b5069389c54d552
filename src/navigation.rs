//! Moving a cell-path through a value tree: to a sibling, into the first
//! child, back to the parent. The bottom flag says that the selected node is
//! viewed in full because it has no child to go into.
use vstd::prelude::*;

use crate::value::{
    child_of, find_key, is_first_key, key_index, lemma_value_view, members_view, resolve,
    resolve_from, Data, Member, PathMember, Value,
};

verus! {

/// The way to move among siblings.
#[derive(Debug, Clone, Copy, PartialEq, Eq, Structural)]
pub enum Direction {
    Up,
    Down,
}

/// The position after `pos` among `n` siblings, wrapping around at both ends.
pub open spec fn step(pos: int, n: int, direction: Direction) -> int {
    match direction {
        Direction::Down => if pos + 1 < n {
            pos + 1
        } else {
            0
        },
        Direction::Up => if pos > 0 {
            pos - 1
        } else {
            n - 1
        },
    }
}

/// The selector of the sibling of `m` in `parent`, where `parent` has more
/// than one child and `m` selects one of them.
pub open spec fn sibling_member(parent: Data, m: Member, direction: Direction) -> Option<Member> {
    match parent {
        Data::List(vals) => match m {
            Member::Index { index, .. } => if vals.len() > 1 && index < vals.len() {
                Some(Member::Index { index: step(index as int, vals.len() as int, direction) as nat, optional: false })
            } else {
                None
            },
            _ => None,
        },
        Data::Record(cols, _) => match m {
            Member::Key { key, .. } => {
                let pos = key_index(cols, key);
                if cols.len() > 1 && pos >= 0 {
                    Some(Member::Key { key: cols[step(pos, cols.len() as int, direction)], optional: false })
                } else {
                    None
                }
            },
            _ => None,
        },
        _ => None,
    }
}

/// The path after moving up or down among the siblings of the selected node.
pub open spec fn sibling_path(tree: Data, path: Seq<Member>, bottom: bool, direction: Direction) -> Seq<Member> {
    if bottom || path.len() == 0 {
        path
    } else {
        match resolve(tree, path.drop_last()) {
            Ok(parent) => match sibling_member(parent, path.last(), direction) {
                Some(m) => path.update(path.len() - 1, m),
                None => path,
            },
            Err(_) => path,
        }
    }
}

/// The selector of the first child of `d`, if it has one.
pub open spec fn first_child(d: Data) -> Option<Member> {
    match d {
        Data::List(vals) => if vals.len() > 0 {
            Some(Member::Index { index: 0, optional: false })
        } else {
            None
        },
        Data::Record(cols, _) => if cols.len() > 0 {
            Some(Member::Key { key: cols[0], optional: false })
        } else {
            None
        },
        _ => None,
    }
}

/// `d` has no child to go into: a scalar or an empty container.
pub open spec fn is_leaf(d: Data) -> bool {
    first_child(d) is None
}

/// The path and bottom flag after going into the selected node.
pub open spec fn deeper(tree: Data, path: Seq<Member>, bottom: bool) -> (Seq<Member>, bool) {
    if bottom {
        (path, true)
    } else {
        match resolve(tree, path) {
            Ok(d) => match first_child(d) {
                Some(m) => (path.push(m), false),
                None => (path, true),
            },
            Err(_) => (path, true),
        }
    }
}

/// The path and bottom flag after going back: out of the full view of a leaf,
/// or else to the parent, never above the top level.
pub open spec fn back(path: Seq<Member>, bottom: bool) -> (Seq<Member>, bool) {
    if bottom {
        (path, false)
    } else if path.len() > 1 {
        (path.drop_last(), false)
    } else {
        (path, false)
    }
}

/// The node that the first `len` members of `members` select, borrowed from
/// the tree; `None` where they select none, or where an optional member ends
/// the walk.
fn node_at<'a>(value: &'a Value, members: &Vec<PathMember>, len: usize) -> (r: Option<&'a Value>)
    requires
        len <= members.len(),
    ensures
        match r {
            Some(v) => resolve(value@, members_view(members@).subrange(0, len as int)) == Ok::<Data, nat>(v@),
            None => resolve(value@, members_view(members@).subrange(0, len as int)) is Err
                || resolve(value@, members_view(members@).subrange(0, len as int)) == Ok::<Data, nat>(Data::Nothing),
        },
{
    let ghost path = members_view(members@).subrange(0, len as int);
    let mut cur: &Value = value;
    let mut i: usize = 0;
    while i < len
        invariant
            i <= len <= members.len(),
            path == members_view(members@).subrange(0, len as int),
            resolve(value@, path) == resolve_from(cur@, path, i as nat),
        decreases len - i,
    {
        assert(path[i as int] == members@[i as int]@);
        let next = child_of(cur, &members[i]);
        match next {
            Some(c) => {
                cur = c;
            },
            None => {
                return None;
            },
        }
        i = i + 1;
    }
    Some(cur)
}

/// Moves the selection to the previous or next sibling, wrapping around.
pub fn go_up_or_down_in_data(members: &mut Vec<PathMember>, bottom: bool, value: &Value, direction: Direction)
    ensures
        members_view(final(members)@) == sibling_path(value@, members_view(old(members)@), bottom, direction),
{
    if bottom || members.len() == 0 {
        return;
    }
    let last = members.len() - 1;
    let ghost path = members_view(members@);
    assert(path.drop_last() =~= path.subrange(0, last as int));
    assert(path.last() == members@[last as int]@);
    let new_member: Option<PathMember> = match node_at(value, members, last) {
        Some(parent) => {
            proof { lemma_value_view(*parent); }
            match parent {
                Value::List { vals } => match &members[last] {
                    PathMember::Int { val, .. } => if vals.len() > 1 && *val < vals.len() {
                        let index = match direction {
                            Direction::Down => if *val + 1 < vals.len() {
                                *val + 1
                            } else {
                                0
                            },
                            Direction::Up => if *val > 0 {
                                *val - 1
                            } else {
                                vals.len() - 1
                            },
                        };
                        Some(PathMember::Int { val: index, optional: false })
                    } else {
                        None
                    },
                    _ => None,
                },
                Value::Record { cols, .. } => match &members[last] {
                    PathMember::String { val, .. } => if cols.len() > 1 {
                        match find_key(cols, val) {
                            Some(pos) => {
                                let index = match direction {
                                    Direction::Down => if pos + 1 < cols.len() {
                                        pos + 1
                                    } else {
                                        0
                                    },
                                    Direction::Up => if pos > 0 {
                                        pos - 1
                                    } else {
                                        cols.len() - 1
                                    },
                                };
                                Some(PathMember::String { val: cols[index].clone(), optional: false })
                            },
                            None => None,
                        }
                    } else {
                        None
                    },
                    _ => None,
                },
                _ => None,
            }
        },
        None => None,
    };
    match new_member {
        Some(m) => {
            members.set(last, m);
            assert(members_view(members@) =~= path.update(last as int, m@));
        },
        None => {},
    }
}

/// Goes into the selected node: selects its first child, or, where it has
/// none, sets the bottom flag.
pub fn go_deeper_in_data(members: &mut Vec<PathMember>, bottom: &mut bool, value: &Value)
    ensures
        (members_view(final(members)@), *final(bottom)) == deeper(value@, members_view(old(members)@), *old(bottom)),
{
    if *bottom {
        return;
    }
    let ghost path = members_view(members@);
    assert(path.subrange(0, members.len() as int) =~= path);
    let first: Option<PathMember> = match node_at(value, members, members.len()) {
        Some(node) => {
            proof { lemma_value_view(*node); }
            match node {
                Value::List { vals } => if vals.len() > 0 {
                    Some(PathMember::Int { val: 0, optional: false })
                } else {
                    None
                },
                Value::Record { cols, .. } => if cols.len() > 0 {
                    Some(PathMember::String { val: cols[0].clone(), optional: false })
                } else {
                    None
                },
                _ => None,
            }
        },
        None => None,
    };
    match first {
        Some(m) => {
            members.push(m);
            assert(members_view(members@) =~= path.push(m@));
        },
        None => {
            *bottom = true;
        },
    }
}

/// Goes back: out of the full view of a leaf, or else to the parent.
pub fn go_back_in_data(members: &mut Vec<PathMember>, bottom: &mut bool)
    ensures
        (members_view(final(members)@), *final(bottom)) == back(members_view(old(members)@), *old(bottom)),
{
    if *bottom {
        *bottom = false;
        return;
    }
    if members.len() > 1 {
        let ghost path = members_view(members@);
        members.pop();
        assert(members_view(members@) =~= path.drop_last());
    }
}

/// The path after pressing `down` `k` times, starting from `path`.
pub open spec fn down_n(tree: Data, path: Seq<Member>, k: nat) -> Seq<Member>
    decreases k,
{
    if k == 0 {
        path
    } else {
        sibling_path(tree, down_n(tree, path, (k - 1) as nat), false, Direction::Down)
    }
}

/// The number of children of a node.
pub open spec fn child_count(d: Data) -> nat {
    match d {
        Data::List(vals) => vals.len(),
        Data::Record(cols, _) => cols.len(),
        _ => 0,
    }
}

/// `m` selects one of the children of `parent`, and is no placeholder.
pub open spec fn selects_child(parent: Data, m: Member) -> bool {
    match parent {
        Data::List(vals) => m matches Member::Index { index, optional } && !optional && index < vals.len(),
        Data::Record(cols, _) => m matches Member::Key { key, optional } && !optional && key_index(cols, key) >= 0,
        _ => false,
    }
}

/// No key of a record appears twice.
pub open spec fn unique_keys(d: Data) -> bool {
    match d {
        Data::Record(cols, _) => forall|a: int, b: int| 0 <= a < b < cols.len() ==> cols[a] != cols[b],
        _ => true,
    }
}

/// The position among the children of `parent` that `m` selects.
pub open spec fn position(parent: Data, m: Member) -> int {
    match m {
        Member::Index { index, .. } => index as int,
        Member::Key { key, .. } => match parent {
            Data::Record(cols, _) => key_index(cols, key),
            _ => -1,
        },
    }
}

/// The selector of the child of `parent` at position `j`.
pub open spec fn child_selector(parent: Data, j: int) -> Member {
    match parent {
        Data::Record(cols, _) => Member::Key { key: cols[j], optional: false },
        _ => Member::Index { index: j as nat, optional: false },
    }
}

proof fn lemma_key_index_of_unique(cols: Seq<Seq<char>>, j: int)
    requires
        0 <= j < cols.len(),
        forall|a: int, b: int| 0 <= a < b < cols.len() ==> cols[a] != cols[b],
    ensures
        key_index(cols, cols[j]) == j,
{
    assert(is_first_key(cols, cols[j], j));
    let c = choose|c: int| is_first_key(cols, cols[j], c);
    assert(c == j);
}

proof fn lemma_down_n_position(tree: Data, path: Seq<Member>, parent: Data, k: nat)
    requires
        path.len() > 0,
        resolve(tree, path.drop_last()) == Ok::<Data, nat>(parent),
        selects_child(parent, path.last()),
        unique_keys(parent),
        k <= child_count(parent),
    ensures
        ({
            let i = position(parent, path.last());
            let n = child_count(parent) as int;
            let j = if i + k < n { i + k } else { i + k - n };
            down_n(tree, path, k) == path.update(path.len() - 1, child_selector(parent, j))
        }),
    decreases k,
{
    let i = position(parent, path.last());
    let n = child_count(parent) as int;
    let last = path.len() - 1;
    if k == 0 {
        match parent {
            Data::Record(cols, _) => {
                let key = path.last()->Key_key;
                assert(is_first_key(cols, key, key_index(cols, key)));
            },
            _ => {},
        }
        assert(path.update(last, child_selector(parent, i)) =~= path);
    } else {
        lemma_down_n_position(tree, path, parent, (k - 1) as nat);
        let jp = if i + k - 1 < n { i + k - 1 } else { i + k - 1 - n };
        let q = path.update(last, child_selector(parent, jp));
        assert(q.drop_last() =~= path.drop_last());
        assert(q.last() == child_selector(parent, jp));
        match parent {
            Data::Record(cols, _) => {
                let key = path.last()->Key_key;
                assert(is_first_key(cols, key, key_index(cols, key)));
                lemma_key_index_of_unique(cols, jp);
            },
            _ => {},
        }
        let j = if i + k < n { i + k } else { i + k - n };
        if n > 1 {
            assert(sibling_member(parent, q.last(), Direction::Down) == Some(child_selector(parent, j)));
            assert(q.update(last, child_selector(parent, j)) =~= path.update(last, child_selector(parent, j)));
        } else {
            assert(jp == j);
        }
    }
}

/// Pressing `down` as many times as the parent of the selection has children
/// comes back to the selection: the siblings form a ring.
pub proof fn lemma_down_cycle(tree: Data, path: Seq<Member>, parent: Data)
    requires
        path.len() > 0,
        resolve(tree, path.drop_last()) == Ok::<Data, nat>(parent),
        selects_child(parent, path.last()),
        unique_keys(parent),
    ensures
        down_n(tree, path, child_count(parent)) == path,
{
    lemma_down_n_position(tree, path, parent, child_count(parent));
    lemma_down_n_position(tree, path, parent, 0);
}

/// Outside the bottom state and below the root, `right` then `left` gives
/// back the path it started from, out of the bottom state.
pub proof fn lemma_right_then_left(tree: Data, path: Seq<Member>)
    requires
        path.len() > 0,
    ensures
        back(deeper(tree, path, false).0, deeper(tree, path, false).1) == (path, false),
{
    let (p, b) = deeper(tree, path, false);
    if !b {
        assert(p.drop_last() =~= path);
    }
}

/// After `right`, the bottom flag is set exactly when the node it went into has
/// no child: a scalar or an empty container.
pub proof fn lemma_bottom_after_right(tree: Data, path: Seq<Member>, node: Data)
    requires
        resolve(tree, path) == Ok::<Data, nat>(node),
    ensures
        deeper(tree, path, false).1 == is_leaf(node),
{
}

/// In the bottom state, `left` clears the flag and keeps the path, and `up`
/// and `down` change nothing.
pub proof fn lemma_keys_at_bottom(tree: Data, path: Seq<Member>, direction: Direction)
    ensures
        back(path, true) == (path, false),
        sibling_path(tree, path, true, direction) == path,
{
}

} // verus!
