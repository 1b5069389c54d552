//! The value tree being explored, the cell-paths that address its nodes, and
//! the two operations on a tree through a cell-path: following it and replacing
//! the node it points at.
use vstd::prelude::*;

verus! {

/// One selector of a cell-path.
///
/// `optional` marks a selector chosen while its container was empty: there is
/// no node behind it yet.
#[derive(Debug, Clone, PartialEq)]
pub enum PathMember {
    Int { val: usize, optional: bool },
    String { val: String, optional: bool },
}

/// An address in the data: the selectors to follow from the root, in order.
#[derive(Debug, Clone, PartialEq)]
pub struct CellPath {
    pub members: Vec<PathMember>,
}

/// A node of the data being explored.
///
/// A float is carried by its bit pattern: the explorer never computes with it.
#[derive(Debug, PartialEq)]
pub enum Value {
    Nothing,
    Bool { val: bool },
    Int { val: i64 },
    Float { bits: u64 },
    String { val: String },
    List { vals: Vec<Value> },
    Record { cols: Vec<String>, vals: Vec<Value> },
    CellPath { members: Vec<PathMember> },
}

/// The mathematical form of a [`PathMember`].
pub ghost enum Member {
    Index { index: nat, optional: bool },
    Key { key: Seq<char>, optional: bool },
}

/// The mathematical form of a [`Value`].
pub ghost enum Data {
    Nothing,
    Bool(bool),
    Int(int),
    Float(u64),
    Text(Seq<char>),
    List(Seq<Data>),
    Record(Seq<Seq<char>>, Seq<Data>),
    Path(Seq<Member>),
}

impl View for PathMember {
    type V = Member;

    open spec fn view(&self) -> Member {
        match self {
            PathMember::Int { val, optional } => Member::Index { index: *val as nat, optional: *optional },
            PathMember::String { val, optional } => Member::Key { key: val@, optional: *optional },
        }
    }
}

pub open spec fn members_view(m: Seq<PathMember>) -> Seq<Member> {
    m.map_values(|p: PathMember| p@)
}

/// The mathematical form of a value, node for node.
pub open spec fn data_of(v: Value) -> Data
    decreases v,
{
    match v {
        Value::Nothing => Data::Nothing,
        Value::Bool { val } => Data::Bool(val),
        Value::Int { val } => Data::Int(val as int),
        Value::Float { bits } => Data::Float(bits),
        Value::String { val } => Data::Text(val@),
        Value::List { vals } => Data::List(
            Seq::new(vals@.len(), |i: int| if 0 <= i < vals@.len() { data_of(vals@[i]) } else { Data::Nothing }),
        ),
        Value::Record { cols, vals } => Data::Record(
            names(cols@),
            Seq::new(vals@.len(), |i: int| if 0 <= i < vals@.len() { data_of(vals@[i]) } else { Data::Nothing }),
        ),
        Value::CellPath { members } => Data::Path(members_view(members@)),
    }
}

impl View for Value {
    type V = Data;

    open spec fn view(&self) -> Data {
        data_of(*self)
    }
}

pub open spec fn is_optional(m: Member) -> bool {
    match m {
        Member::Index { optional, .. } => optional,
        Member::Key { optional, .. } => optional,
    }
}

/// `i` is the first position of `key` among `cols`.
pub open spec fn is_first_key(cols: Seq<Seq<char>>, key: Seq<char>, i: int) -> bool {
    &&& 0 <= i < cols.len()
    &&& cols[i] == key
    &&& forall|j: int| 0 <= j < i ==> cols[j] != key
}

/// The first position of `key` among `cols`, or -1 when it is not there.
pub open spec fn key_index(cols: Seq<Seq<char>>, key: Seq<char>) -> int {
    if exists|i: int| is_first_key(cols, key, i) {
        choose|i: int| is_first_key(cols, key, i)
    } else {
        -1
    }
}

/// The child of `d` that `m` selects, if there is one.
pub open spec fn child(d: Data, m: Member) -> Option<Data> {
    match m {
        Member::Index { index, .. } => match d {
            Data::List(vals) => if index < vals.len() {
                Some(vals[index as int])
            } else {
                None
            },
            _ => None,
        },
        Member::Key { key, .. } => match d {
            Data::Record(cols, vals) => {
                let k = key_index(cols, key);
                if 0 <= k < vals.len() {
                    Some(vals[k])
                } else {
                    None
                }
            },
            _ => None,
        },
    }
}

/// Follows `path` from its member `i` on, starting at `d`: the node reached, or
/// the position of the member that selects nothing. An optional member that
/// selects nothing ends the walk with `Nothing`.
pub open spec fn resolve_from(d: Data, path: Seq<Member>, i: nat) -> Result<Data, nat>
    decreases path.len() - i,
{
    if i >= path.len() {
        Ok(d)
    } else {
        match child(d, path[i as int]) {
            Some(c) => resolve_from(c, path, i + 1),
            None => if is_optional(path[i as int]) {
                Ok(Data::Nothing)
            } else {
                Err(i)
            },
        }
    }
}

/// Follows the whole of `path` from the root `d`.
pub open spec fn resolve(d: Data, path: Seq<Member>) -> Result<Data, nat> {
    resolve_from(d, path, 0)
}

/// `d` with the child that `m` selects set to `c`.
pub open spec fn with_child(d: Data, m: Member, c: Data) -> Data {
    match m {
        Member::Index { index, .. } => match d {
            Data::List(vals) => Data::List(vals.update(index as int, c)),
            _ => d,
        },
        Member::Key { key, .. } => match d {
            Data::Record(cols, vals) => Data::Record(cols, vals.update(key_index(cols, key), c)),
            _ => d,
        },
    }
}

/// `d` with the node that `path` selects from its member `i` on replaced by
/// `new`; where the path selects nothing, `d` unchanged.
pub open spec fn replaced_from(d: Data, path: Seq<Member>, i: nat, new: Data) -> Data
    decreases path.len() - i,
{
    if i >= path.len() {
        new
    } else {
        match child(d, path[i as int]) {
            Some(c) => with_child(d, path[i as int], replaced_from(c, path, i + 1, new)),
            None => d,
        }
    }
}

pub open spec fn replaced(d: Data, path: Seq<Member>, new: Data) -> Data {
    replaced_from(d, path, 0, new)
}

/// Which kind of selector failed to select a node.
#[derive(Debug, Clone, Copy, PartialEq, Eq, Structural)]
pub enum ResolutionErrorKind {
    IndexOutOfRange,
    KeyNotFound,
}

/// A cell-path that selects nothing: the kind and position of its first
/// member that fails.
#[derive(Debug, Clone, Copy, PartialEq, Eq, Structural)]
pub struct ResolutionError {
    pub kind: ResolutionErrorKind,
    pub position: usize,
}

pub open spec fn failure_kind(m: Member) -> ResolutionErrorKind {
    match m {
        Member::Index { .. } => ResolutionErrorKind::IndexOutOfRange,
        Member::Key { .. } => ResolutionErrorKind::KeyNotFound,
    }
}

/// The first position of `key` among `cols`, if it is there.
pub fn find_key(cols: &Vec<String>, key: &String) -> (r: Option<usize>)
    ensures
        r is Some ==> is_first_key(names(cols@), key@, r->0 as int),
        r is Some <==> key_index(names(cols@), key@) >= 0,
        r is Some ==> key_index(names(cols@), key@) == r->0,
{
    let ghost keys = names(cols@);
    let mut i: usize = 0;
    while i < cols.len()
        invariant
            i <= cols.len(),
            keys == names(cols@),
            forall|j: int| 0 <= j < i ==> keys[j] != key@,
        decreases cols.len() - i,
    {
        if cols[i] == *key {
            proof {
                assert(is_first_key(keys, key@, i as int));
                let c = choose|c: int| is_first_key(keys, key@, c);
                assert(c == i);
            }
            return Some(i);
        }
        i = i + 1;
    }
    proof {
        assert forall|c: int| !is_first_key(keys, key@, c) by {
            if 0 <= c < keys.len() {
                assert(keys[c] != key@);
            }
        }
    }
    None
}

impl PathMember {
    pub fn copy(&self) -> (r: PathMember)
        ensures
            r@ == self@,
    {
        match self {
            PathMember::Int { val, optional } => PathMember::Int { val: *val, optional: *optional },
            PathMember::String { val, optional } => PathMember::String {
                val: val.clone(),
                optional: *optional,
            },
        }
    }
}

pub fn copy_members(m: &Vec<PathMember>) -> (r: Vec<PathMember>)
    ensures
        members_view(r@) == members_view(m@),
{
    let mut out: Vec<PathMember> = Vec::new();
    let mut i: usize = 0;
    while i < m.len()
        invariant
            i <= m.len(),
            out.len() == i,
            forall|j: int| 0 <= j < i ==> out@[j]@ == m@[j]@,
        decreases m.len() - i,
    {
        out.push(m[i].copy());
        i = i + 1;
    }
    assert(members_view(out@) =~= members_view(m@));
    out
}

/// The keys of a record, as sequences of characters.
pub open spec fn names(cols: Seq<String>) -> Seq<Seq<char>> {
    cols.map_values(|c: String| c@)
}

fn copy_strings(s: &Vec<String>) -> (r: Vec<String>)
    ensures
        names(r@) == names(s@),
{
    let mut out: Vec<String> = Vec::new();
    let mut i: usize = 0;
    while i < s.len()
        invariant
            i <= s.len(),
            out.len() == i,
            forall|j: int| 0 <= j < i ==> out@[j]@ == s@[j]@,
        decreases s.len() - i,
    {
        out.push(s[i].clone());
        i = i + 1;
    }
    assert(names(out@) =~= names(s@));
    out
}

/// The views of a sequence of values.
pub open spec fn views(vals: Seq<Value>) -> Seq<Data> {
    Seq::new(vals.len(), |i: int| vals[i]@)
}

impl Value {
    /// A copy of this value, node for node.
    pub fn copy(&self) -> (r: Value)
        ensures
            r@ == self@,
        decreases self,
    {
        match self {
            Value::Nothing => Value::Nothing,
            Value::Bool { val } => Value::Bool { val: *val },
            Value::Int { val } => Value::Int { val: *val },
            Value::Float { bits } => Value::Float { bits: *bits },
            Value::String { val } => {
                Value::String { val: val.clone() }
            },
            Value::List { vals } => {
                let out = copy_values(vals);
                let r = Value::List { vals: out };
                assert(r@->List_0 =~= self@->List_0);
                r
            },
            Value::Record { cols, vals } => {
                let out = copy_values(vals);
                let r = Value::Record { cols: copy_strings(cols), vals: out };
                assert(r@->Record_1 =~= self@->Record_1);
                r
            },
            Value::CellPath { members } => {
                Value::CellPath { members: copy_members(members) }
            },
        }
    }
}

/// The view of a list or a record, with its children's views as `views`
/// gives them.
pub proof fn lemma_value_view(v: Value)
    ensures
        match v {
            Value::List { vals } => v@ == Data::List(views(vals@)),
            Value::Record { cols, vals } => v@ == Data::Record(names(cols@), views(vals@)),
            _ => true,
        },
{
    reveal_with_fuel(data_of, 2);
    match v {
        Value::List { vals } => {
            assert(v@->List_0 =~= views(vals@));
        },
        Value::Record { cols, vals } => {
            assert(v@->Record_1 =~= views(vals@));
        },
        _ => {},
    }
}

fn copy_values(vals: &Vec<Value>) -> (r: Vec<Value>)
    ensures
        r.len() == vals.len(),
        forall|j: int| 0 <= j < vals.len() ==> r@[j]@ == vals@[j]@,
    decreases vals,
{
    let mut out: Vec<Value> = Vec::new();
    let mut i: usize = 0;
    while i < vals.len()
        invariant
            i <= vals.len(),
            out.len() == i,
            forall|j: int| 0 <= j < i ==> out@[j]@ == vals@[j]@,
        decreases vals.len() - i,
    {
        proof { assert(decreases_to!(vals => vals@[i as int])); }
        out.push(vals[i].copy());
        i = i + 1;
    }
    out
}

/// The child of `v` that `m` selects, if there is one.
pub(crate) fn child_of<'a>(v: &'a Value, m: &PathMember) -> (r: Option<&'a Value>)
    ensures
        r is Some <==> child(v@, m@) is Some,
        r is Some ==> child(v@, m@) == Some(r->0@),
{
    proof { lemma_value_view(*v); }
    match m {
        PathMember::Int { val, .. } => match v {
            Value::List { vals } => {
                if *val < vals.len() {
                    Some(&vals[*val])
                } else {
                    None
                }
            },
            _ => None,
        },
        PathMember::String { val, .. } => match v {
            Value::Record { cols, vals } => {
                match find_key(cols, val) {
                    Some(k) => if k < vals.len() {
                        Some(&vals[k])
                    } else {
                        None
                    },
                    None => None,
                }
            },
            _ => None,
        },
    }
}

/// Follows `members` from the root `value` and returns a copy of the node
/// reached.
pub fn follow_cell_path(value: &Value, members: &Vec<PathMember>) -> (r: Result<Value, ResolutionError>)
    ensures
        match r {
            Ok(v) => resolve(value@, members_view(members@)) == Ok::<Data, nat>(v@),
            Err(e) => {
                &&& resolve(value@, members_view(members@)) == Err::<Data, nat>(e.position as nat)
                &&& e.position < members.len()
                &&& e.kind == failure_kind(members@[e.position as int]@)
            },
        },
{
    let ghost path = members_view(members@);
    let mut cur: &Value = value;
    let mut i: usize = 0;
    while i < members.len()
        invariant
            i <= members.len(),
            path == members_view(members@),
            resolve(value@, path) == resolve_from(cur@, path, i as nat),
        decreases members.len() - i,
    {
        assert(path[i as int] == members@[i as int]@);
        match child_of(cur, &members[i]) {
            Some(c) => {
                cur = c;
            },
            None => {
                let optional = match &members[i] {
                    PathMember::Int { optional, .. } => *optional,
                    PathMember::String { optional, .. } => *optional,
                };
                if optional {
                    return Ok(Value::Nothing);
                }
                let kind = match &members[i] {
                    PathMember::Int { .. } => ResolutionErrorKind::IndexOutOfRange,
                    PathMember::String { .. } => ResolutionErrorKind::KeyNotFound,
                };
                return Err(ResolutionError { kind, position: i });
            },
        }
        i = i + 1;
    }
    Ok(cur.copy())
}

/// `value` with the node that `members` selects, from member `i` on, replaced
/// by `new`.
fn replace_from(value: &Value, members: &Vec<PathMember>, i: usize, new: &Value) -> (r: Value)
    requires
        i <= members.len(),
    ensures
        r@ == replaced_from(value@, members_view(members@), i as nat, new@),
    decreases members.len() - i,
{
    let ghost path = members_view(members@);
    if i >= members.len() {
        return new.copy();
    }
    assert(path[i as int] == members@[i as int]@);
    proof { lemma_value_view(*value); }
    match &members[i] {
        PathMember::Int { val, .. } => match value {
            Value::List { vals } => {
                if *val < vals.len() {
                    let sub = replace_from(&vals[*val], members, i + 1, new);
                    let mut out = copy_values(vals);
                    out.set(*val, sub);
                    let r = Value::List { vals: out };
                    proof { lemma_value_view(r); }
                    assert(views(out@) =~= views(vals@).update(*val as int, sub@));
                    return r;
                }
            },
            _ => {},
        },
        PathMember::String { val, .. } => match value {
            Value::Record { cols, vals } => {
                match find_key(cols, val) {
                    Some(k) => if k < vals.len() {
                        let sub = replace_from(&vals[k], members, i + 1, new);
                        let mut out = copy_values(vals);
                        out.set(k, sub);
                        let r = Value::Record { cols: copy_strings(cols), vals: out };
                        proof { lemma_value_view(r); }
                        assert(views(out@) =~= views(vals@).update(k as int, sub@));
                        return r;
                    },
                    None => {},
                }
            },
            _ => {},
        },
    }
    value.copy()
}

/// A new tree: `value` with the node that `members` selects replaced by `new`.
/// Where `members` selects no node, the tree is returned unchanged.
pub fn mutate_value_cell(value: &Value, members: &Vec<PathMember>, new: &Value) -> (r: Value)
    ensures
        r@ == replaced(value@, members_view(members@), new@),
{
    replace_from(value, members, 0, new)
}

/// Every member of `path`, from the `i`-th on, selects an existing child: no
/// optional member stands in for an absent one.
pub open spec fn reaches_from(d: Data, path: Seq<Member>, i: nat) -> bool
    decreases path.len() - i,
{
    if i >= path.len() {
        true
    } else {
        match child(d, path[i as int]) {
            Some(c) => reaches_from(c, path, i + 1),
            None => false,
        }
    }
}

proof fn lemma_resolve_replaced_from(d: Data, path: Seq<Member>, i: nat, new: Data)
    requires
        reaches_from(d, path, i),
    ensures
        resolve_from(replaced_from(d, path, i, new), path, i) == Ok::<Data, nat>(new),
    decreases path.len() - i,
{
    if i < path.len() {
        let c = child(d, path[i as int])->0;
        lemma_resolve_replaced_from(c, path, i + 1, new);
        let x = replaced_from(c, path, i + 1, new);
        assert(child(with_child(d, path[i as int], x), path[i as int]) == Some(x));
    }
}

/// Where every member of `path` selects an existing child, the tree that
/// `mutate_value_cell` makes holds the new value at `path`.
pub proof fn lemma_resolve_replaced(d: Data, path: Seq<Member>, new: Data)
    requires
        reaches_from(d, path, 0),
    ensures
        resolve(replaced(d, path, new), path) == Ok::<Data, nat>(new),
{
    lemma_resolve_replaced_from(d, path, 0, new);
}

/// Every record of the tree has as many values as keys.
pub open spec fn wf_data(d: Data) -> bool
    decreases d,
{
    match d {
        Data::List(vals) => forall|i: int| 0 <= i < vals.len() ==> wf_data(#[trigger] vals[i]),
        Data::Record(cols, vals) => cols.len() == vals.len() && forall|i: int|
            0 <= i < vals.len() ==> wf_data(#[trigger] vals[i]),
        _ => true,
    }
}

/// A key found at `s` has a first position, at or before `s`.
pub proof fn lemma_key_index_found(cols: Seq<Seq<char>>, key: Seq<char>, s: int)
    requires
        0 <= s < cols.len(),
        cols[s] == key,
    ensures
        0 <= key_index(cols, key) <= s,
    decreases s,
{
    if exists|j: int| 0 <= j < s && cols[j] == key {
        let j = choose|j: int| 0 <= j < s && cols[j] == key;
        lemma_key_index_found(cols, key, j);
    } else {
        assert(is_first_key(cols, key, s));
        let c = choose|c: int| is_first_key(cols, key, c);
        assert(c <= s);
    }
}

/// What a path reaches in a well-formed tree is well formed.
pub proof fn lemma_resolve_from_wf(d: Data, path: Seq<Member>, i: nat, x: Data)
    requires
        wf_data(d),
        resolve_from(d, path, i) == Ok::<Data, nat>(x),
    ensures
        wf_data(x),
    decreases path.len() - i,
{
    if i < path.len() {
        match child(d, path[i as int]) {
            Some(c) => {
                lemma_resolve_from_wf(c, path, i + 1, x);
            },
            None => {},
        }
    }
}

/// Appending a member that selects an existing child of what a path reaches
/// gives a path that reaches that child.
pub proof fn lemma_resolve_push(d: Data, path: Seq<Member>, i: nat, x: Data, m: Member, c: Data)
    requires
        i <= path.len(),
        resolve_from(d, path, i) == Ok::<Data, nat>(x),
        child(x, m) == Some(c),
    ensures
        resolve_from(d, path.push(m), i) == Ok::<Data, nat>(c),
    decreases path.len() - i,
{
    let q = path.push(m);
    if i == path.len() {
        assert(q[i as int] == m);
        assert(resolve_from(c, q, i + 1) == Ok::<Data, nat>(c));
    } else {
        assert(q[i as int] == path[i as int]);
        match child(d, path[i as int]) {
            Some(c2) => {
                lemma_resolve_push(c2, path, i + 1, x, m, c);
            },
            None => {},
        }
    }
}

/// A prefix of a path that resolves resolves too.
pub proof fn lemma_resolve_prefix(d: Data, path: Seq<Member>, i: nat, k: nat)
    requires
        i <= k <= path.len(),
        resolve_from(d, path, i) is Ok,
    ensures
        resolve_from(d, path.subrange(0, k as int), i) is Ok,
    decreases path.len() - i,
{
    let q = path.subrange(0, k as int);
    if i < k {
        assert(q[i as int] == path[i as int]);
        match child(d, path[i as int]) {
            Some(c) => {
                lemma_resolve_prefix(c, path, i + 1, k);
            },
            None => {},
        }
    }
}

} // verus!
