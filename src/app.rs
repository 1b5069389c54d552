//! The state of the explorer and the transition that a key press makes: the
//! modes, the table from mode and key to action, and what each action does to
//! the selection, the editor and the data.
use vstd::prelude::*;

use crate::config::{Config, Key, KeyBindings};
use crate::edit::{effect, Editor, EditorOutcome, Effect};
use crate::navigation::{
    back, deeper, first_child, go_back_in_data, go_deeper_in_data, go_up_or_down_in_data,
    sibling_member, sibling_path, step, Direction,
};
use crate::value::{
    child, copy_members, failure_kind, follow_cell_path, is_first_key, key_index,
    lemma_key_index_found, lemma_resolve_from_wf, lemma_resolve_prefix, lemma_resolve_push,
    members_view, resolve, wf_data, CellPath, Data, Member, PathMember, ResolutionError, Value,
};

verus! {

/// The mode in which the explorer is.
#[derive(Debug, Clone, Copy, PartialEq, Eq, Structural)]
pub enum Mode {
    /// moving around in the data
    Normal,
    /// editing a string cell
    Insert,
    /// choosing what to peek out of the explorer
    Peeking,
    /// viewing in full a node that has no child to go into
    Bottom,
}

impl Default for Mode {
    fn default() -> (r: Mode)
        ensures
            r == Mode::Normal,
    {
        Mode::Normal
    }
}

pub open spec fn mode_name(mode: Mode) -> Seq<char> {
    match mode {
        Mode::Normal => "NORMAL"@,
        Mode::Insert => "INSERT"@,
        Mode::Peeking => "PEEKING"@,
        Mode::Bottom => "BOTTOM"@,
    }
}

impl Mode {
    /// The name of the mode, as the status bar shows it.
    pub fn name(&self) -> (r: &'static str)
        ensures
            r@ == mode_name(*self),
    {
        match self {
            Mode::Normal => "NORMAL",
            Mode::Insert => "INSERT",
            Mode::Peeking => "PEEKING",
            Mode::Bottom => "BOTTOM",
        }
    }
}

/// What a key press asks for, given the mode it comes in.
#[derive(Debug, Clone, Copy, PartialEq, Eq, Structural)]
pub enum Action {
    Quit,
    EnterEditor,
    ToNormal,
    Move(Direction),
    Deeper,
    Back,
    LeaveBottom,
    Peek,
    PeekLeaf,
    PeekAll,
    PeekView,
    PeekUnder,
    PeekCellPath,
    EditorKey,
    Ignore,
}

/// The action of a key that no binding of its mode claims: in PEEKING mode
/// the peeking keys, in INSERT mode the editor's keys.
pub open spec fn fallback_action(key: Key, kb: KeyBindings, mode: Mode) -> Action {
    if mode == Mode::Peeking {
        if key == kb.normal {
            Action::ToNormal
        } else if key == kb.peeking.all {
            Action::PeekAll
        } else if key == kb.peeking.view {
            Action::PeekView
        } else if key == kb.peeking.under {
            Action::PeekUnder
        } else if key == kb.peeking.cell_path {
            Action::PeekCellPath
        } else {
            Action::Ignore
        }
    } else if mode == Mode::Insert {
        Action::EditorKey
    } else {
        Action::Ignore
    }
}

/// The action of `key` in `mode`. The bindings are tried in a fixed order and
/// the first one equal to the key decides; where it means nothing in that mode,
/// the fallback decides.
pub open spec fn action(key: Key, kb: KeyBindings, mode: Mode) -> Action {
    let fallback = fallback_action(key, kb, mode);
    if key == kb.quit {
        if mode != Mode::Insert { Action::Quit } else { fallback }
    } else if key == kb.insert {
        if mode == Mode::Normal { Action::EnterEditor } else { fallback }
    } else if key == kb.normal {
        if mode == Mode::Insert { Action::ToNormal } else { fallback }
    } else if key == kb.navigation.down {
        if mode == Mode::Normal { Action::Move(Direction::Down) } else { fallback }
    } else if key == kb.navigation.up {
        if mode == Mode::Normal { Action::Move(Direction::Up) } else { fallback }
    } else if key == kb.navigation.right {
        if mode == Mode::Normal { Action::Deeper } else { fallback }
    } else if key == kb.navigation.left {
        if mode == Mode::Normal {
            Action::Back
        } else if mode == Mode::Bottom {
            Action::LeaveBottom
        } else {
            fallback
        }
    } else if key == kb.peek {
        if mode == Mode::Normal {
            Action::Peek
        } else if mode == Mode::Bottom {
            Action::PeekLeaf
        } else {
            fallback
        }
    } else {
        fallback
    }
}

fn fallback_of(key: &Key, kb: &KeyBindings, mode: Mode) -> (r: Action)
    ensures
        r == fallback_action(*key, *kb, mode),
{
    if mode == Mode::Peeking {
        if *key == kb.normal {
            Action::ToNormal
        } else if *key == kb.peeking.all {
            Action::PeekAll
        } else if *key == kb.peeking.view {
            Action::PeekView
        } else if *key == kb.peeking.under {
            Action::PeekUnder
        } else if *key == kb.peeking.cell_path {
            Action::PeekCellPath
        } else {
            Action::Ignore
        }
    } else if mode == Mode::Insert {
        Action::EditorKey
    } else {
        Action::Ignore
    }
}

/// The action of `key` in `mode`, looked up in the bindings.
pub fn dispatch(key: &Key, kb: &KeyBindings, mode: Mode) -> (r: Action)
    ensures
        r == action(*key, *kb, mode),
{
    let fallback = fallback_of(key, kb, mode);
    if *key == kb.quit {
        if mode != Mode::Insert { Action::Quit } else { fallback }
    } else if *key == kb.insert {
        if mode == Mode::Normal { Action::EnterEditor } else { fallback }
    } else if *key == kb.normal {
        if mode == Mode::Insert { Action::ToNormal } else { fallback }
    } else if *key == kb.navigation.down {
        if mode == Mode::Normal { Action::Move(Direction::Down) } else { fallback }
    } else if *key == kb.navigation.up {
        if mode == Mode::Normal { Action::Move(Direction::Up) } else { fallback }
    } else if *key == kb.navigation.right {
        if mode == Mode::Normal { Action::Deeper } else { fallback }
    } else if *key == kb.navigation.left {
        if mode == Mode::Normal {
            Action::Back
        } else if mode == Mode::Bottom {
            Action::LeaveBottom
        } else {
            fallback
        }
    } else if *key == kb.peek {
        if mode == Mode::Normal {
            Action::Peek
        } else if mode == Mode::Bottom {
            Action::PeekLeaf
        } else {
            fallback
        }
    } else {
        fallback
    }
}

/// The complete state of the explorer.
pub struct App {
    /// the selection in the data
    pub cell_path: CellPath,
    /// the current mode
    pub mode: Mode,
    /// the editor of string cells, meaningful in INSERT mode
    pub editor: Editor,
}

/// The mathematical form of the explorer's state.
pub ghost struct Machine {
    pub path: Seq<Member>,
    pub mode: Mode,
    pub buffer: Seq<char>,
    pub cursor: nat,
}

/// The result of a transition, as data: `Failed` gives the position of the
/// member of the cell-path that selects nothing.
pub ghost enum Outcome {
    Quit,
    Continue,
    Return(Data),
    Edit(Data),
    Error(Seq<char>),
    Failed(nat),
}

/// The name of the type of a node, as an error message gives it.
pub open spec fn kind_name(d: Data) -> Seq<char> {
    match d {
        Data::Nothing => "nothing"@,
        Data::Bool(_) => "bool"@,
        Data::Int(_) => "int"@,
        Data::Float(_) => "float"@,
        Data::Text(_) => "string"@,
        Data::List(_) => "list"@,
        Data::Record(_, _) => "record"@,
        Data::Path(_) => "cell-path"@,
    }
}

pub open spec fn edit_error(d: Data) -> Seq<char> {
    "can only edit string cells, found "@ + kind_name(d)
}

/// The outcome of following `path`: the node, or the failure.
pub open spec fn peeked(tree: Data, path: Seq<Member>) -> Outcome {
    match resolve(tree, path) {
        Ok(d) => Outcome::Return(d),
        Err(p) => Outcome::Failed(p),
    }
}

pub open spec fn with_path(m: Machine, path: Seq<Member>, mode: Mode) -> Machine {
    Machine { path, mode, ..m }
}

pub open spec fn with_mode(m: Machine, mode: Mode) -> Machine {
    Machine { mode, ..m }
}

/// What a key press does: the outcome, and the state after it.
pub open spec fn transition(key: Key, kb: KeyBindings, m: Machine, tree: Data) -> (Outcome, Machine) {
    match action(key, kb, m.mode) {
        Action::Quit => (Outcome::Quit, m),
        Action::EnterEditor => match resolve(tree, m.path) {
            Ok(Data::Text(s)) => if s.len() < usize::MAX {
                (Outcome::Continue, Machine { mode: Mode::Insert, buffer: s, cursor: s.len(), ..m })
            } else {
                (Outcome::Continue, Machine { mode: Mode::Insert, buffer: Seq::empty(), cursor: 0, ..m })
            },
            Ok(d) => (Outcome::Error(edit_error(d)), m),
            Err(p) => (Outcome::Failed(p), m),
        },
        Action::ToNormal => (Outcome::Continue, with_mode(m, Mode::Normal)),
        Action::Move(direction) => (Outcome::Continue, with_path(m, sibling_path(tree, m.path, false, direction), m.mode)),
        Action::Deeper => {
            let (path, bottom) = deeper(tree, m.path, false);
            (Outcome::Continue, with_path(m, path, if bottom { Mode::Bottom } else { Mode::Normal }))
        },
        Action::Back => (Outcome::Continue, with_path(m, back(m.path, false).0, Mode::Normal)),
        Action::LeaveBottom => (Outcome::Continue, with_mode(m, Mode::Normal)),
        Action::Peek => (Outcome::Continue, with_mode(m, Mode::Peeking)),
        Action::PeekLeaf => (peeked(tree, m.path), m),
        Action::PeekAll => (Outcome::Return(tree), m),
        Action::PeekView => {
            let path = if m.path.len() > 0 { m.path.drop_last() } else { m.path };
            (peeked(tree, path), with_path(m, path, m.mode))
        },
        Action::PeekUnder => (peeked(tree, m.path), m),
        Action::PeekCellPath => (Outcome::Return(Data::Path(m.path)), m),
        Action::EditorKey => match effect(m.buffer, m.cursor, key) {
            Effect::Unhandled => (Outcome::Continue, m),
            Effect::Edit(buffer, cursor) => (Outcome::Continue, Machine { buffer, cursor, ..m }),
            Effect::Cancel => (Outcome::Continue, with_mode(m, Mode::Normal)),
            Effect::Commit => (Outcome::Edit(Data::Text(m.buffer)), with_mode(m, Mode::Normal)),
        },
        Action::Ignore => (Outcome::Continue, m),
    }
}

/// The result of a transition.
#[derive(Debug, PartialEq)]
pub enum TransitionResult {
    /// leave the explorer with nothing
    Quit,
    /// go on
    Continue,
    /// leave the explorer with this value
    Return(Value),
    /// put this value in place of the selected cell
    Edit(Value),
    /// show this message
    Error(String),
}

impl TransitionResult {
    /// The explorer ends here.
    pub fn is_quit(&self) -> (r: bool)
        ensures
            r == (self is Quit || self is Return),
    {
        match self {
            TransitionResult::Quit => true,
            TransitionResult::Return(_) => true,
            _ => false,
        }
    }
}

pub open spec fn outcome_of(r: Result<TransitionResult, ResolutionError>) -> Outcome {
    match r {
        Ok(TransitionResult::Quit) => Outcome::Quit,
        Ok(TransitionResult::Continue) => Outcome::Continue,
        Ok(TransitionResult::Return(v)) => Outcome::Return(v@),
        Ok(TransitionResult::Edit(v)) => Outcome::Edit(v@),
        Ok(TransitionResult::Error(s)) => Outcome::Error(s@),
        Err(e) => Outcome::Failed(e.position as nat),
    }
}

/// The name of the type of a node.
fn kind_name_of(value: &Value) -> (r: &'static str)
    ensures
        r@ == kind_name(value@),
{
    match value {
        Value::Nothing => "nothing",
        Value::Bool { .. } => "bool",
        Value::Int { .. } => "int",
        Value::Float { .. } => "float",
        Value::String { .. } => "string",
        Value::List { .. } => "list",
        Value::Record { .. } => "record",
        Value::CellPath { .. } => "cell-path",
    }
}

impl Default for App {
    fn default() -> (r: App)
        ensures
            r.wf(),
            r.machine() == (Machine { path: Seq::empty(), mode: Mode::Normal, buffer: Seq::empty(), cursor: 0 }),
    {
        let r = App { cell_path: CellPath { members: Vec::new() }, mode: Mode::Normal, editor: Editor::new() };
        assert(members_view(r.cell_path.members@) =~= Seq::empty());
        r
    }
}

impl App {
    pub open spec fn wf(&self) -> bool {
        self.editor.wf()
    }

    pub open spec fn machine(&self) -> Machine {
        Machine {
            path: members_view(self.cell_path.members@),
            mode: self.mode,
            buffer: self.editor.buffer@,
            cursor: self.editor.cursor as nat,
        }
    }

    /// The explorer at the start: the first child of the data is selected,
    /// with an optional selector where the data is an empty container; nothing
    /// is selected where the data is a scalar.
    pub fn from_value(value: &Value) -> (r: App)
        ensures
            r.wf(),
            r.mode == Mode::Normal,
            r.machine().path == match value@ {
                Data::List(vals) => seq![Member::Index { index: 0, optional: vals.len() == 0 }],
                Data::Record(cols, _) => seq![Member::Key {
                    key: if cols.len() > 0 { cols[0] } else { Seq::empty() },
                    optional: cols.len() == 0,
                }],
                _ => Seq::<Member>::empty(),
            },
    {
        let mut app = App::default();
        proof { crate::value::lemma_value_view(*value); }
        match value {
            Value::List { vals } => {
                app.cell_path.members.push(PathMember::Int { val: 0, optional: vals.len() == 0 });
            },
            Value::Record { cols, .. } => {
                let key = if cols.len() > 0 { cols[0].clone() } else { String::new() };
                app.cell_path.members.push(PathMember::String { val: key, optional: cols.len() == 0 });
            },
            _ => {},
        }
        assert(members_view(app.cell_path.members@) =~= match value@ {
            Data::List(vals) => seq![Member::Index { index: 0, optional: vals.len() == 0 }],
            Data::Record(cols, _) => seq![Member::Key {
                key: if cols.len() > 0 { cols[0] } else { Seq::empty() },
                optional: cols.len() == 0,
            }],
            _ => Seq::<Member>::empty(),
        });
        app
    }

    /// The selected node is viewed in full.
    pub fn is_at_bottom(&self) -> (r: bool)
        ensures
            r == (self.mode == Mode::Bottom),
    {
        self.mode == Mode::Bottom
    }

    pub fn hit_bottom(&mut self)
        ensures
            final(self).machine() == with_mode(old(self).machine(), Mode::Bottom),
            final(self).editor.width == old(self).editor.width,
            final(self).wf() == old(self).wf(),
    {
        self.mode = Mode::Bottom;
    }

    fn enter_editor(&mut self, value: &Value)
        ensures
            final(self).mode == Mode::Insert,
            final(self).cell_path == old(self).cell_path,
            final(self).wf(),
            final(self).editor.width == 0,
            value@ matches Data::Text(s) ==> (s.len() < usize::MAX ==> final(self).editor.buffer@ == s
                && final(self).editor.cursor == s.len()),
            value@ matches Data::Text(s) ==> (s.len() >= usize::MAX ==> final(self).editor.buffer@ == Seq::<char>::empty()
                && final(self).editor.cursor == 0),
    {
        self.mode = Mode::Insert;
        self.editor = Editor::from_value(value);
    }
}

/// Applies one key press to the explorer: looks up its action in the bindings
/// and carries it out on the selection, the mode and the editor.
pub fn transition_state(key: &Key, config: &Config, app: &mut App, value: &Value) -> (r: Result<TransitionResult, ResolutionError>)
    requires
        old(app).wf(),
    ensures
        final(app).wf(),
        (outcome_of(r), final(app).machine()) == transition(*key, config.keybindings, old(app).machine(), value@),
        r matches Err(e) ==> e.position < final(app).cell_path.members.len()
            && e.kind == failure_kind(final(app).machine().path[e.position as int]),
{
    match dispatch(key, &config.keybindings, app.mode) {
        Action::Quit => Ok(TransitionResult::Quit),
        Action::EnterEditor => match follow_cell_path(value, &app.cell_path.members) {
            Ok(node) => match &node {
                Value::String { .. } => {
                    app.enter_editor(&node);
                    Ok(TransitionResult::Continue)
                },
                _ => {
                    let mut message = "can only edit string cells, found ".to_owned();
                    message.append(kind_name_of(&node));
                    Ok(TransitionResult::Error(message))
                },
            },
            Err(e) => Err(e),
        },
        Action::ToNormal => {
            app.mode = Mode::Normal;
            Ok(TransitionResult::Continue)
        },
        Action::Move(direction) => {
            go_up_or_down_in_data(&mut app.cell_path.members, false, value, direction);
            Ok(TransitionResult::Continue)
        },
        Action::Deeper => {
            let mut bottom = false;
            go_deeper_in_data(&mut app.cell_path.members, &mut bottom, value);
            if bottom {
                app.hit_bottom();
            }
            Ok(TransitionResult::Continue)
        },
        Action::Back => {
            let mut bottom = false;
            go_back_in_data(&mut app.cell_path.members, &mut bottom);
            app.mode = Mode::Normal;
            Ok(TransitionResult::Continue)
        },
        Action::LeaveBottom => {
            app.mode = Mode::Normal;
            Ok(TransitionResult::Continue)
        },
        Action::Peek => {
            app.mode = Mode::Peeking;
            Ok(TransitionResult::Continue)
        },
        Action::PeekLeaf => peek_at(value, &app.cell_path.members),
        Action::PeekAll => Ok(TransitionResult::Return(value.copy())),
        Action::PeekView => {
            let ghost path = members_view(app.cell_path.members@);
            if app.cell_path.members.len() > 0 {
                app.cell_path.members.pop();
                assert(members_view(app.cell_path.members@) =~= path.drop_last());
            }
            peek_at(value, &app.cell_path.members)
        },
        Action::PeekUnder => peek_at(value, &app.cell_path.members),
        Action::PeekCellPath => Ok(TransitionResult::Return(Value::CellPath { members: copy_members(&app.cell_path.members) })),
        Action::EditorKey => match app.editor.handle_key(key) {
            EditorOutcome::Unhandled => Ok(TransitionResult::Continue),
            EditorOutcome::Edited => Ok(TransitionResult::Continue),
            EditorOutcome::Cancelled => {
                app.mode = Mode::Normal;
                Ok(TransitionResult::Continue)
            },
            EditorOutcome::Committed(v) => {
                app.mode = Mode::Normal;
                Ok(TransitionResult::Edit(v))
            },
        },
        Action::Ignore => Ok(TransitionResult::Continue),
    }
}

/// The node that `members` selects, as the value to leave the explorer with.
fn peek_at(value: &Value, members: &Vec<PathMember>) -> (r: Result<TransitionResult, ResolutionError>)
    ensures
        outcome_of(r) == peeked(value@, members_view(members@)),
        r matches Err(e) ==> e.position < members.len() && e.kind == failure_kind(members@[e.position as int]@),
{
    match follow_cell_path(value, members) {
        Ok(v) => Ok(TransitionResult::Return(v)),
        Err(e) => Err(e),
    }
}

/// From NORMAL mode, pressing `peek` and then `under` returns the node that
/// the selection had before: entering PEEKING mode leaves the path as it is.
pub proof fn lemma_peek_under(tree: Data, kb: KeyBindings, m: Machine)
    requires
        m.mode == Mode::Normal,
        action(kb.peek, kb, Mode::Normal) == Action::Peek,
        action(kb.peeking.under, kb, Mode::Peeking) == Action::PeekUnder,
    ensures
        transition(kb.peeking.under, kb, transition(kb.peek, kb, m, tree).1, tree).0 == peeked(tree, m.path),
{
}

/// On a well-formed tree, a selection that resolves still resolves after any
/// key press, and no key press fails to resolve it.
pub proof fn lemma_path_stays_valid(key: Key, kb: KeyBindings, m: Machine, tree: Data)
    requires
        wf_data(tree),
        resolve(tree, m.path) is Ok,
    ensures
        resolve(tree, transition(key, kb, m, tree).1.path) is Ok,
        !(transition(key, kb, m, tree).0 is Failed),
{
    let path = m.path;
    match action(key, kb, m.mode) {
        Action::Move(direction) => {
            if path.len() > 0 {
                let prefix = path.drop_last();
                lemma_resolve_prefix(tree, path, 0, (path.len() - 1) as nat);
                assert(path.subrange(0, path.len() - 1) =~= prefix);
                match resolve(tree, prefix) {
                    Ok(parent) => {
                        lemma_resolve_from_wf(tree, prefix, 0, parent);
                        match sibling_member(parent, path.last(), direction) {
                            Some(next) => {
                                match parent {
                                    Data::Record(cols, vals) => {
                                        let s = step(key_index(cols, path.last()->Key_key), cols.len() as int, direction);
                                        lemma_key_index_found(cols, cols[s], s);
                                    },
                                    _ => {},
                                }
                                let c = child(parent, next)->0;
                                lemma_resolve_push(tree, prefix, 0, parent, next, c);
                                assert(prefix.push(next) =~= path.update(path.len() - 1, next));
                            },
                            None => {},
                        }
                    },
                    Err(_) => {},
                }
            }
        },
        Action::Deeper => {
            let d = resolve(tree, path)->Ok_0;
            lemma_resolve_from_wf(tree, path, 0, d);
            match first_child(d) {
                Some(first) => {
                    match d {
                        Data::Record(cols, _) => {
                            assert(is_first_key(cols, cols[0], 0));
                        },
                        _ => {},
                    }
                    let c = child(d, first)->0;
                    lemma_resolve_push(tree, path, 0, d, first, c);
                },
                None => {},
            }
        },
        Action::Back => {
            if path.len() > 1 {
                lemma_resolve_prefix(tree, path, 0, (path.len() - 1) as nat);
                assert(path.subrange(0, path.len() - 1) =~= path.drop_last());
            }
        },
        Action::PeekView => {
            if path.len() > 0 {
                lemma_resolve_prefix(tree, path, 0, (path.len() - 1) as nat);
                assert(path.subrange(0, path.len() - 1) =~= path.drop_last());
            }
        },
        _ => {},
    }
}

} // verus!
