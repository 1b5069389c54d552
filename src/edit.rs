//! A small editor for the string cells of the data: a buffer of characters
//! and a cursor in it.
use vstd::prelude::*;

use crate::config::Key;
use crate::value::{Data, Value};

verus! {

/// The editor: `cursor` is the position in `buffer` where a typed character
/// goes; `width` is the number of columns it is shown in.
#[derive(Debug, Clone)]
pub struct Editor {
    pub buffer: Vec<char>,
    pub cursor: usize,
    pub width: usize,
}

/// What a key press did to the editor.
#[derive(Debug, PartialEq)]
pub enum EditorOutcome {
    /// the key means nothing to the editor; nothing changed
    Unhandled,
    /// the buffer or the cursor moved on
    Edited,
    /// the edit is given up
    Cancelled,
    /// the edit is accepted, with the string it made
    Committed(Value),
}

/// What a key does to a buffer and a cursor.
pub ghost enum Effect {
    Unhandled,
    Edit(Seq<char>, nat),
    Cancel,
    Commit,
}

pub open spec fn effect(buffer: Seq<char>, cursor: nat, key: Key) -> Effect {
    match key {
        Key::Char(c) => if buffer.len() + 1 < usize::MAX {
            Effect::Edit(buffer.insert(cursor as int, c), cursor + 1)
        } else {
            Effect::Edit(buffer, cursor)
        },
        Key::Backspace => if cursor > 0 {
            Effect::Edit(buffer.remove(cursor - 1), (cursor - 1) as nat)
        } else {
            Effect::Edit(buffer, cursor)
        },
        Key::Del => if cursor < buffer.len() {
            Effect::Edit(buffer.remove(cursor as int), cursor)
        } else {
            Effect::Edit(buffer, cursor)
        },
        Key::ArrowLeft => Effect::Edit(buffer, if cursor > 0 { (cursor - 1) as nat } else { 0 }),
        Key::ArrowRight => Effect::Edit(buffer, if cursor < buffer.len() { cursor + 1 } else { buffer.len() }),
        Key::Home => Effect::Edit(buffer, 0),
        Key::End => Effect::Edit(buffer, buffer.len()),
        Key::Enter => Effect::Commit,
        Key::Escape => Effect::Cancel,
        _ => Effect::Unhandled,
    }
}

/// Relies on std's `String::push`: appends one character.
#[verifier::external_body]
fn push_char(s: &mut String, c: char)
    ensures
        final(s)@ == old(s)@.push(c),
{
    s.push(c)
}

/// A string that holds the characters of `chars`.
pub fn string_of(chars: &Vec<char>) -> (r: String)
    ensures
        r@ == chars@,
{
    let mut s = String::new();
    let mut i: usize = 0;
    while i < chars.len()
        invariant
            i <= chars.len(),
            s@ == chars@.subrange(0, i as int),
        decreases chars.len() - i,
    {
        push_char(&mut s, chars[i]);
        i = i + 1;
        assert(s@ =~= chars@.subrange(0, i as int));
    }
    assert(chars@.subrange(0, i as int) =~= chars@);
    s
}

impl Editor {
    /// The cursor stands within the buffer or just after it, and the buffer
    /// leaves the largest length free.
    pub open spec fn wf(&self) -> bool {
        self.cursor <= self.buffer.len() < usize::MAX
    }

    pub fn new() -> (r: Editor)
        ensures
            r.wf(),
            r.buffer@ == Seq::<char>::empty(),
            r.cursor == 0,
            r.width == 0,
    {
        Editor { buffer: Vec::new(), cursor: 0, width: 0 }
    }

    /// An editor on the characters of a string cell, the cursor at the end;
    /// an empty one for any other value.
    pub fn from_value(value: &Value) -> (r: Editor)
        ensures
            r.wf(),
            r.width == 0,
            value@ matches Data::Text(s) ==> (s.len() < usize::MAX ==> r.buffer@ == s && r.cursor == s.len()),
            value@ matches Data::Text(s) ==> (s.len() >= usize::MAX ==> r.buffer@ == Seq::<char>::empty()
                && r.cursor == 0),
            !(value@ is Text) ==> r.buffer@ == Seq::<char>::empty() && r.cursor == 0,
    {
        match value {
            Value::String { val } => {
                let s = val.as_str();
                let n = s.unicode_len();
                let mut buffer: Vec<char> = Vec::new();
                let mut i: usize = 0;
                while i < n
                    invariant
                        i <= n,
                        n == s@.len(),
                        buffer@ == s@.subrange(0, i as int),
                    decreases n - i,
                {
                    buffer.push(s.get_char(i));
                    i = i + 1;
                    assert(buffer@ =~= s@.subrange(0, i as int));
                }
                assert(s@.subrange(0, n as int) =~= s@);
                if n == usize::MAX {
                    return Editor::new();
                }
                Editor { buffer, cursor: n, width: 0 }
            },
            _ => Editor::new(),
        }
    }

    /// Sets the number of columns the buffer is shown in.
    pub fn set_width(&mut self, width: usize)
        ensures
            final(self).width == width,
            final(self).buffer@ == old(self).buffer@,
            final(self).cursor == old(self).cursor,
    {
        self.width = width;
    }

    /// Applies a key press: a character is typed at the cursor, backspace
    /// and delete remove the character before and under the cursor, the
    /// arrows, home and end move the cursor within the buffer, enter accepts
    /// the edit and escape gives it up.
    pub fn handle_key(&mut self, key: &Key) -> (r: EditorOutcome)
        requires
            old(self).wf(),
        ensures
            final(self).wf(),
            final(self).width == old(self).width,
            match effect(old(self).buffer@, old(self).cursor as nat, *key) {
                Effect::Unhandled => r is Unhandled && final(self).buffer@ == old(self).buffer@
                    && final(self).cursor == old(self).cursor,
                Effect::Edit(b, c) => r is Edited && final(self).buffer@ == b && final(self).cursor == c,
                Effect::Cancel => r is Cancelled && final(self).buffer@ == old(self).buffer@
                    && final(self).cursor == old(self).cursor,
                Effect::Commit => r matches EditorOutcome::Committed(v) && v@ == Data::Text(old(self).buffer@)
                    && final(self).buffer@ == old(self).buffer@ && final(self).cursor == old(self).cursor,
            },
    {
        match key {
            Key::Char(c) => {
                if self.buffer.len() + 1 >= usize::MAX {
                    return EditorOutcome::Edited;
                }
                self.buffer.insert(self.cursor, *c);
                self.cursor = self.cursor + 1;
                EditorOutcome::Edited
            },
            Key::Backspace => {
                if self.cursor > 0 {
                    self.buffer.remove(self.cursor - 1);
                    self.cursor = self.cursor - 1;
                }
                EditorOutcome::Edited
            },
            Key::Del => {
                if self.cursor < self.buffer.len() {
                    self.buffer.remove(self.cursor);
                }
                EditorOutcome::Edited
            },
            Key::ArrowLeft => {
                if self.cursor > 0 {
                    self.cursor = self.cursor - 1;
                }
                EditorOutcome::Edited
            },
            Key::ArrowRight => {
                if self.cursor < self.buffer.len() {
                    self.cursor = self.cursor + 1;
                }
                EditorOutcome::Edited
            },
            Key::Home => {
                self.cursor = 0;
                EditorOutcome::Edited
            },
            Key::End => {
                self.cursor = self.buffer.len();
                EditorOutcome::Edited
            },
            Key::Enter => EditorOutcome::Committed(Value::String { val: string_of(&self.buffer) }),
            Key::Escape => EditorOutcome::Cancelled,
            _ => EditorOutcome::Unhandled,
        }
    }
}

} // verus!
