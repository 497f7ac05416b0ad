use vstd::prelude::*;

use crate::dropdown::Interaction;

verus! {

/// A key that edits a focused text input.
#[derive(Clone, Copy, Debug, PartialEq, Eq, Structural)]
pub enum EditKey {
    /// A digit key; values above 9 are no digit and change nothing.
    Digit(u8),
    ArrowLeft,
    ArrowRight,
    Backspace,
    Delete,
}

/// A one-line text field edited with digit keys, a cursor and the two erase keys.
///
/// The cursor counts characters. The value may be replaced from outside without moving the
/// cursor, so a cursor past the end acts as if it stood at the end.
#[derive(Debug)]
pub struct TextInput {
    pub value: String,
    cursor: usize,
    focussed: bool,
}

/// Where the cursor acts within `s`.
pub open spec fn caret_in(s: Seq<char>, cursor: int) -> int {
    if cursor < s.len() {
        cursor
    } else {
        s.len() as int
    }
}

/// The text typed by a digit key.
pub open spec fn digit_char(d: u8) -> char {
    match d {
        0 => '0',
        1 => '1',
        2 => '2',
        3 => '3',
        4 => '4',
        5 => '5',
        6 => '6',
        7 => '7',
        8 => '8',
        _ => '9',
    }
}

/// Value and cursor after `key` is pressed in a focused input holding `s` with cursor `cursor`.
pub open spec fn edit(s: Seq<char>, cursor: int, key: EditKey) -> (Seq<char>, int) {
    let c = caret_in(s, cursor);
    match key {
        EditKey::Digit(d) => if d <= 9 {
            (s.subrange(0, c).push(digit_char(d)) + s.subrange(c, s.len() as int), c + 1)
        } else {
            (s, cursor)
        },
        EditKey::ArrowLeft => (s, if c > 0 {
            c - 1
        } else {
            0
        }),
        EditKey::ArrowRight => (s, if c < s.len() {
            c + 1
        } else {
            s.len() as int
        }),
        EditKey::Backspace => if c > 0 {
            (s.subrange(0, c - 1) + s.subrange(c, s.len() as int), c - 1)
        } else {
            (s, cursor)
        },
        EditKey::Delete => if c < s.len() {
            (s.subrange(0, c) + s.subrange(c + 1, s.len() as int), cursor)
        } else {
            (s, cursor)
        },
    }
}

/// Value and cursor after the keys are pressed one after another in a focused input.
pub open spec fn edit_all(s: Seq<char>, cursor: int, keys: Seq<EditKey>) -> (Seq<char>, int)
    decreases keys.len(),
{
    if keys.len() == 0 {
        (s, cursor)
    } else {
        let (s1, c1) = edit_all(s, cursor, keys.drop_last());
        edit(s1, c1, keys.last())
    }
}

fn digit_text(d: u8) -> (r: &'static str)
    requires
        d <= 9,
    ensures
        r@ == seq![digit_char(d)],
{
    proof {
        reveal_strlit("0");
        reveal_strlit("1");
        reveal_strlit("2");
        reveal_strlit("3");
        reveal_strlit("4");
        reveal_strlit("5");
        reveal_strlit("6");
        reveal_strlit("7");
        reveal_strlit("8");
        reveal_strlit("9");
    }
    match d {
        0 => "0",
        1 => "1",
        2 => "2",
        3 => "3",
        4 => "4",
        5 => "5",
        6 => "6",
        7 => "7",
        8 => "8",
        _ => "9",
    }
}

impl TextInput {
    /// An empty, unfocused input.
    pub fn new() -> (r: Self)
        ensures
            r.text() == Seq::<char>::empty(),
            r.cursor() == 0,
            !r.is_focussed(),
    {
        TextInput { value: String::new(), cursor: 0, focussed: false }
    }

    /// The characters of the value.
    pub closed spec fn text(&self) -> Seq<char> {
        self.value@
    }

    pub closed spec fn cursor(&self) -> int {
        self.cursor as int
    }

    pub closed spec fn is_focussed(&self) -> bool {
        self.focussed
    }

    /// Where the cursor acts within the value.
    pub open spec fn caret(&self) -> int {
        caret_in(self.text(), self.cursor())
    }

    pub fn focussed(&self) -> (r: bool)
        ensures
            r == self.is_focussed(),
    {
        self.focussed
    }

    pub fn cursor_position(&self) -> (r: usize)
        ensures
            r == self.cursor(),
    {
        self.cursor
    }

    fn caret_exec(&self) -> (r: usize)
        ensures
            r == self.caret(),
    {
        let len = self.value.as_str().unicode_len();
        if self.cursor < len {
            self.cursor
        } else {
            len
        }
    }

    /// The input's interaction state changed: a press focuses it and asks for a
    /// full-screen catcher behind it, so that a click elsewhere ends the editing.
    pub fn interact(&mut self, interaction: Interaction) -> (spawn_backdrop: bool)
        ensures
            spawn_backdrop == (interaction is Pressed),
            final(self).text() == old(self).text(),
            final(self).cursor() == old(self).cursor(),
            final(self).is_focussed() == (old(self).is_focussed() || interaction is Pressed),
    {
        if interaction == Interaction::Pressed {
            self.focussed = true;
            true
        } else {
            false
        }
    }

    /// A click landed outside the input: editing ends.
    pub fn blur(&mut self)
        ensures
            final(self).text() == old(self).text(),
            final(self).cursor() == old(self).cursor(),
            !final(self).is_focussed(),
    {
        self.focussed = false;
    }

    /// The text to show: while focused, the value with a bar at the cursor.
    pub fn display_text(&self) -> (r: String)
        ensures
            r@ == if self.is_focussed() {
                self.text().subrange(0, self.caret()).push('|') + self.text().subrange(
                    self.caret(),
                    self.text().len() as int,
                )
            } else {
                self.text()
            },
    {
        if self.focussed {
            let c = self.caret_exec();
            let len = self.value.as_str().unicode_len();
            let start = self.value.as_str().substring_char(0, c);
            let end = self.value.as_str().substring_char(c, len);
            let mut r = start.to_owned();
            proof {
                reveal_strlit("|");
            }
            r.append("|");
            r.append(end);
            assert(r@ =~= self.value@.subrange(0, self.caret()).push('|') + self.value@.subrange(
                self.caret(),
                self.value@.len() as int,
            ));
            r
        } else {
            self.value.clone()
        }
    }

    /// One key was pressed. An unfocused input ignores keys.
    pub fn apply_key(&mut self, key: EditKey)
        requires
            old(self).text().len() < usize::MAX,
        ensures
            final(self).is_focussed() == old(self).is_focussed(),
            old(self).is_focussed() ==> (final(self).text(), final(self).cursor()) == edit(
                old(self).text(),
                old(self).cursor(),
                key,
            ),
            !old(self).is_focussed() ==> final(self).text() == old(self).text()
                && final(self).cursor() == old(self).cursor(),
    {
        if !self.focussed {
            return;
        }
        let c = self.caret_exec();
        let len = self.value.as_str().unicode_len();
        let ghost s = self.value@;
        match key {
            EditKey::Digit(d) => {
                if d <= 9 {
                    let start = self.value.as_str().substring_char(0, c);
                    let end = self.value.as_str().substring_char(c, len);
                    let mut v = start.to_owned();
                    v.append(digit_text(d));
                    v.append(end);
                    assert(v@ =~= s.subrange(0, c as int).push(digit_char(d)) + s.subrange(
                        c as int,
                        s.len() as int,
                    ));
                    self.value = v;
                    self.cursor = c + 1;
                }
            },
            EditKey::ArrowLeft => {
                self.cursor = if c > 0 {
                    c - 1
                } else {
                    0
                };
            },
            EditKey::ArrowRight => {
                self.cursor = if c < len {
                    c + 1
                } else {
                    len
                };
            },
            EditKey::Backspace => {
                if c > 0 {
                    let start = self.value.as_str().substring_char(0, c - 1);
                    let end = self.value.as_str().substring_char(c, len);
                    let mut v = start.to_owned();
                    v.append(end);
                    self.value = v;
                    self.cursor = c - 1;
                }
            },
            EditKey::Delete => {
                if c < len {
                    let start = self.value.as_str().substring_char(0, c);
                    let end = self.value.as_str().substring_char(c + 1, len);
                    let mut v = start.to_owned();
                    v.append(end);
                    self.value = v;
                }
            },
        }
    }

    /// The keys pressed in one frame, applied in the order given. An unfocused input
    /// ignores them.
    pub fn handle_keyboard_input(&mut self, keys: &Vec<EditKey>)
        requires
            old(self).text().len() + keys.len() < usize::MAX,
        ensures
            final(self).is_focussed() == old(self).is_focussed(),
            old(self).is_focussed() ==> (final(self).text(), final(self).cursor()) == edit_all(
                old(self).text(),
                old(self).cursor(),
                keys@,
            ),
            !old(self).is_focussed() ==> final(self).text() == old(self).text()
                && final(self).cursor() == old(self).cursor(),
    {
        let mut i: usize = 0;
        while i < keys.len()
            invariant
                i <= keys.len(),
                self.is_focussed() == old(self).is_focussed(),
                self.text().len() <= old(self).text().len() + i,
                old(self).text().len() + keys.len() < usize::MAX,
                old(self).is_focussed() ==> (self.text(), self.cursor()) == edit_all(
                    old(self).text(),
                    old(self).cursor(),
                    keys@.subrange(0, i as int),
                ),
                !old(self).is_focussed() ==> self.text() == old(self).text() && self.cursor()
                    == old(self).cursor(),
            decreases keys.len() - i,
        {
            assert(keys@.subrange(0, i + 1).drop_last() == keys@.subrange(0, i as int));
            self.apply_key(keys[i]);
            i = i + 1;
        }
        assert(keys@.subrange(0, keys.len() as int) == keys@);
    }
}

} // verus!
