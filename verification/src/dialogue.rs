//! A one line text input: a prompt, the text typed so far and a cursor
//! between its characters.
use vstd::prelude::*;
use crate::text::string_from_chars;

verus! {

/// Why a dialogue ended without a value.
#[derive(Debug)]
pub enum DialogueError {
    /// The user closed the dialogue.
    Close,
}

/// What a key stroke gives: keep going, or the text entered.
pub enum DialogueValue {
    Continue,
    Final(String),
}

/// The keys a dialogue acts on; `Other` stands for the rest.
pub enum Key {
    Esc,
    Char(char),
    Enter,
    Backspace,
    Left,
    Right,
    Other,
}

/// The text and cursor of a dialogue.
pub struct DialogueState {
    pub input: Seq<char>,
    pub cursor: nat,
}

/// `c` inserted before the cursor, the cursor moving past it.
pub open spec fn enter_spec(st: DialogueState, c: char) -> DialogueState {
    DialogueState { input: st.input.insert(st.cursor as int, c), cursor: st.cursor + 1 }
}

/// The character before the cursor removed, the cursor moving back over
/// it; nothing changes with the cursor at the start.
pub open spec fn delete_spec(st: DialogueState) -> DialogueState {
    if st.cursor == 0 {
        st
    } else {
        DialogueState {
            input: st.input.remove(st.cursor - 1),
            cursor: (st.cursor - 1) as nat,
        }
    }
}

/// The cursor one character to the left, stopping at the start.
pub open spec fn left_spec(st: DialogueState) -> DialogueState {
    DialogueState { cursor: if st.cursor == 0 { 0 } else { (st.cursor - 1) as nat }, ..st }
}

/// The cursor one character to the right, stopping at the end.
pub open spec fn right_spec(st: DialogueState) -> DialogueState {
    DialogueState {
        cursor: if st.cursor + 1 <= st.input.len() { st.cursor + 1 } else { st.input.len() },
        ..st
    }
}

/// A state whose cursor stands within its text.
pub open spec fn state_ok(st: DialogueState) -> bool {
    st.cursor <= st.input.len()
}

/// A prompt with a line of input being edited.
pub struct Dialogue {
    prompt: String,
    input: Vec<char>,
    character_index: usize,
}

impl Dialogue {
    #[verifier::type_invariant]
    closed spec fn inv(self) -> bool {
        self.character_index <= self.input@.len()
    }

    /// The text and cursor.
    pub closed spec fn state(self) -> DialogueState {
        DialogueState { input: self.input@, cursor: self.character_index as nat }
    }

    /// The prompt shown above the input.
    pub closed spec fn prompt_spec(self) -> Seq<char> {
        self.prompt@
    }

    /// An empty input under `prompt`.
    pub fn new(prompt: &str) -> (r: Self)
        ensures
            r.prompt_spec() == prompt@,
            r.state() == (DialogueState { input: Seq::empty(), cursor: 0 }),
    {
        Dialogue { prompt: prompt.to_owned(), input: Vec::new(), character_index: 0 }
    }

    /// The prompt.
    pub fn prompt(&self) -> (r: String)
        ensures
            r@ == self.prompt_spec(),
    {
        self.prompt.clone()
    }

    /// The text entered so far.
    pub fn input(&self) -> (r: String)
        ensures
            r@ == self.state().input,
    {
        string_from_chars(self.input.as_slice())
    }

    /// The cursor, in characters from the start.
    pub fn cursor(&self) -> (r: usize)
        ensures
            r == self.state().cursor,
            state_ok(self.state()),
    {
        proof {
            use_type_invariant(self);
        }
        self.character_index
    }

    fn move_cursor_left(&mut self)
        ensures
            final(self).state() == left_spec(old(self).state()),
            final(self).prompt_spec() == old(self).prompt_spec(),
    {
        proof {
            use_type_invariant(&*self);
        }
        let moved: usize = if self.character_index == 0 { 0 } else { self.character_index - 1 };
        self.character_index = moved;
    }

    fn move_cursor_right(&mut self)
        ensures
            final(self).state() == right_spec(old(self).state()),
            final(self).prompt_spec() == old(self).prompt_spec(),
    {
        proof {
            use_type_invariant(&*self);
        }
        if self.character_index < self.input.len() {
            self.character_index = self.character_index + 1;
        }
    }

    fn enter_char(&mut self, new_char: char)
        ensures
            final(self).state() == enter_spec(old(self).state(), new_char),
            final(self).prompt_spec() == old(self).prompt_spec(),
    {
        proof {
            use_type_invariant(&*self);
        }
        let index = self.character_index;
        let mut input: Vec<char> = Vec::new();
        self.character_index = 0;
        std::mem::swap(&mut input, &mut self.input);
        input.insert(index, new_char);
        let n = input.len();
        assert(index + 1 <= n);
        self.input = input;
        self.character_index = index + 1;
    }

    fn delete_char(&mut self)
        ensures
            final(self).state() == delete_spec(old(self).state()),
            final(self).prompt_spec() == old(self).prompt_spec(),
    {
        proof {
            use_type_invariant(&*self);
        }
        if self.character_index != 0 {
            let index = self.character_index - 1;
            let mut input: Vec<char> = Vec::new();
            self.character_index = 0;
            std::mem::swap(&mut input, &mut self.input);
            input.remove(index);
            self.input = input;
            self.character_index = index;
        }
    }

    /// Act on key `key`: Esc closes the dialogue, Enter gives the text
    /// entered, a character is inserted at the cursor, Backspace deletes
    /// the character before it, Left and Right move it; other keys do
    /// nothing.
    pub fn handle_key(&mut self, key: &Key) -> (r: Result<DialogueValue, DialogueError>)
        ensures
            final(self).prompt_spec() == old(self).prompt_spec(),
            state_ok(final(self).state()),
            match *key {
                Key::Esc => r matches Err(DialogueError::Close) && final(self).state() == old(
                    self,
                ).state(),
                Key::Char(c) => r matches Ok(DialogueValue::Continue) && final(self).state()
                    == enter_spec(old(self).state(), c),
                Key::Enter => r matches Ok(DialogueValue::Final(s)) && s@ == old(self).state().input
                    && final(self).state() == old(self).state(),
                Key::Backspace => r matches Ok(DialogueValue::Continue) && final(self).state()
                    == delete_spec(old(self).state()),
                Key::Left => r matches Ok(DialogueValue::Continue) && final(self).state() == left_spec(
                    old(self).state(),
                ),
                Key::Right => r matches Ok(DialogueValue::Continue) && final(self).state()
                    == right_spec(old(self).state()),
                Key::Other => r matches Ok(DialogueValue::Continue) && final(self).state() == old(
                    self,
                ).state(),
            },
    {
        proof {
            use_type_invariant(&*self);
        }
        let r = match key {
            Key::Esc => Err(DialogueError::Close),
            Key::Char(c) => {
                self.enter_char(*c);
                Ok(DialogueValue::Continue)
            },
            Key::Enter => Ok(DialogueValue::Final(self.input())),
            Key::Backspace => {
                self.delete_char();
                Ok(DialogueValue::Continue)
            },
            Key::Left => {
                self.move_cursor_left();
                Ok(DialogueValue::Continue)
            },
            Key::Right => {
                self.move_cursor_right();
                Ok(DialogueValue::Continue)
            },
            Key::Other => Ok(DialogueValue::Continue),
        };
        proof {
            use_type_invariant(&*self);
        }
        r
    }
}

/// Typing a character and then Backspace leaves the text and cursor as
/// they were.
pub proof fn lemma_backspace_undoes_char(st: DialogueState, c: char)
    requires
        state_ok(st),
    ensures
        delete_spec(enter_spec(st, c)) == st,
{
    assert(st.input.insert(st.cursor as int, c).remove(st.cursor as int) =~= st.input);
}

/// Every edit keeps the cursor within the text.
pub proof fn lemma_edits_keep_cursor_within(st: DialogueState, c: char)
    requires
        state_ok(st),
    ensures
        state_ok(enter_spec(st, c)),
        state_ok(delete_spec(st)),
        state_ok(left_spec(st)),
        state_ok(right_spec(st)),
{
}

/// Left after Right, away from the end, returns the cursor; so does Right
/// after Left, away from the start.
pub proof fn lemma_left_right_inverse(st: DialogueState)
    requires
        state_ok(st),
    ensures
        st.cursor < st.input.len() ==> left_spec(right_spec(st)) == st,
        st.cursor > 0 ==> right_spec(left_spec(st)) == st,
{
}

} // verus!
