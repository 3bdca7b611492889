//! Pointer input on its way from the source's window to the observer's
//! document: which buttons are held, which events the document is sent, and
//! which nodes keep the events to themselves.

use vstd::prelude::*;

verus! {

/// The class that makes a node catch events.
pub const CATCH_EVENTS_CLASS: &'static str = "catch-events";

/// Whether `c` is white space: whether it has the Unicode property
/// `White_Space`, which these twenty-five code points have.
pub open spec fn white_space(c: char) -> bool {
    let code = c as u32;
    ||| 0x0009 <= code <= 0x000D
    ||| code == 0x0020
    ||| code == 0x0085
    ||| code == 0x00A0
    ||| code == 0x1680
    ||| 0x2000 <= code <= 0x200A
    ||| code == 0x2028
    ||| code == 0x2029
    ||| code == 0x202F
    ||| code == 0x205F
    ||| code == 0x3000
}

/// Whether `c` is white space.
pub fn is_whitespace(c: char) -> (space: bool)
    ensures
        space == white_space(c),
{
    let code = c as u32;
    (0x0009 <= code && code <= 0x000D) || code == 0x0020 || code == 0x0085 || code == 0x00A0
        || code == 0x1680 || (0x2000 <= code && code <= 0x200A) || code == 0x2028 || code
        == 0x2029 || code == 0x202F || code == 0x205F || code == 0x3000
}

/// Whether the characters of `text` from `from` up to `to` are one of its
/// words: a longest run without white space.
pub open spec fn is_word_at(text: Seq<char>, from: int, to: int) -> bool {
    &&& 0 <= from < to <= text.len()
    &&& forall|i: int| from <= i < to ==> !white_space(#[trigger] text[i])
    &&& (from == 0 || white_space(text[from - 1]))
    &&& (to == text.len() || white_space(text[to]))
}

/// Whether `word` is one of the words of `text`.
pub open spec fn has_word(text: Seq<char>, word: Seq<char>) -> bool {
    exists|from: int, to: int|
        is_word_at(text, from, to) && #[trigger] text.subrange(from, to) == word
}

/// One node of the document, as far as catching events goes.
pub struct NodeClasses {
    /// The node's `class` attribute, where it has one.
    pub class: Option<String>,
    /// The node that this one lies in, where there is one.
    pub parent: Option<usize>,
}

/// The text of a node's `class` attribute; empty where it has none.
pub open spec fn class_text(node: NodeClasses) -> Seq<char> {
    match node.class {
        Some(class) => class@,
        None => Seq::empty(),
    }
}

/// Whether the node `node_id` carries the class itself, or one of the
/// `steps` nodes above it does.
pub open spec fn catches_within(nodes: Seq<NodeClasses>, node_id: int, steps: nat) -> bool
    decreases steps,
{
    &&& 0 <= node_id < nodes.len()
    &&& {
        ||| has_word(class_text(nodes[node_id]), CATCH_EVENTS_CLASS@)
        ||| steps > 0 && nodes[node_id].parent is Some && catches_within(
            nodes,
            nodes[node_id].parent->0 as int,
            (steps - 1) as nat,
        )
    }
}

/// The node that lies `steps` levels above the node `node_id`, where the
/// document has both.
pub open spec fn ancestor(nodes: Seq<NodeClasses>, node_id: int, steps: nat) -> Option<int>
    decreases steps,
{
    if !(0 <= node_id < nodes.len()) {
        None
    } else if steps == 0 {
        Some(node_id)
    } else {
        match nodes[node_id].parent {
            Some(parent) => ancestor(nodes, parent as int, (steps - 1) as nat),
            None => None,
        }
    }
}

/// Whether the document is without cycles: no node lies above itself.
pub open spec fn acyclic(nodes: Seq<NodeClasses>) -> bool {
    forall|node_id: int, steps: nat|
        steps > 0 ==> #[trigger] ancestor(nodes, node_id, steps) != Some(node_id)
}

/// Whether the node `steps` levels above `node_id` is there and carries
/// the class.
pub open spec fn catches_at(nodes: Seq<NodeClasses>, node_id: int, steps: nat) -> bool {
    ancestor(nodes, node_id, steps) matches Some(above) && has_word(
        class_text(nodes[above]),
        CATCH_EVENTS_CLASS@,
    )
}

/// The characters of `text`.
fn chars_of(text: &str) -> (chars: Vec<char>)
    ensures
        chars@ == text@,
{
    let mut chars: Vec<char> = Vec::new();
    for c in it: text.chars()
        invariant
            it.seq() == text@,
            chars@ == it.seq().take(it.index() as int),
    {
        chars.push(c);
        proof {
            assert(chars@ =~= it.seq().take(it.index() + 1));
        }
    }
    proof {
        assert(text@.take(text@.len() as int) == text@);
    }
    chars
}

/// A word of `text` that ends at `to` begins where the run before `to`
/// begins.
proof fn lemma_word_start(text: Seq<char>, from: int, start: int, to: int)
    requires
        is_word_at(text, from, to),
        0 <= start < to,
        forall|i: int| start <= i < to ==> !white_space(#[trigger] text[i]),
        start == 0 || white_space(text[start - 1]),
    ensures
        from == start,
{
    if from < start {
        assert(!white_space(text[start - 1]));
    }
    if start < from {
        assert(!white_space(text[from - 1]));
    }
}

/// Whether `word` is one of the words of `text`, split at white space.
pub fn contains_word(text: &str, word: &str) -> (found: bool)
    ensures
        found == has_word(text@, word@),
{
    let wanted = chars_of(word);
    let mut found = false;
    // Whether a word has begun and not yet ended.
    let mut in_word = false;
    // Whether the word that has begun agrees with `wanted` so far, and if
    // so, in how many characters.
    let mut agrees = true;
    let mut matched: usize = 0;
    let ghost mut start: int = 0;
    for c in it: text.chars()
        invariant
            it.seq() == text@,
            wanted@ == word@,
            found ==> has_word(text@, word@),
            !found ==> forall|from: int, to: int|
                is_word_at(text@, from, to) && to < it.index() ==> #[trigger] text@.subrange(
                    from,
                    to,
                ) != word@,
            in_word <==> it.index() > 0 && !white_space(text@[it.index() - 1]),
            in_word ==> {
                &&& 0 <= start < it.index()
                &&& forall|i: int| start <= i < it.index() ==> !white_space(#[trigger] text@[i])
                &&& (start == 0 || white_space(text@[start - 1]))
                &&& agrees <==> it.index() - start <= word@.len() && text@.subrange(
                    start,
                    it.index() as int,
                ) == word@.subrange(0, it.index() - start)
                &&& agrees ==> matched == it.index() - start
            },
            !in_word ==> agrees && matched == 0,
    {
        let ghost at = it.index() as int;
        assert(text@[at] == c);
        if is_whitespace(c) {
            if in_word {
                proof {
                    assert(is_word_at(text@, start, at));
                    assert forall|from: int| is_word_at(text@, from, at) implies from == start by {
                        lemma_word_start(text@, from, start, at);
                    }
                }
                if agrees && matched == wanted.len() {
                    proof {
                        assert(word@.subrange(0, word@.len() as int) == word@);
                    }
                    found = true;
                } else {
                    proof {
                        if agrees {
                            assert(text@.subrange(start, at).len() != word@.len());
                        } else if at - start <= word@.len() {
                            if text@.subrange(start, at) == word@ {
                                assert(word@.subrange(0, at - start) == word@);
                            }
                        } else {
                            assert(text@.subrange(start, at).len() != word@.len());
                        }
                    }
                }
            } else {
                proof {
                    assert forall|from: int| !is_word_at(text@, from, at) by {
                        if is_word_at(text@, from, at) {
                            assert(!white_space(text@[at - 1]));
                        }
                    }
                }
            }
            in_word = false;
            agrees = true;
            matched = 0;
        } else {
            proof {
                assert forall|from: int| !is_word_at(text@, from, at) by {
                    if is_word_at(text@, from, at) {
                        assert(white_space(text@[at]));
                    }
                }
                if !in_word {
                    start = at;
                }
            }
            if agrees && matched < wanted.len() && wanted[matched] == c {
                proof {
                    let before = text@.subrange(start, at);
                    let after = text@.subrange(start, at + 1);
                    assert(after =~= before.push(c));
                    assert(word@.subrange(0, at + 1 - start) =~= word@.subrange(
                        0,
                        at - start,
                    ).push(word@[at - start]));
                }
                matched = matched + 1;
            } else {
                proof {
                    if agrees && matched < wanted.len() {
                        let after = text@.subrange(start, at + 1);
                        assert(after[at - start] == c);
                        assert(word@.subrange(0, at + 1 - start)[at - start] == word@[at - start]);
                    }
                    if !agrees && at + 1 - start <= word@.len() {
                        let after = text@.subrange(start, at + 1);
                        let goal = word@.subrange(0, at + 1 - start);
                        if after == goal {
                            assert(text@.subrange(start, at) =~= after.subrange(0, at - start));
                            assert(word@.subrange(0, at - start) =~= goal.subrange(0, at - start));
                        }
                    }
                }
                agrees = false;
            }
            in_word = true;
            proof {
                // The run agrees exactly if it spells the beginning of the
                // word; one direction at a time.
                assert(agrees ==> at + 1 - start <= word@.len() && text@.subrange(start, at + 1)
                    == word@.subrange(0, at + 1 - start));
                assert(at + 1 - start <= word@.len() && text@.subrange(start, at + 1)
                    == word@.subrange(0, at + 1 - start) ==> agrees);
            }
        }
    }
    let ghost end = text@.len() as int;
    if in_word && agrees && matched == wanted.len() {
        proof {
            assert(is_word_at(text@, start, end));
            assert(word@.subrange(0, word@.len() as int) == word@);
        }
        found = true;
    }
    proof {
        if !found {
            assert forall|from: int, to: int| is_word_at(text@, from, to) implies #[trigger] text@.subrange(
                from,
                to,
            ) != word@ by {
                if to == end {
                    assert(!white_space(text@[end - 1]));
                    lemma_word_start(text@, from, start, end);
                    if text@.subrange(start, end) == word@ {
                        assert(word@.subrange(0, end - start) == word@);
                    }
                }
            }
        }
    }
    found
}

/// Whether the node `node_id` catches events: it carries the class
/// `catch-events`, or a node that it lies in does.  A node that the document
/// does not have catches nothing.  The search goes up by as many steps as the
/// document has nodes, which reaches every node above where the document has
/// no cycle.
pub fn does_catch_events(nodes: &Vec<NodeClasses>, node_id: usize) -> (catches: bool)
    ensures
        catches == catches_within(nodes@, node_id as int, nodes@.len()),
{
    let mut current = node_id;
    let mut steps = nodes.len();
    loop
        invariant
            steps <= nodes@.len(),
            catches_within(nodes@, node_id as int, nodes@.len()) == catches_within(
                nodes@,
                current as int,
                steps as nat,
            ),
        decreases steps,
    {
        if current >= nodes.len() {
            return false;
        }
        let node = &nodes[current];
        let marked = match &node.class {
            Some(class) => contains_word(class.as_str(), CATCH_EVENTS_CLASS),
            None => {
                proof {
                    assert(!has_word(Seq::<char>::empty(), CATCH_EVENTS_CLASS@));
                }
                false
            },
        };
        if marked {
            return true;
        }
        match node.parent {
            Some(parent) => {
                if steps == 0 {
                    return false;
                }
                current = parent;
                steps = steps - 1;
            },
            None => {
                return false;
            },
        }
    }
}

/// Whether a pointer that hits the node `hit` is caught there; a pointer
/// that hits nothing is not.
pub fn catches_pointer(nodes: &Vec<NodeClasses>, hit: Option<usize>) -> (catches: bool)
    ensures
        catches == match hit {
            Some(node_id) => catches_within(nodes@, node_id as int, nodes@.len()),
            None => false,
        },
{
    match hit {
        Some(node_id) => does_catch_events(nodes, node_id),
        None => false,
    }
}

/// A button of the mouse, as the source's window reports it.
#[derive(Clone, Copy, Debug, PartialEq, Eq, Structural)]
pub enum MouseButton {
    Left,
    Right,
    Middle,
    Back,
    Forward,
    Other(u16),
}

/// Whether a button went down or up.
#[derive(Clone, Copy, Debug, PartialEq, Eq, Structural)]
pub enum ButtonState {
    Pressed,
    Released,
}

/// A button of the mouse, as the document knows it.
#[derive(Clone, Copy, Debug, PartialEq, Eq, Structural)]
pub enum MouseEventButton {
    /// Usually the left button.
    Main,
    /// Usually the wheel or the middle button.
    Auxiliary,
    /// Usually the right button.
    Secondary,
    /// Typically the button that goes back.
    Fourth,
    /// Typically the button that goes forward.
    Fifth,
}

/// What the document is told of the pointer with every event.  The position
/// and the modifier keys pass through as they come.
#[derive(Debug, PartialEq, Eq)]
pub struct BlitzMouseButtonEvent<P, M> {
    pub position: P,
    /// The button that the event is about.
    pub button: MouseEventButton,
    /// The buttons that are held, one bit each.
    pub buttons: u8,
    pub mods: M,
}

/// An event for the document.
#[derive(Debug, PartialEq, Eq)]
pub enum UiEvent<P, M> {
    MouseMove(BlitzMouseButtonEvent<P, M>),
    MouseUp(BlitzMouseButtonEvent<P, M>),
    MouseDown(BlitzMouseButtonEvent<P, M>),
}

/// What is remembered of the pointer between two events.
#[derive(Debug, PartialEq, Eq)]
pub struct MouseState<P, M> {
    pub position: P,
    /// The buttons that are held, one bit each.
    pub buttons: u8,
    pub mods: M,
}

impl<P: Copy, M: Copy> Clone for BlitzMouseButtonEvent<P, M> {
    fn clone(&self) -> (copy: Self)
        ensures
            copy == *self,
    {
        *self
    }
}

impl<P: Copy, M: Copy> Copy for BlitzMouseButtonEvent<P, M> {

}

impl<P: Copy, M: Copy> Clone for UiEvent<P, M> {
    fn clone(&self) -> (copy: Self)
        ensures
            copy == *self,
    {
        *self
    }
}

impl<P: Copy, M: Copy> Copy for UiEvent<P, M> {

}

impl<P: Copy, M: Copy> Clone for MouseState<P, M> {
    fn clone(&self) -> (copy: Self)
        ensures
            copy == *self,
    {
        *self
    }
}

impl<P: Copy, M: Copy> Copy for MouseState<P, M> {

}

/// The document's name for a button of the window; none for a button that
/// the document does not know.
pub open spec fn document_button(button: MouseButton) -> Option<MouseEventButton> {
    match button {
        MouseButton::Left => Some(MouseEventButton::Main),
        MouseButton::Right => Some(MouseEventButton::Secondary),
        MouseButton::Middle => Some(MouseEventButton::Auxiliary),
        MouseButton::Back => Some(MouseEventButton::Fourth),
        MouseButton::Forward => Some(MouseEventButton::Fifth),
        MouseButton::Other(_) => None,
    }
}

/// The bit that stands for a button among the held buttons.
pub open spec fn button_bit(button: MouseEventButton) -> u8 {
    match button {
        MouseEventButton::Main => 1,
        MouseEventButton::Secondary => 2,
        MouseEventButton::Auxiliary => 4,
        MouseEventButton::Fourth => 8,
        MouseEventButton::Fifth => 16,
    }
}

impl<P, M> MouseState<P, M> {
    /// The state after the pointer has moved to `position`.
    pub open spec fn moved(self, position: P) -> Self {
        MouseState { position, ..self }
    }

    /// The state after the pointer has made a run of moves.
    pub open spec fn moved_all(self, positions: Seq<P>) -> Self {
        if positions.len() == 0 {
            self
        } else {
            self.moved(positions.last())
        }
    }

    /// What the document is told of a move to `position`.
    pub open spec fn move_event(self, position: P) -> UiEvent<P, M> {
        UiEvent::MouseMove(
            BlitzMouseButtonEvent {
                position,
                button: MouseEventButton::Main,
                buttons: self.buttons,
                mods: self.mods,
            },
        )
    }

    /// The state after a button has gone down or up.  A button that the
    /// document does not know changes nothing.
    pub open spec fn switched(self, button: MouseButton, state: ButtonState) -> Self {
        match document_button(button) {
            Some(known) => MouseState {
                buttons: match state {
                    ButtonState::Pressed => self.buttons | button_bit(known),
                    ButtonState::Released => self.buttons & !button_bit(known),
                },
                ..self
            },
            None => self,
        }
    }

    /// What the document is told of a button that has gone down or up:
    /// where the pointer is, which button it was, and which buttons are held
    /// now.  Of a button that it does not know it is told nothing.
    pub open spec fn switch_event(self, button: MouseButton, state: ButtonState) -> Option<
        UiEvent<P, M>,
    > {
        match document_button(button) {
            Some(known) => {
                let event = BlitzMouseButtonEvent {
                    position: self.position,
                    button: known,
                    buttons: self.switched(button, state).buttons,
                    mods: self.mods,
                };
                Some(
                    match state {
                        ButtonState::Pressed => UiEvent::MouseDown(event),
                        ButtonState::Released => UiEvent::MouseUp(event),
                    },
                )
            },
            None => None,
        }
    }

    /// The state after a run of button changes, oldest first.
    pub open spec fn switched_all(self, inputs: Seq<(MouseButton, ButtonState)>) -> Self
        decreases inputs.len(),
    {
        if inputs.len() == 0 {
            self
        } else {
            self.switched_all(inputs.drop_last()).switched(inputs.last().0, inputs.last().1)
        }
    }

    /// What the document is told of a run of button changes, oldest first.
    pub open spec fn switch_events(self, inputs: Seq<(MouseButton, ButtonState)>) -> Seq<
        UiEvent<P, M>,
    >
        decreases inputs.len(),
    {
        if inputs.len() == 0 {
            Seq::empty()
        } else {
            let earlier = self.switch_events(inputs.drop_last());
            match self.switched_all(inputs.drop_last()).switch_event(
                inputs.last().0,
                inputs.last().1,
            ) {
                Some(event) => earlier.push(event),
                None => earlier,
            }
        }
    }
}

/// The document's name for a button of the window.
pub fn blitz_button(button: MouseButton) -> (known: Option<MouseEventButton>)
    ensures
        known == document_button(button),
{
    match button {
        MouseButton::Left => Some(MouseEventButton::Main),
        MouseButton::Right => Some(MouseEventButton::Secondary),
        MouseButton::Middle => Some(MouseEventButton::Auxiliary),
        MouseButton::Back => Some(MouseEventButton::Fourth),
        MouseButton::Forward => Some(MouseEventButton::Fifth),
        MouseButton::Other(_) => None,
    }
}

/// The bit that stands for a button among the held buttons.
pub fn buttons_of(button: MouseEventButton) -> (bit: u8)
    ensures
        bit == button_bit(button),
{
    match button {
        MouseEventButton::Main => 1,
        MouseEventButton::Secondary => 2,
        MouseEventButton::Auxiliary => 4,
        MouseEventButton::Fourth => 8,
        MouseEventButton::Fifth => 16,
    }
}

impl<P: Copy, M: Copy> MouseState<P, M> {
    /// Notes that the pointer has moved and says what the document is told.
    pub fn cursor_moved(&mut self, position: P) -> (event: UiEvent<P, M>)
        ensures
            *final(self) == old(self).moved(position),
            event == old(self).move_event(position),
    {
        self.position = position;
        UiEvent::MouseMove(
            BlitzMouseButtonEvent {
                position,
                button: MouseEventButton::Main,
                buttons: self.buttons,
                mods: self.mods,
            },
        )
    }

    /// Notes that a button has gone down or up and says what the document
    /// is told.
    pub fn button_changed(&mut self, button: MouseButton, state: ButtonState) -> (event: Option<
        UiEvent<P, M>,
    >)
        ensures
            *final(self) == old(self).switched(button, state),
            event == old(self).switch_event(button, state),
    {
        match blitz_button(button) {
            Some(known) => {
                let bit = buttons_of(known);
                match state {
                    ButtonState::Pressed => {
                        self.buttons = self.buttons | bit;
                    },
                    ButtonState::Released => {
                        self.buttons = self.buttons & !bit;
                    },
                }
                let event = BlitzMouseButtonEvent {
                    position: self.position,
                    button: known,
                    buttons: self.buttons,
                    mods: self.mods,
                };
                Some(
                    match state {
                        ButtonState::Pressed => UiEvent::MouseDown(event),
                        ButtonState::Released => UiEvent::MouseUp(event),
                    },
                )
            },
            None => None,
        }
    }
}

/// Takes in what the window reported since the last call: first every move
/// of the pointer, then every change of a button, each oldest first.
/// Returns what the document is told, in that order.
pub fn handle_mouse_events<P: Copy, M: Copy>(
    mouse_state: &mut MouseState<P, M>,
    cursor_moved: Vec<P>,
    mouse_button_input_events: Vec<(MouseButton, ButtonState)>,
) -> (events: Vec<UiEvent<P, M>>)
    ensures
        *final(mouse_state) == old(mouse_state).moved_all(cursor_moved@).switched_all(
            mouse_button_input_events@,
        ),
        events@.len() >= cursor_moved@.len(),
        forall|i: int|
            0 <= i < cursor_moved@.len() ==> #[trigger] events@[i] == old(mouse_state).move_event(
                cursor_moved@[i],
            ),
        events@.skip(cursor_moved@.len() as int) == old(mouse_state).moved_all(
            cursor_moved@,
        ).switch_events(mouse_button_input_events@),
{
    let ghost start = *mouse_state;
    let mut events: Vec<UiEvent<P, M>> = Vec::new();
    for position in it: cursor_moved.into_iter()
        invariant
            it.seq() == cursor_moved@,
            *mouse_state == start.moved_all(it.seq().take(it.index() as int)),
            events@.len() == it.index(),
            forall|i: int|
                0 <= i < it.index() ==> #[trigger] events@[i] == start.move_event(
                    cursor_moved@[i],
                ),
    {
        proof {
            assert(it.seq().take(it.index() + 1).last() == position);
        }
        let event = mouse_state.cursor_moved(position);
        events.push(event);
    }
    proof {
        assert(cursor_moved@.take(cursor_moved@.len() as int) == cursor_moved@);
    }
    let ghost midway = *mouse_state;
    let ghost told = events@;
    for input in it: mouse_button_input_events.into_iter()
        invariant
            it.seq() == mouse_button_input_events@,
            told.len() == cursor_moved@.len(),
            *mouse_state == midway.switched_all(it.seq().take(it.index() as int)),
            events@ == told + midway.switch_events(it.seq().take(it.index() as int)),
    {
        proof {
            let done = it.seq().take(it.index() + 1);
            assert(done.drop_last() == it.seq().take(it.index() as int));
            assert(done.last() == input);
        }
        match mouse_state.button_changed(input.0, input.1) {
            Some(event) => {
                events.push(event);
            },
            None => {},
        }
    }
    proof {
        assert(mouse_button_input_events@.take(mouse_button_input_events@.len() as int)
            == mouse_button_input_events@);
        assert(events@.skip(told.len() as int) =~= midway.switch_events(
            mouse_button_input_events@,
        ));
    }
    events
}

} // verus!
