use vstd::prelude::*;

use crate::game::definitions::Input;

verus! {

/// Which of the game's keys are held down.
#[derive(Debug)]
pub struct InputKeys {
    pub forward: bool,
    pub backward: bool,
    pub left: bool,
    pub right: bool,
    pub interact: bool,
}

impl InputKeys {
    /// Whether `input` is held down.
    pub open spec fn pressed(self, input: Input) -> bool {
        match input {
            Input::Forward => self.forward,
            Input::Backward => self.backward,
            Input::Left => self.left,
            Input::Right => self.right,
            Input::Interact => self.interact,
        }
    }

    /// Records that `input` was pressed or released; every other key keeps its state.
    pub fn change_input(&mut self, input_type: Input, is_pressed: bool)
        ensures
            final(self).pressed(input_type) == is_pressed,
            forall|other: Input| other != input_type ==> #[trigger] final(self).pressed(other) == old(self).pressed(other),
            final(self).forward == (if input_type == Input::Forward { is_pressed } else { old(self).forward }),
            final(self).backward == (if input_type == Input::Backward { is_pressed } else { old(self).backward }),
            final(self).left == (if input_type == Input::Left { is_pressed } else { old(self).left }),
            final(self).right == (if input_type == Input::Right { is_pressed } else { old(self).right }),
            final(self).interact == (if input_type == Input::Interact { is_pressed } else { old(self).interact }),
    {
        match input_type {
            Input::Forward => self.forward = is_pressed,
            Input::Backward => self.backward = is_pressed,
            Input::Left => self.left = is_pressed,
            Input::Right => self.right = is_pressed,
            Input::Interact => self.interact = is_pressed,
        }
    }
}

impl InputKeys {
    /// Whether this frame performs an interaction: the interact key is held
    /// and there is a player to act. The press is then used up; without a
    /// player it stays pending.
    pub fn take_interact(&mut self, has_player: bool) -> (r: bool)
        ensures
            r == (old(self).interact && has_player),
            final(self).interact == (old(self).interact && !has_player),
            forall|other: Input| other != Input::Interact ==> #[trigger] final(self).pressed(other) == old(self).pressed(other),
    {
        if !self.interact || !has_player {
            return false;
        }
        self.interact = false;
        true
    }
}

impl Default for InputKeys {
    /// No key held down.
    fn default() -> (r: Self)
        ensures
            forall|input: Input| !(#[trigger] r.pressed(input)),
    {
        InputKeys { forward: false, backward: false, left: false, right: false, interact: false }
    }
}

/// Each input names the key field of the same name: `pressed(Input::Left)` is
/// the field `left`, `pressed(Input::Right)` the field `right`, and so on.
pub proof fn lemma_pressed_names_fields(keys: InputKeys)
    ensures
        keys.pressed(Input::Forward) == keys.forward,
        keys.pressed(Input::Backward) == keys.backward,
        keys.pressed(Input::Left) == keys.left,
        keys.pressed(Input::Right) == keys.right,
        keys.pressed(Input::Interact) == keys.interact,
{
}

} // verus!
