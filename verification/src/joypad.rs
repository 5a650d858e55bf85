use vstd::prelude::*;

verus! {

/// The eight buttons of the console.
#[derive(Clone, Copy, PartialEq, Eq, Structural)]
pub enum Button {
    Up,
    Down,
    Left,
    Right,
    A,
    B,
    Start,
    Select,
}

/// The slot of a button in the pressed-state table.
pub open spec fn button_slot(button: Button) -> int {
    match button {
        Button::Up => 0,
        Button::Down => 1,
        Button::Left => 2,
        Button::Right => 3,
        Button::A => 4,
        Button::B => 5,
        Button::Start => 6,
        Button::Select => 7,
    }
}

/// Whether the button belongs to the direction pad (else it is an action button).
pub open spec fn is_direction(button: Button) -> bool {
    button_slot(button) < 4
}

/// The bit of the joypad register's low nibble that reports the button.
pub open spec fn button_bit(button: Button) -> u8 {
    match button {
        Button::Right | Button::A => 0x01,
        Button::Left | Button::B => 0x02,
        Button::Up | Button::Select => 0x04,
        Button::Down | Button::Start => 0x08,
    }
}

fn button_index(button: Button) -> (r: usize)
    ensures
        r == button_slot(button),
{
    match button {
        Button::Up => 0,
        Button::Down => 1,
        Button::Left => 2,
        Button::Right => 3,
        Button::A => 4,
        Button::B => 5,
        Button::Start => 6,
        Button::Select => 7,
    }
}

/// Which group of buttons the joypad register reports.
#[derive(Clone, Copy, PartialEq, Eq, Structural)]
pub enum Selection {
    Direction,
    Buttons,
}

/// The low nibble for four buttons, bit `i` low while button `i` is held.
pub open spec fn nibble(b0: bool, b1: bool, b2: bool, b3: bool) -> u8 {
    ((if b0 { 0int } else { 1 }) + (if b1 { 0int } else { 2 }) + (if b2 { 0int } else { 4 }) + (
    if b3 { 0int } else { 8 })) as u8
}

pub struct Joypad {
    pub selection: Selection,
    pub buttons: [bool; 8],
    pub flag: u8,
}

impl Joypad {
    /// Whether the button is held.
    pub open spec fn held(&self, button: Button) -> bool {
        self.buttons@[button_slot(button)]
    }

    /// The low nibble of the joypad register.
    pub open spec fn low_nibble(&self) -> u8 {
        match self.selection {
            Selection::Direction => nibble(
                self.held(Button::Right),
                self.held(Button::Left),
                self.held(Button::Up),
                self.held(Button::Down),
            ),
            Selection::Buttons => nibble(
                self.held(Button::A),
                self.held(Button::B),
                self.held(Button::Select),
                self.held(Button::Start),
            ),
        }
    }

    /// What reading the joypad register gives.
    pub open spec fn register(&self) -> u8 {
        ((self.flag & 0xf0) + self.low_nibble()) as u8
    }

    pub fn new() -> (r: Self)
        ensures
            r.selection == Selection::Direction,
            forall|i: int| 0 <= i < 8 ==> !r.buttons@[i],
            r.flag == 0xff,
    {
        Self { selection: Selection::Direction, buttons: [false;8], flag: 0xff }
    }

    pub fn press(&mut self, button: Button)
        ensures
            final(self).buttons@ == old(self).buttons@.update(button_slot(button), true),
            final(self).selection == old(self).selection,
            final(self).flag == old(self).flag,
    {
        let i = button_index(button);
        self.buttons[i] = true;
    }

    pub fn release(&mut self, button: Button)
        ensures
            final(self).buttons@ == old(self).buttons@.update(button_slot(button), false),
            final(self).selection == old(self).selection,
            final(self).flag == old(self).flag,
    {
        let i = button_index(button);
        self.buttons[i] = false;
    }

    /// How a write of `flag` to the joypad register takes the joypad to `post`.
    pub open spec fn selected(self, post: Joypad, flag: u8) -> bool {
        &&& post.selection == (if flag & 0x10 == 0 {
            Selection::Direction
        } else if flag & 0x20 == 0 {
            Selection::Buttons
        } else {
            self.selection
        })
        &&& post.flag == flag & 0xf0
        &&& post.buttons == self.buttons
    }

    /// A write to the joypad register: bit 4 low selects the direction pad,
    /// else bit 5 low selects the action buttons.
    pub fn select(&mut self, flag: u8)
        ensures
            old(self).selected(*final(self), flag),
    {
        if flag & 0x10 == 0 {
            self.selection = Selection::Direction;
        } else if flag & 0x20 == 0 {
            self.selection = Selection::Buttons;
        }
        self.flag = flag & 0xf0;
    }

    pub fn value(&self) -> (r: u8)
        ensures
            r == self.register(),
    {
        let (b0, b1, b2, b3) = match self.selection {
            Selection::Direction => (self.buttons[3], self.buttons[2], self.buttons[0], self.buttons[1]),
            Selection::Buttons => (self.buttons[4], self.buttons[5], self.buttons[7], self.buttons[6]),
        };
        let low: u8 = (if !b0 { 0x01u8 } else { 0 }) | (if !b1 { 0x02u8 } else { 0 }) | (if !b2 {
            0x04u8
        } else {
            0
        }) | (if !b3 { 0x08u8 } else { 0 });
        let high: u8 = self.flag & 0xf0;
        proof {
            lemma_nibble_or(b0, b1, b2, b3);
            assert(low == nibble(b0, b1, b2, b3));
            let n = low;
            let f = self.flag;
            assert(n < 16 ==> ((f & 0xf0) | n) == (f & 0xf0) + n) by (bit_vector);
        }
        high | low
    }
}

proof fn lemma_nibble_or(b0: bool, b1: bool, b2: bool, b3: bool)
    ensures
        ((if !b0 { 0x01u8 } else { 0u8 }) | (if !b1 { 0x02u8 } else { 0u8 }) | (if !b2 {
            0x04u8
        } else {
            0u8
        }) | (if !b3 { 0x08u8 } else { 0u8 })) == nibble(b0, b1, b2, b3),
        nibble(b0, b1, b2, b3) < 16,
{
    assert(((if !b0 { 0x01u8 } else { 0u8 }) | (if !b1 { 0x02u8 } else { 0u8 }) | (if !b2 {
        0x04u8
    } else {
        0u8
    }) | (if !b3 { 0x08u8 } else { 0u8 })) == ((if b0 { 0u8 } else { 1u8 }) + (if b1 {
        0u8
    } else {
        2u8
    }) + (if b2 { 0u8 } else { 4u8 }) + (if b3 { 0u8 } else { 8u8 }))) by (bit_vector);
}

proof fn lemma_register_bits(g: u8, x: bool, y: bool, z: bool, w: bool)
    ensures
        ({
            let r = ((g & 0xf0) + nibble(x, y, z, w)) as u8;
            &&& ((r & 0x01) == 0) == x
            &&& ((r & 0x02) == 0) == y
            &&& ((r & 0x04) == 0) == z
            &&& ((r & 0x08) == 0) == w
            &&& (r & 0xf0) == g & 0xf0
        }),
{
    let a: u8 = if x { 0u8 } else { 1u8 };
    let b: u8 = if y { 0u8 } else { 2u8 };
    let c: u8 = if z { 0u8 } else { 4u8 };
    let d: u8 = if w { 0u8 } else { 8u8 };
    assert(nibble(x, y, z, w) == a + b + c + d);
    assert((a == 0u8 || a == 1u8) && (b == 0u8 || b == 2u8) && (c == 0u8 || c == 4u8) && (d == 0u8
        || d == 8u8) ==> ({
        let r = ((g & 0xf0) + (a + b + c + d)) as u8;
        &&& ((r & 0x01) == 0) == (a == 0u8)
        &&& ((r & 0x02) == 0) == (b == 0u8)
        &&& ((r & 0x04) == 0) == (c == 0u8)
        &&& ((r & 0x08) == 0) == (d == 0u8)
        &&& (r & 0xf0) == g & 0xf0
    })) by (bit_vector);
}

/// Holding a button clears its bit in the joypad register while its group is
/// selected, and letting it go sets the bit again; the high nibble is what
/// was last selected.
pub proof fn lemma_button_reads_back(j: Joypad, k: Joypad, button: Button, down: bool)
    requires
        (j.selection == Selection::Direction) == is_direction(button),
        k.buttons@ == j.buttons@.update(button_slot(button), down),
        k.selection == j.selection,
        k.flag == j.flag,
    ensures
        ((k.register() & button_bit(button)) == 0) == down,
        (k.register() & 0xf0) == j.flag & 0xf0,
{
    assert(k.held(button) == down);
    match k.selection {
        Selection::Direction => lemma_register_bits(
            k.flag,
            k.held(Button::Right),
            k.held(Button::Left),
            k.held(Button::Up),
            k.held(Button::Down),
        ),
        Selection::Buttons => lemma_register_bits(
            k.flag,
            k.held(Button::A),
            k.held(Button::B),
            k.held(Button::Select),
            k.held(Button::Start),
        ),
    }
}

} // verus!
