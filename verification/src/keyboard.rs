use std::collections::VecDeque;
use vstd::prelude::*;

verus! {

/// The most key events the controller holds.
pub const FIFO_CAPACITY: usize = 16;

/// The byte queued for a key event: the key's ASCII code with bit 7 set when
/// the key is pressed and cleared when it is released.
pub open spec fn key_event_value(ascii: u8, pressed: bool) -> u8 {
    if pressed {
        ascii | 0x80
    } else {
        ascii & 0x7F
    }
}

/// The queue after a key event: the event's byte appended, unless the queue
/// is full, in which case the event is dropped.
pub open spec fn queue_after_push(queue: Seq<u8>, ascii: u8, pressed: bool) -> Seq<u8> {
    if queue.len() < FIFO_CAPACITY {
        queue.push(key_event_value(ascii, pressed))
    } else {
        queue
    }
}

/// A keyboard controller: a first-in first-out queue of key event bytes.
pub struct KeyboardController {
    fifo: VecDeque<u8>,
}

impl View for KeyboardController {
    type V = Seq<u8>;

    /// The queued bytes, oldest first.
    closed spec fn view(&self) -> Seq<u8> {
        self.fifo@
    }
}

impl KeyboardController {
    /// The queue holds at most `FIFO_CAPACITY` bytes.
    pub open spec fn wf(&self) -> bool {
        self@.len() <= FIFO_CAPACITY
    }

    /// An empty controller.
    pub fn new() -> (kb: Self)
        ensures
            kb@ == Seq::<u8>::empty(),
            kb.wf(),
    {
        KeyboardController { fifo: VecDeque::with_capacity(16) }
    }

    /// Queues a key event, dropping it when the queue is full.
    pub fn push_key(&mut self, ascii: u8, pressed: bool)
        requires
            old(self).wf(),
        ensures
            final(self)@ == queue_after_push(old(self)@, ascii, pressed),
            final(self).wf(),
    {
        let value: u8 = if pressed {
            ascii | 0x80
        } else {
            ascii & 0x7F
        };
        if self.fifo.len() < 16 {
            self.fifo.push_back(value);
        }
    }

    /// Takes the oldest queued byte, if any.
    pub fn read_data(&mut self) -> (value: Option<u8>)
        requires
            old(self).wf(),
        ensures
            final(self).wf(),
            old(self)@.len() > 0 ==> value == Some(old(self)@[0]) && final(self)@ == old(
                self,
            )@.drop_first(),
            old(self)@.len() == 0 ==> value.is_none() && final(self)@ == old(self)@,
    {
        let value = self.fifo.pop_front();
        proof {
            if old(self)@.len() > 0 {
                assert(self@ =~= old(self)@.drop_first());
            }
        }
        value
    }

    /// Whether a byte is waiting.
    pub fn status(&self) -> (waiting: bool)
        ensures
            waiting == (self@.len() > 0),
    {
        self.fifo.len() != 0
    }
}

/// Keys as the keyboard controller's host reports them: the letters, space,
/// return and the digits of the main row; every other key is `Other`.
#[derive(Clone, Copy, Debug, PartialEq, Eq, Structural)]
pub enum Key {
    A,
    B,
    C,
    D,
    E,
    F,
    G,
    H,
    I,
    J,
    K,
    L,
    M,
    N,
    O,
    P,
    Q,
    R,
    S,
    T,
    U,
    V,
    W,
    X,
    Y,
    Z,
    Space,
    Return,
    Key1,
    Key2,
    Key3,
    Key4,
    Key5,
    Key6,
    Key7,
    Key8,
    Key9,
    Key0,
    Other,
}

/// The ASCII code of a key: upper-case letters, space, newline for return,
/// the digit characters; none for any other key.
pub open spec fn key_ascii(key: Key) -> Option<u8> {
    match key {
        Key::A => Some(65u8),
        Key::B => Some(66u8),
        Key::C => Some(67u8),
        Key::D => Some(68u8),
        Key::E => Some(69u8),
        Key::F => Some(70u8),
        Key::G => Some(71u8),
        Key::H => Some(72u8),
        Key::I => Some(73u8),
        Key::J => Some(74u8),
        Key::K => Some(75u8),
        Key::L => Some(76u8),
        Key::M => Some(77u8),
        Key::N => Some(78u8),
        Key::O => Some(79u8),
        Key::P => Some(80u8),
        Key::Q => Some(81u8),
        Key::R => Some(82u8),
        Key::S => Some(83u8),
        Key::T => Some(84u8),
        Key::U => Some(85u8),
        Key::V => Some(86u8),
        Key::W => Some(87u8),
        Key::X => Some(88u8),
        Key::Y => Some(89u8),
        Key::Z => Some(90u8),
        Key::Space => Some(32u8),
        Key::Return => Some(10u8),
        Key::Key1 => Some(49u8),
        Key::Key2 => Some(50u8),
        Key::Key3 => Some(51u8),
        Key::Key4 => Some(52u8),
        Key::Key5 => Some(53u8),
        Key::Key6 => Some(54u8),
        Key::Key7 => Some(55u8),
        Key::Key8 => Some(56u8),
        Key::Key9 => Some(57u8),
        Key::Key0 => Some(48u8),
        Key::Other => None,
    }
}

/// The ASCII code of a key, if it has one.
pub fn key_to_ascii(key: Key) -> (ascii: Option<u8>)
    ensures
        ascii == key_ascii(key),
{
    match key {
        Key::A => Some('A' as u8),
        Key::B => Some('B' as u8),
        Key::C => Some('C' as u8),
        Key::D => Some('D' as u8),
        Key::E => Some('E' as u8),
        Key::F => Some('F' as u8),
        Key::G => Some('G' as u8),
        Key::H => Some('H' as u8),
        Key::I => Some('I' as u8),
        Key::J => Some('J' as u8),
        Key::K => Some('K' as u8),
        Key::L => Some('L' as u8),
        Key::M => Some('M' as u8),
        Key::N => Some('N' as u8),
        Key::O => Some('O' as u8),
        Key::P => Some('P' as u8),
        Key::Q => Some('Q' as u8),
        Key::R => Some('R' as u8),
        Key::S => Some('S' as u8),
        Key::T => Some('T' as u8),
        Key::U => Some('U' as u8),
        Key::V => Some('V' as u8),
        Key::W => Some('W' as u8),
        Key::X => Some('X' as u8),
        Key::Y => Some('Y' as u8),
        Key::Z => Some('Z' as u8),
        Key::Space => Some(' ' as u8),
        Key::Return => Some('\n' as u8),
        Key::Key1 => Some('1' as u8),
        Key::Key2 => Some('2' as u8),
        Key::Key3 => Some('3' as u8),
        Key::Key4 => Some('4' as u8),
        Key::Key5 => Some('5' as u8),
        Key::Key6 => Some('6' as u8),
        Key::Key7 => Some('7' as u8),
        Key::Key8 => Some('8' as u8),
        Key::Key9 => Some('9' as u8),
        Key::Key0 => Some('0' as u8),
        Key::Other => None,
    }
}

/// The queued byte tells whether the key was pressed (bit 7) and keeps the
/// low seven bits of the key's code.
pub proof fn lemma_key_event_bits(ascii: u8, pressed: bool)
    ensures
        (key_event_value(ascii, pressed) & 0x80 != 0) == pressed,
        key_event_value(ascii, pressed) & 0x7F == ascii & 0x7F,
{
    if pressed {
        assert((ascii | 0x80) & 0x80 != 0 && (ascii | 0x80) & 0x7F == ascii & 0x7F) by (bit_vector);
    } else {
        assert((ascii & 0x7F) & 0x80 == 0 && (ascii & 0x7F) & 0x7F == ascii & 0x7F) by (bit_vector);
    }
}

/// First in, first out: after a key event is queued, the oldest byte is the
/// one read next; the event itself is read first when the queue was empty.
pub proof fn lemma_fifo_order(queue: Seq<u8>, ascii: u8, pressed: bool)
    requires
        queue.len() <= FIFO_CAPACITY,
    ensures
        queue.len() > 0 ==> queue_after_push(queue, ascii, pressed)[0] == queue[0],
        queue.len() == 0 ==> queue_after_push(queue, ascii, pressed) == seq![
            key_event_value(ascii, pressed),
        ],
        queue_after_push(queue, ascii, pressed).len() <= FIFO_CAPACITY,
{
    if queue.len() == 0 {
        assert(queue_after_push(queue, ascii, pressed) =~= seq![key_event_value(ascii, pressed)]);
    }
}

} // verus!

verus! {

/// The letter keys in alphabet order.
pub open spec fn letter_keys() -> Seq<Key> {
    seq![
        Key::A, Key::B, Key::C, Key::D, Key::E, Key::F, Key::G, Key::H, Key::I, Key::J, Key::K,
        Key::L, Key::M, Key::N, Key::O, Key::P, Key::Q, Key::R, Key::S, Key::T, Key::U, Key::V,
        Key::W, Key::X, Key::Y, Key::Z,
    ]
}

/// The digit keys in numeric order, `Key0` first.
pub open spec fn digit_keys() -> Seq<Key> {
    seq![
        Key::Key0, Key::Key1, Key::Key2, Key::Key3, Key::Key4, Key::Key5, Key::Key6, Key::Key7,
        Key::Key8, Key::Key9,
    ]
}

/// The `i`-th letter key of the alphabet gives the `i`-th upper-case ASCII
/// letter, and the digit key for `i` gives the ASCII digit `i`.
pub proof fn lemma_key_codes_in_order()
    ensures
        forall|i: int| 0 <= i < 26 ==> #[trigger] key_ascii(letter_keys()[i]) == Some((65 + i) as u8),
        forall|i: int| 0 <= i < 10 ==> #[trigger] key_ascii(digit_keys()[i]) == Some((48 + i) as u8),
        key_ascii(Key::Space) == Some(32u8),
        key_ascii(Key::Return) == Some(10u8),
        key_ascii(Key::Other) is None,
{
}

/// Distinct keys have distinct codes, and no letter key has a digit's code.
pub proof fn lemma_key_codes_distinct(k1: Key, k2: Key)
    ensures
        k1 != k2 && key_ascii(k1) is Some ==> key_ascii(k1) != key_ascii(k2),
        key_ascii(k1) matches Some(c) ==> (65 <= c <= 90 || 48 <= c <= 57 || c == 32 || c == 10),
{
}

} // verus!
