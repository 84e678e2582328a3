//! The PS/2 keyboard: scancodes to bytes, and the buffer that holds them.

use vstd::prelude::*;

verus! {

pub const DATA_PORT: u16 = 0x60;

/// Slots of the ring buffer. One slot stays free, so it holds 255 bytes.
pub const BUFFER_SIZE: usize = 256;

/// What the keyboard remembers: the bytes not yet read, and the modifiers.
pub struct KeyboardState {
    pub buffer: Vec<u8>,
    pub head: usize,
    pub tail: usize,
    pub shift: bool,
    pub caps_lock: bool,
}

impl View for KeyboardState {
    type V = Seq<u8>;

    /// The bytes that wait to be read, the oldest first.
    open spec fn view(&self) -> Seq<u8> {
        if self.head <= self.tail {
            self.buffer@.subrange(self.head as int, self.tail as int)
        } else {
            self.buffer@.subrange(self.head as int, BUFFER_SIZE as int) + self.buffer@.subrange(
                0,
                self.tail as int,
            )
        }
    }
}

impl KeyboardState {
    pub open spec fn wf(&self) -> bool {
        &&& self.buffer@.len() == BUFFER_SIZE
        &&& self.head < BUFFER_SIZE
        &&& self.tail < BUFFER_SIZE
    }

    pub fn new() -> (state: KeyboardState)
        ensures
            state.wf(),
            state@.len() == 0,
            !state.shift,
            !state.caps_lock,
    {
        KeyboardState {
            buffer: vec![0u8; BUFFER_SIZE],
            head: 0,
            tail: 0,
            shift: false,
            caps_lock: false,
        }
    }

    /// Appends a byte. A full buffer drops its oldest byte to make room.
    /// Returns the byte that was dropped, if one was.
    pub fn push(&mut self, byte: u8) -> (dropped: Option<u8>)
        requires
            old(self).wf(),
        ensures
            final(self).wf(),
            final(self).shift == old(self).shift,
            final(self).caps_lock == old(self).caps_lock,
            old(self)@.len() < BUFFER_SIZE - 1 ==> dropped is None && final(self)@ == old(self)@.push(byte),
            old(self)@.len() == BUFFER_SIZE - 1 ==> dropped == Some(old(self)@[0]) && final(self)@
                == old(self)@.drop_first().push(byte),
    {
        let mut dropped = None;
        if self.is_full() {
            dropped = Some(self.buffer[self.head]);
            self.head = (self.head + 1) % BUFFER_SIZE;
        }
        let ghost middle = self@;
        assert(dropped is Some ==> middle =~= old(self)@.drop_first());
        let tail = self.tail;
        self.buffer[tail] = byte;
        self.tail = (self.tail + 1) % BUFFER_SIZE;
        assert(self@ =~= middle.push(byte));
        dropped
    }

    /// Takes the oldest byte, if there is one.
    pub fn pop(&mut self) -> (byte: Option<u8>)
        requires
            old(self).wf(),
        ensures
            final(self).wf(),
            final(self).shift == old(self).shift,
            final(self).caps_lock == old(self).caps_lock,
            old(self)@.len() == 0 ==> byte is None && final(self)@ == old(self)@,
            old(self)@.len() > 0 ==> byte == Some(old(self)@[0]) && final(self)@ == old(self)@.drop_first(),
    {
        if self.is_empty() {
            return None;
        }
        let byte = self.buffer[self.head];
        self.head = (self.head + 1) % BUFFER_SIZE;
        assert(self@ =~= old(self)@.drop_first());
        Some(byte)
    }

    pub fn is_empty(&self) -> (empty: bool)
        requires
            self.wf(),
        ensures
            empty <==> self@.len() == 0,
    {
        self.head == self.tail
    }

    pub fn is_full(&self) -> (full: bool)
        requires
            self.wf(),
        ensures
            full <==> self@.len() == BUFFER_SIZE - 1,
    {
        (self.tail + 1) % BUFFER_SIZE == self.head
    }
}

/// The letter on the key with the given scancode, in lower case.
pub open spec fn spec_letter(scancode: u8) -> Option<u8> {
    match scancode {
        0x10 => Some(0x71u8),
        0x11 => Some(0x77u8),
        0x12 => Some(0x65u8),
        0x13 => Some(0x72u8),
        0x14 => Some(0x74u8),
        0x15 => Some(0x79u8),
        0x16 => Some(0x75u8),
        0x17 => Some(0x69u8),
        0x18 => Some(0x6Fu8),
        0x19 => Some(0x70u8),
        0x1E => Some(0x61u8),
        0x1F => Some(0x73u8),
        0x20 => Some(0x64u8),
        0x21 => Some(0x66u8),
        0x22 => Some(0x67u8),
        0x23 => Some(0x68u8),
        0x24 => Some(0x6Au8),
        0x25 => Some(0x6Bu8),
        0x26 => Some(0x6Cu8),
        0x2C => Some(0x7Au8),
        0x2D => Some(0x78u8),
        0x2E => Some(0x63u8),
        0x2F => Some(0x76u8),
        0x30 => Some(0x62u8),
        0x31 => Some(0x6Eu8),
        0x32 => Some(0x6Du8),
        _ => None,
    }
}

/// The byte that a letter key gives: upper case when exactly one of shift
/// and caps lock is on.
pub open spec fn spec_map_letter(scancode: u8, shift: bool, caps: bool) -> Option<u8> {
    match spec_letter(scancode) {
        None => None,
        Some(letter) => if shift != caps {
            Some((letter - 0x20) as u8)
        } else {
            Some(letter)
        },
    }
}

/// The two bytes on a symbol key: without and with shift.
pub open spec fn spec_symbol(scancode: u8) -> Option<(u8, u8)> {
    match scancode {
        0x02 => Some((0x31u8, 0x21u8)),
        0x03 => Some((0x32u8, 0x40u8)),
        0x04 => Some((0x33u8, 0x23u8)),
        0x05 => Some((0x34u8, 0x24u8)),
        0x06 => Some((0x35u8, 0x25u8)),
        0x07 => Some((0x36u8, 0x5Eu8)),
        0x08 => Some((0x37u8, 0x26u8)),
        0x09 => Some((0x38u8, 0x2Au8)),
        0x0A => Some((0x39u8, 0x28u8)),
        0x0B => Some((0x30u8, 0x29u8)),
        0x0C => Some((0x2Du8, 0x5Fu8)),
        0x0D => Some((0x3Du8, 0x2Bu8)),
        0x1A => Some((0x5Bu8, 0x7Bu8)),
        0x1B => Some((0x5Du8, 0x7Du8)),
        0x27 => Some((0x3Bu8, 0x3Au8)),
        0x28 => Some((0x27u8, 0x22u8)),
        0x29 => Some((0x60u8, 0x7Eu8)),
        0x2B => Some((0x5Cu8, 0x7Cu8)),
        0x33 => Some((0x2Cu8, 0x3Cu8)),
        0x34 => Some((0x2Eu8, 0x3Eu8)),
        0x35 => Some((0x2Fu8, 0x3Fu8)),
        _ => None,
    }
}

/// The byte that a symbol key gives.
pub open spec fn spec_map_symbol(scancode: u8, shift: bool) -> Option<u8> {
    match spec_symbol(scancode) {
        None => None,
        Some((plain, shifted)) => Some(if shift { shifted } else { plain }),
    }
}

/// What a key press does: the modifiers afterwards, and the byte it gives.
pub open spec fn spec_translate_scancode(scancode: u8, shift: bool, caps: bool) -> (
    bool,
    bool,
    Option<u8>,
) {
    if scancode == 0x2A || scancode == 0x36 {
        (true, caps, None)
    } else if scancode == 0x3A {
        (shift, !caps, None)
    } else if scancode == 0x1C {
        (shift, caps, Some(0x0Au8))
    } else if scancode == 0x0E {
        (shift, caps, Some(0x08u8))
    } else if scancode == 0x0F {
        (shift, caps, Some(0x09u8))
    } else if scancode == 0x39 {
        (shift, caps, Some(0x20u8))
    } else if spec_letter(scancode) is Some {
        (shift, caps, spec_map_letter(scancode, shift, caps))
    } else {
        (shift, caps, spec_map_symbol(scancode, shift))
    }
}

/// Starts the keyboard, once: the first call asks for the keyboard's
/// interrupt to be hooked up and switched on, later calls ask for nothing.
/// Returns whether this call was the first.
pub fn init(initialized: &mut bool) -> (first: bool)
    ensures
        first == !*old(initialized),
        *final(initialized),
{
    if *initialized {
        return false;
    }
    *initialized = true;
    true
}

/// Hands the oldest waiting byte to `buf`. Never waits: returns 0 where no
/// byte waits or `buf` has no room.
pub fn read(state: &mut KeyboardState, buf: &mut [u8]) -> (count: usize)
    requires
        old(state).wf(),
    ensures
        final(state).wf(),
        final(buf)@.len() == old(buf)@.len(),
        final(state).shift == old(state).shift,
        final(state).caps_lock == old(state).caps_lock,
        old(buf)@.len() == 0 || old(state)@.len() == 0 ==> count == 0 && final(state)@ == old(state)@ && final(buf)@ == old(buf)@,
        old(buf)@.len() > 0 && old(state)@.len() > 0 ==> count == 1 && final(state)@ == old(state)@.drop_first() && final(buf)@ == old(buf)@.update(0, old(state)@[0]),
{
    if buf.len() == 0 {
        return 0;
    }
    match state.pop() {
        Some(byte) => {
            buf[0] = byte;
            1
        },
        None => 0,
    }
}

/// What taking in one scancode does to the keyboard, and whether a byte
/// was put in its buffer.
pub open spec fn key_taken(before: KeyboardState, after: KeyboardState, scancode: u8, pushed: bool) -> bool {
    &&& after.wf()
    &&& scancode & 0x80 != 0 ==> !pushed && after@ == before@ && after.caps_lock == before.caps_lock && after.shift == (before.shift && !(
    scancode & 0x7F == 0x2A || scancode & 0x7F == 0x36))
    &&& scancode & 0x80 == 0 ==> ({
        let (shift, caps, byte) = spec_translate_scancode(
            scancode,
            before.shift,
            before.caps_lock,
        );
        &&& after.shift == shift
        &&& after.caps_lock == caps
        &&& pushed == byte is Some
        &&& byte is None ==> after@ == before@
        &&& byte matches Some(b) ==> after@ == (if before@.len() == BUFFER_SIZE - 1 {
            before@.drop_first()
        } else {
            before@
        }).push(b)
    })
}

/// Takes in one scancode from the keyboard. A release (bit 7 set) of a shift
/// key ends shift; a press changes the modifiers or gives a byte, which is
/// put in the buffer. Returns whether a byte was put in: readers that wait
/// for the keyboard are then to be woken.
pub fn keyboard_handler(state: &mut KeyboardState, scancode: u8) -> (pushed: bool)
    requires
        old(state).wf(),
    ensures
        key_taken(*old(state), *final(state), scancode, pushed),
{
    if scancode & 0x80 != 0 {
        handle_key_release(state, scancode & 0x7F);
        false
    } else {
        match translate_scancode(state, scancode) {
            Some(byte) => {
                let _ = state.push(byte);
                true
            },
            None => false,
        }
    }
}

/// A shift key that is let go ends shift. No other key matters.
pub fn handle_key_release(state: &mut KeyboardState, scancode: u8)
    ensures
        final(state).shift == (old(state).shift && !(scancode == 0x2A || scancode == 0x36)),
        final(state).caps_lock == old(state).caps_lock,
        final(state).buffer == old(state).buffer,
        final(state).head == old(state).head,
        final(state).tail == old(state).tail,
{
    match scancode {
        0x2A | 0x36 => {
            state.shift = false;
        },
        _ => {},
    }
}

/// Turns a key press into a byte, or into a change of the modifiers.
pub fn translate_scancode(state: &mut KeyboardState, scancode: u8) -> (byte: Option<u8>)
    ensures
        (final(state).shift, final(state).caps_lock, byte) == spec_translate_scancode(
            scancode,
            old(state).shift,
            old(state).caps_lock,
        ),
        final(state).buffer == old(state).buffer,
        final(state).head == old(state).head,
        final(state).tail == old(state).tail,
{
    match scancode {
        0x2A | 0x36 => {
            state.shift = true;
            None
        },
        0x3A => {
            state.caps_lock = !state.caps_lock;
            None
        },
        0x1C => Some(0x0A),
        0x0E => Some(0x08),
        0x0F => Some(0x09),
        0x39 => Some(0x20),
        0x10..=0x19 | 0x1E..=0x26 | 0x2C..=0x32 => map_letter(scancode, state.shift, state.caps_lock),
        _ => map_symbol(scancode, state.shift),
    }
}

/// The three rows of letter keys, each from its first scancode on.
pub fn map_letter(scancode: u8, shift: bool, caps: bool) -> (byte: Option<u8>)
    ensures
        byte == spec_map_letter(scancode, shift, caps),
{
    let top: [u8; 10] = [0x71, 0x77, 0x65, 0x72, 0x74, 0x79, 0x75, 0x69, 0x6F, 0x70];
    let home: [u8; 9] = [0x61, 0x73, 0x64, 0x66, 0x67, 0x68, 0x6A, 0x6B, 0x6C];
    let bottom: [u8; 7] = [0x7A, 0x78, 0x63, 0x76, 0x62, 0x6E, 0x6D];
    let letter = if scancode >= 0x10 && scancode <= 0x19 {
        top[(scancode - 0x10) as usize]
    } else if scancode >= 0x1E && scancode <= 0x26 {
        home[(scancode - 0x1E) as usize]
    } else if scancode >= 0x2C && scancode <= 0x32 {
        bottom[(scancode - 0x2C) as usize]
    } else {
        return None;
    };
    let use_shift = shift ^ caps;
    let ch = if use_shift { letter - 0x20 } else { letter };
    Some(ch)
}

/// The digit and punctuation keys.
pub fn map_symbol(scancode: u8, shift: bool) -> (byte: Option<u8>)
    ensures
        byte == spec_map_symbol(scancode, shift),
{
    let byte: u8 = match scancode {
        0x02 => if shift { 0x21 } else { 0x31 },
        0x03 => if shift { 0x40 } else { 0x32 },
        0x04 => if shift { 0x23 } else { 0x33 },
        0x05 => if shift { 0x24 } else { 0x34 },
        0x06 => if shift { 0x25 } else { 0x35 },
        0x07 => if shift { 0x5E } else { 0x36 },
        0x08 => if shift { 0x26 } else { 0x37 },
        0x09 => if shift { 0x2A } else { 0x38 },
        0x0A => if shift { 0x28 } else { 0x39 },
        0x0B => if shift { 0x29 } else { 0x30 },
        0x0C => if shift { 0x5F } else { 0x2D },
        0x0D => if shift { 0x2B } else { 0x3D },
        0x1A => if shift { 0x7B } else { 0x5B },
        0x1B => if shift { 0x7D } else { 0x5D },
        0x27 => if shift { 0x3A } else { 0x3B },
        0x28 => if shift { 0x22 } else { 0x27 },
        0x29 => if shift { 0x7E } else { 0x60 },
        0x2B => if shift { 0x7C } else { 0x5C },
        0x33 => if shift { 0x3C } else { 0x2C },
        0x34 => if shift { 0x3E } else { 0x2E },
        0x35 => if shift { 0x3F } else { 0x2F },
        _ => 0,
    };
    if byte == 0 {
        None
    } else {
        Some(byte)
    }
}

} // verus!
