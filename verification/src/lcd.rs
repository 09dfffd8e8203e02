use vstd::prelude::*;

use crate::decimal::chars_of;

verus! {

/// The pins of an HD44780 display driven in 4-bit mode.
#[derive(Clone, Copy, Debug, PartialEq, Eq, Structural)]
pub enum Pin {
    /// Register select: low for a command, high for a character.
    RegisterSelect,
    Enable,
    Data4,
    Data5,
    Data6,
    Data7,
}

/// One step on the display's bus: drive a pin, or wait some nanoseconds.
#[derive(Clone, Copy, Debug, PartialEq, Eq, Structural)]
pub enum Signal {
    Drive(Pin, bool),
    Pause(u32),
}

/// Why a message cannot be shown.
#[derive(Clone, Copy, Debug, PartialEq, Eq, Structural)]
pub enum LcdError {
    /// The display has two lines.
    TooManyLines,
    /// The line with this index holds more than 16 characters.
    LineTooLong(usize),
    /// A character has no one-byte code.
    CharOutOfRange,
}

impl LcdError {
    pub open spec fn spec_text(&self) -> Seq<char> {
        match self {
            LcdError::TooManyLines => "Invalid line count. We have only 2 lines on screen"@,
            LcdError::LineTooLong(i) => "Line number "@ + crate::decimal::decimal_text(*i as nat)
                + " has more then 16 allowed characters"@,
            LcdError::CharOutOfRange => "out of range integral type conversion attempted"@,
        }
    }

    /// The message that describes the error.
    pub fn to_text(&self) -> (r: String)
        ensures
            r@ == self.spec_text(),
    {
        match self {
            LcdError::TooManyLines => String::from_str(
                "Invalid line count. We have only 2 lines on screen",
            ),
            LcdError::LineTooLong(i) => {
                let mut text = String::from_str("Line number ");
                crate::decimal::push_decimal(&mut text, *i as u64);
                text.append(" has more then 16 allowed characters");
                text
            },
            LcdError::CharOutOfRange => String::from_str(
                "out of range integral type conversion attempted",
            ),
        }
    }
}

/// Command that sets the display data RAM address (the cursor).
pub const LCD_SETDDRAMADDR: u8 = 0x80;

/// Lines and characters per line of the display.
pub const LCD_LINES: usize = 2;

pub const LCD_COLUMNS: usize = 16;

/// Bit `k` of `v`.
pub open spec fn bit(v: u8, k: u8) -> bool {
    (v >> k) & 1u8 == 1u8
}

/// The enable pulse that latches what the data pins show.
pub open spec fn pulse_signals() -> Seq<Signal> {
    seq![
        Signal::Pause(450),
        Signal::Drive(Pin::Enable, false),
        Signal::Pause(1000),
        Signal::Drive(Pin::Enable, true),
        Signal::Pause(450),
        Signal::Drive(Pin::Enable, false),
        Signal::Pause(37000),
    ]
}

/// The data pins showing four bits of `v`, from bit `low` up.
pub open spec fn nibble_signals(v: u8, low: u8) -> Seq<Signal> {
    seq![
        Signal::Drive(Pin::Data4, bit(v, low)),
        Signal::Drive(Pin::Data5, bit(v, (low + 1) as u8)),
        Signal::Drive(Pin::Data6, bit(v, (low + 2) as u8)),
        Signal::Drive(Pin::Data7, bit(v, (low + 3) as u8)),
    ]
}

/// Sending the byte `v` as a character (`char_mode`) or as a command: the
/// high nibble, a pulse, the low nibble, a pulse.
pub open spec fn write_signals(v: u8, char_mode: bool) -> Seq<Signal> {
    seq![Signal::Drive(Pin::Enable, false), Signal::Drive(Pin::RegisterSelect, char_mode)]
        + nibble_signals(v, 4) + pulse_signals() + nibble_signals(v, 0) + pulse_signals()
}

/// The row that a cursor request lands on: rows past the last are clamped to it.
pub open spec fn cursor_row(row: u8) -> u8 {
    if row > 2 {
        1
    } else {
        row
    }
}

pub open spec fn row_offset(row: u8) -> u8 {
    if row == 0 {
        0x00
    } else {
        0x40
    }
}

/// The cursor can be placed: the row is a real one and the address fits a byte.
pub open spec fn cursor_ok(col: u8, row: u8) -> bool {
    cursor_row(row) < 2 && col + row_offset(cursor_row(row)) <= u8::MAX
}

pub open spec fn cursor_command(col: u8, row: u8) -> u8 {
    LCD_SETDDRAMADDR | ((col + row_offset(cursor_row(row))) as u8)
}

pub open spec fn clear_signals() -> Seq<Signal> {
    write_signals(0x01, false).push(Signal::Pause(1_570_000))
}

pub open spec fn init_signals() -> Seq<Signal> {
    write_signals(0x33, false) + write_signals(0x32, false).push(Signal::Pause(4000))
        + write_signals(0x0C, false).push(Signal::Pause(4000)) + write_signals(0x06, false).push(
        Signal::Pause(4000),
    ) + clear_signals()
}

/// The text split at each `\n`: the pieces between line feeds.
pub open spec fn pieces(s: Seq<char>) -> Seq<Seq<char>>
    decreases s.len(),
{
    if s.len() == 0 {
        seq![Seq::<char>::empty()]
    } else {
        let p = pieces(s.drop_last());
        if s.last() == '\n' {
            p.push(Seq::<char>::empty())
        } else {
            p.update(p.len() - 1, p.last().push(s.last()))
        }
    }
}

pub open spec fn strip_cr(line: Seq<char>) -> Seq<char> {
    if line.len() > 0 && line.last() == '\r' {
        line.drop_last()
    } else {
        line
    }
}

/// The lines of a text as `str::lines` yields them: split at `\n` or
/// `\r\n`, with no empty line after a final line ending.
pub open spec fn lines(s: Seq<char>) -> Seq<Seq<char>> {
    let p = pieces(s);
    let ended = p.drop_last().map_values(|l: Seq<char>| strip_cr(l));
    if p.last().len() == 0 {
        ended
    } else {
        ended.push(p.last())
    }
}

pub open spec fn has_wide_char(s: Seq<char>) -> bool {
    exists|i: int| 0 <= i < s.len() && (s[i] as u32) > 255
}

/// What `Lcd::process_msg` gives for a text.
pub open spec fn spec_process(s: Seq<char>) -> Result<Seq<u8>, LcdError> {
    let ls = lines(s);
    if ls.len() > 2 {
        Err(LcdError::TooManyLines)
    } else if ls.len() >= 1 && ls[0].len() > 16 {
        Err(LcdError::LineTooLong(0))
    } else if ls.len() == 2 && ls[1].len() > 16 {
        Err(LcdError::LineTooLong(1))
    } else if has_wide_char(s) {
        Err(LcdError::CharOutOfRange)
    } else {
        Ok(s.map_values(|c: char| (c as u32) as u8))
    }
}

/// Number of line feeds among the bytes.
pub open spec fn newline_count(bytes: Seq<u8>) -> int
    decreases bytes.len(),
{
    if bytes.len() == 0 {
        0
    } else {
        newline_count(bytes.drop_last()) + if bytes.last() == 10 {
            1int
        } else {
            0int
        }
    }
}

/// Showing the bytes of a message: a line feed moves the cursor to the start
/// of the next line, any other byte is written as a character.
pub open spec fn message_body_signals(bytes: Seq<u8>) -> Seq<Signal>
    decreases bytes.len(),
{
    if bytes.len() == 0 {
        Seq::<Signal>::empty()
    } else {
        let before = message_body_signals(bytes.drop_last());
        let b = bytes.last();
        if b == 10 {
            before + write_signals(
                cursor_command(0, (newline_count(bytes.drop_last()) + 1) as u8),
                false,
            )
        } else {
            before + write_signals(b, true)
        }
    }
}

/// A message that can be shown without running past the second line.
pub open spec fn message_fits(s: Seq<char>) -> bool {
    spec_process(s) matches Ok(bytes) ==> newline_count(bytes) <= 1
}

/// The level a step drives, as a bit.
pub open spec fn level_bit(s: Seq<Signal>, i: int) -> int {
    match s[i] {
        Signal::Drive(_, true) => 1,
        _ => 0,
    }
}

/// The byte that a display reads from a write: D7-D4 at the first pulse
/// give its high nibble, D7-D4 at the second its low nibble.
pub open spec fn transmitted_byte(s: Seq<Signal>) -> int {
    128 * level_bit(s, 5) + 64 * level_bit(s, 4) + 32 * level_bit(s, 3) + 16 * level_bit(s, 2) + 8
        * level_bit(s, 16) + 4 * level_bit(s, 15) + 2 * level_bit(s, 14) + level_bit(s, 13)
}


proof fn lemma_pieces_nonempty(s: Seq<char>)
    ensures
        pieces(s).len() >= 1,
    decreases s.len(),
{
    if s.len() > 0 {
        lemma_pieces_nonempty(s.drop_last());
    }
}

proof fn lemma_newline_count_prefix(bytes: Seq<u8>, k: int)
    requires
        0 <= k <= bytes.len(),
    ensures
        0 <= newline_count(bytes.take(k)) <= newline_count(bytes),
    decreases bytes.len(),
{
    if k < bytes.len() {
        assert(bytes.drop_last().take(k) =~= bytes.take(k));
        lemma_newline_count_prefix(bytes.drop_last(), k);
    } else {
        assert(bytes.take(k) =~= bytes);
        if bytes.len() > 0 {
            lemma_newline_count_prefix(bytes.drop_last(), k - 1);
        }
    }
}

/// Lengths, in characters, of the lines of a text.
fn line_lengths(cs: &Vec<char>) -> (r: Vec<usize>)
    ensures
        r@.len() == lines(cs@).len(),
        forall|k: int| 0 <= k < r@.len() ==> r@[k] == lines(cs@)[k].len(),
{
    let ghost s = cs@;
    let n: usize = cs.len();
    let mut lens: Vec<usize> = Vec::new();
    let mut cur: usize = 0;
    let mut last_cr = false;
    let mut i: usize = 0;
    proof {
        assert(s.take(0) =~= Seq::<char>::empty());
        lemma_pieces_nonempty(s.take(0));
    }
    while i < n
        invariant
            s == cs@,
            n == s.len(),
            i <= n,
            pieces(s.take(i as int)).len() >= 1,
            lens@.len() == pieces(s.take(i as int)).len() - 1,
            forall|k: int|
                0 <= k < lens@.len() ==> lens@[k] == strip_cr(pieces(s.take(i as int))[k]).len(),
            cur == pieces(s.take(i as int)).last().len(),
            cur <= i,
            last_cr == (cur > 0 && pieces(s.take(i as int)).last().last() == '\r'),
        decreases n - i,
    {
        let c = cs[i];
        let ghost t = s.take(i as int);
        let ghost p = pieces(t);
        assert(s.take(i + 1).drop_last() =~= t);
        assert(s.take(i + 1).last() == c);
        if c == '\n' {
            let done: usize = if last_cr {
                cur - 1
            } else {
                cur
            };
            lens.push(done);
            cur = 0;
            last_cr = false;
            proof {
                let p2 = pieces(s.take(i + 1));
                assert(p2 == p.push(Seq::<char>::empty()));
                assert forall|k: int| 0 <= k < lens@.len() implies lens@[k] == strip_cr(
                    p2[k],
                ).len() by {
                    if k < lens@.len() - 1 {
                        assert(p2[k] == p[k]);
                    } else {
                        assert(p2[k] == p.last());
                    }
                }
            }
        } else {
            cur = cur + 1;
            last_cr = c == '\r';
            proof {
                let p2 = pieces(s.take(i + 1));
                assert(p2 == p.update(p.len() - 1, p.last().push(c)));
                assert forall|k: int| 0 <= k < lens@.len() implies lens@[k] == strip_cr(
                    p2[k],
                ).len() by {
                    assert(p2[k] == p[k]);
                }
            }
        }
        i = i + 1;
    }
    assert(s.take(n as int) =~= s);
    let ghost p = pieces(s);
    let ghost ended = p.drop_last().map_values(|l: Seq<char>| strip_cr(l));
    if cur > 0 {
        lens.push(cur);
        assert(lines(s) == ended.push(p.last()));
    } else {
        assert(lines(s) == ended);
    }
    lens
}


/// A write carries its byte: the display, reading D7-D4 while Enable falls
/// at the end of each of the two pulses, receives the byte's high nibble and
/// then its low nibble, with the register select showing whether it is a
/// character or a command.
pub proof fn lemma_write_transmits_byte(v: u8, char_mode: bool)
    ensures
        write_signals(v, char_mode).len() == 24,
        write_signals(v, char_mode)[1] == Signal::Drive(Pin::RegisterSelect, char_mode),
        write_signals(v, char_mode)[2] matches Signal::Drive(Pin::Data4, _),
        write_signals(v, char_mode)[5] matches Signal::Drive(Pin::Data7, _),
        write_signals(v, char_mode)[11] == Signal::Drive(Pin::Enable, false),
        write_signals(v, char_mode)[13] matches Signal::Drive(Pin::Data4, _),
        write_signals(v, char_mode)[16] matches Signal::Drive(Pin::Data7, _),
        write_signals(v, char_mode)[22] == Signal::Drive(Pin::Enable, false),
        transmitted_byte(write_signals(v, char_mode)) == v,
{
    let s = write_signals(v, char_mode);
    assert(s[2] == Signal::Drive(Pin::Data4, bit(v, 4)));
    assert(s[3] == Signal::Drive(Pin::Data5, bit(v, 5)));
    assert(s[4] == Signal::Drive(Pin::Data6, bit(v, 6)));
    assert(s[5] == Signal::Drive(Pin::Data7, bit(v, 7)));
    assert(s[13] == Signal::Drive(Pin::Data4, bit(v, 0)));
    assert(s[14] == Signal::Drive(Pin::Data5, bit(v, 1)));
    assert(s[15] == Signal::Drive(Pin::Data6, bit(v, 2)));
    assert(s[16] == Signal::Drive(Pin::Data7, bit(v, 3)));
    assert(v == 128 * ((v >> 7u8) & 1u8) + 64 * ((v >> 6u8) & 1u8) + 32 * ((v >> 5u8) & 1u8) + 16 * ((v
        >> 4u8) & 1u8) + 8 * ((v >> 3u8) & 1u8) + 4 * ((v >> 2u8) & 1u8) + 2 * ((v >> 1u8) & 1u8) + ((v
        >> 0u8) & 1u8)) by (bit_vector);
    assert(forall|k: u8| #![trigger (v >> k) & 1u8] k < 8 ==> ((v >> k) & 1u8 == 1u8 || (v >> k) & 1u8 == 0u8)) by (bit_vector);
}


/// Each write latches both nibbles: Enable starts low, and for each nibble
/// the data pins are driven first, then Enable rises (step 9, step 20) and
/// falls (step 11, step 22) with no data pin touched in between, so the
/// display takes the nibble on that falling edge.
pub proof fn lemma_write_latches_each_nibble(v: u8, char_mode: bool)
    ensures
        ({
            let s = write_signals(v, char_mode);
            &&& s.len() == 24
            &&& s[0] == Signal::Drive(Pin::Enable, false)
            &&& s[9] == Signal::Drive(Pin::Enable, true)
            &&& s[11] == Signal::Drive(Pin::Enable, false)
            &&& s[20] == Signal::Drive(Pin::Enable, true)
            &&& s[22] == Signal::Drive(Pin::Enable, false)
            &&& forall|i: int|
                (6 <= i < 13 || 17 <= i < 24) ==> (#[trigger] s[i] is Pause || s[i] matches Signal::Drive(
                    Pin::Enable,
                    _,
                ))
        }),
        ({
            let p = pulse_signals();
            &&& p[3] == Signal::Drive(Pin::Enable, true)
            &&& p[5] == Signal::Drive(Pin::Enable, false)
            &&& p.last() is Pause
        }),
{
    let s = write_signals(v, char_mode);
    assert forall|i: int|
        (6 <= i < 13 || 17 <= i < 24) implies (#[trigger] s[i] is Pause || s[i] matches Signal::Drive(
        Pin::Enable,
        _,
    )) by {
        if 6 <= i < 13 {
            assert(s[i] == pulse_signals()[i - 6]);
        } else {
            assert(s[i] == pulse_signals()[i - 17]);
        }
    }
}

/// The display shows a message's characters in order: the signals for a
/// message of at most one line feed are one 24-step write per byte, the
/// byte itself as a character, or, for the line feed, the command that
/// moves the cursor to the start of the second line (address 0x40).
pub proof fn lemma_message_blocks(bytes: Seq<u8>)
    requires
        newline_count(bytes) <= 1,
    ensures
        message_body_signals(bytes).len() == 24 * bytes.len(),
        forall|i: int|
            0 <= i < bytes.len() ==> message_body_signals(bytes).subrange(24 * i, 24 * i + 24) == if (
            #[trigger] bytes[i]) == 10 {
                write_signals(0xC0, false)
            } else {
                write_signals(bytes[i], true)
            },
    decreases bytes.len(),
{
    if bytes.len() > 0 {
        let before = bytes.drop_last();
        assert(bytes.take(bytes.len() - 1) =~= before);
        lemma_newline_count_prefix(bytes, bytes.len() - 1);
        lemma_message_blocks(before);
        let sig = message_body_signals(bytes);
        let prev = message_body_signals(before);
        let n = bytes.len() - 1;
        if bytes.last() == 10 {
            assert(newline_count(before) == 0);
            assert(cursor_command(0, 1) == 0xC0) by {
                assert(0x80u8 | 0x40u8 == 0xC0u8) by (bit_vector);
            }
        }
        assert forall|i: int| 0 <= i < bytes.len() implies sig.subrange(24 * i, 24 * i + 24) == if (
        #[trigger] bytes[i]) == 10 {
            write_signals(0xC0, false)
        } else {
            write_signals(bytes[i], true)
        } by {
            if i < n {
                assert(sig.subrange(24 * i, 24 * i + 24) =~= prev.subrange(24 * i, 24 * i + 24));
                assert(bytes[i] == before[i]);
            } else {
                assert(sig.subrange(24 * i, 24 * i + 24) =~= sig.subrange(24 * n, 24 * n + 24));
            }
        }
    }
}

/// The controller of an HD44780 display: it turns display operations into
/// the bus signals that carry them, in order, and holds them until the
/// caller drives the pins.
pub struct Lcd {
    signals: Vec<Signal>,
}

impl Lcd {
    /// The signals produced and not yet taken.
    pub closed spec fn pending(&self) -> Seq<Signal> {
        self.signals@
    }

    pub fn new() -> (r: Lcd)
        ensures
            r.pending() == Seq::<Signal>::empty(),
    {
        Lcd { signals: Vec::new() }
    }

    /// Hands over the signals produced so far.
    pub fn take_signals(&mut self) -> (r: Vec<Signal>)
        ensures
            r@ == old(self).pending(),
            final(self).pending() == Seq::<Signal>::empty(),
    {
        let mut taken: Vec<Signal> = Vec::new();
        std::mem::swap(&mut taken, &mut self.signals);
        taken
    }

    fn push(&mut self, s: Signal)
        ensures
            final(self).pending() == old(self).pending().push(s),
    {
        self.signals.push(s);
    }

    /// Latches what the data pins show.
    pub fn pulse_enable(&mut self)
        ensures
            final(self).pending() == old(self).pending() + pulse_signals(),
    {
        self.push(Signal::Pause(450));
        self.push(Signal::Drive(Pin::Enable, false));
        self.push(Signal::Pause(1000));
        self.push(Signal::Drive(Pin::Enable, true));
        self.push(Signal::Pause(450));
        self.push(Signal::Drive(Pin::Enable, false));
        self.push(Signal::Pause(37000));
        assert(self.pending() =~= old(self).pending() + pulse_signals());
    }

    fn write_nibble(&mut self, value: u8, low: u8)
        requires
            low == 0 || low == 4,
        ensures
            final(self).pending() == old(self).pending() + nibble_signals(value, low),
    {
        self.push(Signal::Drive(Pin::Data4, (value >> low) & 1u8 == 1u8));
        self.push(Signal::Drive(Pin::Data5, (value >> (low + 1)) & 1u8 == 1u8));
        self.push(Signal::Drive(Pin::Data6, (value >> (low + 2)) & 1u8 == 1u8));
        self.push(Signal::Drive(Pin::Data7, (value >> (low + 3)) & 1u8 == 1u8));
        assert(self.pending() =~= old(self).pending() + nibble_signals(value, low));
    }

    /// Sends a byte, as a character when `char_mode` holds, else as a command.
    pub fn write(&mut self, value: u8, char_mode: bool) -> (r: Result<(), LcdError>)
        ensures
            r is Ok,
            final(self).pending() == old(self).pending() + write_signals(value, char_mode),
    {
        self.push(Signal::Drive(Pin::Enable, false));
        self.push(Signal::Drive(Pin::RegisterSelect, char_mode));
        self.write_nibble(value, 4);
        self.pulse_enable();
        self.write_nibble(value, 0);
        self.pulse_enable();
        assert(self.pending() =~= old(self).pending() + write_signals(value, char_mode));
        Ok(())
    }

    /// Clears the display and waits the 1.57 ms this takes.
    pub fn clear(&mut self) -> (r: Result<(), LcdError>)
        ensures
            r is Ok,
            final(self).pending() == old(self).pending() + clear_signals(),
    {
        let _ = self.write(0x01, false);
        self.push(Signal::Pause(1_570_000));
        assert(self.pending() =~= old(self).pending() + clear_signals());
        Ok(())
    }

    /// Brings the controller into 4-bit mode from any state, turns the
    /// display on, sets left-to-right entry and clears the display.
    pub fn init(&mut self) -> (r: Result<(), LcdError>)
        ensures
            r is Ok,
            final(self).pending() == old(self).pending() + init_signals(),
    {
        let _ = self.write(0x33, false);
        let _ = self.write(0x32, false);
        self.push(Signal::Pause(4000));
        assert(0x08u8 | 0x04u8 == 0x0Cu8) by (bit_vector);
        let _ = self.write(0x08 | 0x04, false);
        self.push(Signal::Pause(4000));
        let _ = self.write(0x06, false);
        self.push(Signal::Pause(4000));
        let _ = self.clear();
        assert(self.pending() =~= old(self).pending() + init_signals());
        Ok(())
    }

    /// Whether the cursor can be placed at column `col` of row `row`.
    pub fn cursor_valid(col: u8, row: u8) -> (r: bool)
        ensures
            r == cursor_ok(col, row),
    {
        if row == 2 {
            false
        } else if row == 0 {
            true
        } else {
            col <= 0xBF
        }
    }

    /// Moves the cursor to column `col` of row `row`.
    pub fn set_cursor(&mut self, col: u8, row: u8) -> (r: Result<(), LcdError>)
        requires
            cursor_ok(col, row),
        ensures
            r is Ok,
            final(self).pending() == old(self).pending() + write_signals(
                cursor_command(col, row),
                false,
            ),
    {
        let actual_row: u8 = if row > 2 {
            1
        } else {
            row
        };
        let offset: u8 = if actual_row == 0 {
            0x00
        } else {
            0x40
        };
        self.write(LCD_SETDDRAMADDR | (col + offset), false)
    }
    /// Checks that a text fits the display (two lines of 16 characters, each
    /// character with a one-byte code) and gives the bytes to send.
    pub fn process_msg(text: &str) -> (r: Result<Vec<u8>, LcdError>)
        ensures
            match spec_process(text@) {
                Ok(bytes) => r matches Ok(v) && v@ == bytes,
                Err(e) => r == Err::<Vec<u8>, LcdError>(e),
            },
    {
        let cs = chars_of(text);
        let lens = line_lengths(&cs);
        if lens.len() > LCD_LINES {
            return Err(LcdError::TooManyLines);
        }
        let mut k: usize = 0;
        while k < lens.len()
            invariant
                cs@ == text@,
                lens@.len() == lines(text@).len(),
                lens@.len() <= 2,
                forall|j: int| 0 <= j < lens@.len() ==> lens@[j] == lines(text@)[j].len(),
                forall|j: int| 0 <= j < k ==> lines(text@)[j].len() <= 16,
                k <= lens@.len(),
            decreases lens@.len() - k,
        {
            if lens[k] > LCD_COLUMNS {
                return Err(LcdError::LineTooLong(k));
            }
            k = k + 1;
        }
        let n: usize = cs.len();
        let mut bytes: Vec<u8> = Vec::new();
        let mut i: usize = 0;
        while i < n
            invariant
                cs@ == text@,
                n == cs@.len(),
                i <= n,
                bytes@ == cs@.take(i as int).map_values(|c: char| (c as u32) as u8),
                forall|j: int| 0 <= j < i ==> (cs@[j] as u32) <= 255,
                lines(text@).len() <= 2,
                forall|j: int| 0 <= j < lines(text@).len() ==> lines(text@)[j].len() <= 16,
            decreases n - i,
        {
            let code: u32 = cs[i] as u32;
            if code > 255 {
                assert(has_wide_char(text@));
                return Err(LcdError::CharOutOfRange);
            }
            bytes.push(code as u8);
            i = i + 1;
            assert(bytes@ =~= cs@.take(i as int).map_values(|c: char| (c as u32) as u8));
        }
        assert(cs@.take(n as int) =~= cs@);
        assert(!has_wide_char(text@));
        Ok(bytes)
    }

    /// Whether a text can be shown without running past the second line.
    pub fn message_fits(text: &str) -> (r: bool)
        ensures
            r == message_fits(text@),
    {
        match Lcd::process_msg(text) {
            Ok(bytes) => {
                let n: usize = bytes.len();
                let mut count: usize = 0;
                let mut i: usize = 0;
                while i < n
                    invariant
                        n == bytes@.len(),
                        i <= n,
                        count == newline_count(bytes@.take(i as int)),
                        count <= i,
                    decreases n - i,
                {
                    assert(bytes@.take(i + 1).drop_last() =~= bytes@.take(i as int));
                    if bytes[i] == 10 {
                        count = count + 1;
                    }
                    i = i + 1;
                }
                assert(bytes@.take(n as int) =~= bytes@);
                count <= 1
            },
            Err(_) => true,
        }
    }

    /// Clears the display and shows the text: a line feed moves to the start
    /// of the second line, any other character is written at the cursor.
    pub fn message(&mut self, text: String) -> (r: Result<(), LcdError>)
        requires
            message_fits(text@),
        ensures
            match spec_process(text@) {
                Ok(bytes) => r is Ok && final(self).pending() == old(self).pending()
                    + clear_signals() + message_body_signals(bytes),
                Err(e) => r == Err::<(), LcdError>(e) && final(self).pending() == old(
                    self,
                ).pending() + clear_signals(),
            },
    {
        let _ = self.clear();
        let characters = match Lcd::process_msg(text.as_str()) {
            Ok(bytes) => bytes,
            Err(e) => {
                return Err(e);
            },
        };
        let ghost start = self.pending();
        let ghost bytes = characters@;
        let n: usize = characters.len();
        let mut line: u8 = 0;
        let mut i: usize = 0;
        while i < n
            invariant
                bytes == characters@,
                n == bytes.len(),
                i <= n,
                newline_count(bytes) <= 1,
                line == newline_count(bytes.take(i as int)),
                self.pending() == start + message_body_signals(bytes.take(i as int)),
            decreases n - i,
        {
            let byte = characters[i];
            proof {
                assert(bytes.take(i + 1).drop_last() =~= bytes.take(i as int));
                assert(bytes.take(i + 1).last() == byte);
                lemma_newline_count_prefix(bytes, i + 1);
                lemma_newline_count_prefix(bytes, i as int);
            }
            if byte == 10 {
                line = line + 1;
                let _ = self.set_cursor(0, line);
            } else {
                let _ = self.write(byte, true);
            }
            proof {
                assert(self.pending() =~= start + message_body_signals(bytes.take(i + 1)));
            }
            i = i + 1;
        }
        assert(bytes.take(n as int) =~= bytes);
        Ok(())
    }
}

} // verus!
