use vstd::prelude::*;

use crate::decimal::{decimal_text, push_decimal};

verus! {

/// A high pulse longer than this many polls of the data line carries a 1 bit
/// (the DHT11 sends about 26-28 us for a 0 and 70 us for a 1).
pub const ONE_BIT_MIN_POLLS: u8 = 27;

/// The line is polled at most this many times while waiting for a level.
pub const MAX_POLLS: u8 = 255;

/// Number of level changes awaited in one reading: three for the sensor's
/// response, then for each of the 40 data bits its start and its end.
pub const WAITS_PER_READING: usize = 83;

/// Number of data bits in one frame.
pub const FRAME_BITS: usize = 40;

/// The level of the sensor's data line.
#[derive(Clone, Copy, Debug, PartialEq, Eq, Structural)]
pub enum Level {
    Low,
    High,
}

/// Why a reading failed.
#[derive(Clone, Copy, Debug, PartialEq, Eq, Structural)]
pub enum Dht11Error {
    /// The line did not reach the awaited level in time.
    Timeout,
    /// The checksum byte does not match the four data bytes.
    Checksum,
}

impl Dht11Error {
    pub open spec fn spec_text(&self) -> Seq<char> {
        match self {
            Dht11Error::Timeout => "Timeout!"@,
            Dht11Error::Checksum => "Check sum!"@,
        }
    }

    pub fn to_text(&self) -> (r: String)
        ensures
            r@ == self.spec_text(),
    {
        match self {
            Dht11Error::Timeout => String::from_str("Timeout!"),
            Dht11Error::Checksum => String::from_str("Check sum!"),
        }
    }
}

/// A reading as the sensor sends it: integral and decimal parts of the
/// relative humidity (%) and of the temperature (C); the value is
/// `integral + decimal / 10`.
#[derive(Clone, Copy, Debug, PartialEq, Eq, Structural)]
pub struct Readings {
    pub humidity_integral: u8,
    pub humidity_decimal: u8,
    pub temperature_integral: u8,
    pub temperature_decimal: u8,
}

/// A value given in tenths, written with two decimals (the second always 0).
pub open spec fn tenths_text(tenths: nat) -> Seq<char> {
    decimal_text(tenths / 10) + seq!['.'] + decimal_text(tenths % 10) + seq!['0']
}

impl Readings {
    pub open spec fn humidity_tenths(&self) -> nat {
        (10 * self.humidity_integral + self.humidity_decimal) as nat
    }

    pub open spec fn temperature_tenths(&self) -> nat {
        (10 * self.temperature_integral + self.temperature_decimal) as nat
    }

    pub open spec fn spec_text(&self) -> Seq<char> {
        seq!['R', 'e', 'a', 'd', 'i', 'n', 'g', 's', '('] + tenths_text(self.humidity_tenths())
            + seq!['%', ',', ' '] + tenths_text(self.temperature_tenths()) + seq!['C', ')']
    }

    /// The reading as text, humidity first: `Readings(45.00%, 23.40C)`.
    pub fn to_text(&self) -> (r: String)
        ensures
            r@ == self.spec_text(),
    {
        let mut text = String::new();
        proof {
            reveal_strlit("Readings(");
            reveal_strlit("%, ");
            reveal_strlit("C)");
        }
        text.append("Readings(");
        push_tenths(&mut text, 10 * (self.humidity_integral as u32) + self.humidity_decimal as u32);
        text.append("%, ");
        push_tenths(
            &mut text,
            10 * (self.temperature_integral as u32) + self.temperature_decimal as u32,
        );
        text.append("C)");
        assert(text@ =~= self.spec_text());
        text
    }
}

/// A value given in tenths, written with one decimal.
pub open spec fn one_decimal_text(tenths: nat) -> Seq<char> {
    decimal_text(tenths / 10) + seq!['.'] + decimal_text(tenths % 10)
}

impl Readings {
    pub open spec fn spec_lcd_text(&self) -> Seq<char> {
        "Temp:      "@ + one_decimal_text(self.temperature_tenths()) + "C\nHumid:     "@
            + one_decimal_text(self.humidity_tenths()) + "%"@
    }

    /// The reading as the two lines of a 16-character display:
    /// `Temp:      23.4C` and `Humid:     45.0%`.
    pub fn lcd_text(&self) -> (r: String)
        ensures
            r@ == self.spec_lcd_text(),
    {
        proof {
            reveal_strlit("Temp:      ");
            reveal_strlit("C\nHumid:     ");
            reveal_strlit("%");
            reveal_strlit(".");
        }
        let mut text = String::from_str("Temp:      ");
        let t: u64 = 10 * (self.temperature_integral as u64) + self.temperature_decimal as u64;
        push_decimal(&mut text, t / 10);
        text.append(".");
        push_decimal(&mut text, t % 10);
        text.append("C\nHumid:     ");
        let h: u64 = 10 * (self.humidity_integral as u64) + self.humidity_decimal as u64;
        push_decimal(&mut text, h / 10);
        text.append(".");
        push_decimal(&mut text, h % 10);
        text.append("%");
        assert(text@ =~= self.spec_lcd_text());
        text
    }
}

fn push_tenths(text: &mut String, tenths: u32)
    ensures
        final(text)@ == old(text)@ + tenths_text(tenths as nat),
{
    proof {
        reveal_strlit(".");
        reveal_strlit("0");
    }
    push_decimal(text, (tenths / 10) as u64);
    text.append(".");
    push_decimal(text, (tenths % 10) as u64);
    text.append("0");
    assert(final(text)@ =~= old(text)@ + tenths_text(tenths as nat));
}

/// The bit that a high pulse of `polls` polls carries.
pub open spec fn pulse_bit(polls: u8) -> int {
    if polls >= ONE_BIT_MIN_POLLS {
        1
    } else {
        0
    }
}

/// The number that a run of pulses carries, most significant bit first.
pub open spec fn pulses_value(pulses: Seq<u8>) -> int
    decreases pulses.len(),
{
    if pulses.len() == 0 {
        0
    } else {
        2 * pulses_value(pulses.drop_last()) + pulse_bit(pulses.last())
    }
}

/// Byte `k` (0 to 4) of the frame carried by 40 pulses.
pub open spec fn frame_byte(pulses: Seq<u8>, k: int) -> int {
    pulses_value(pulses.subrange(8 * k, 8 * k + 8))
}

/// The frame's checksum byte is the low byte of the sum of the four data bytes.
pub open spec fn checksum_ok(pulses: Seq<u8>) -> bool {
    frame_byte(pulses, 4) == (frame_byte(pulses, 0) + frame_byte(pulses, 1) + frame_byte(pulses, 2)
        + frame_byte(pulses, 3)) % 256
}

/// The outcome of a frame of 40 pulses.
pub open spec fn spec_decode(pulses: Seq<u8>) -> Result<Readings, Dht11Error> {
    if checksum_ok(pulses) {
        Ok(
            Readings {
                humidity_integral: frame_byte(pulses, 0) as u8,
                humidity_decimal: frame_byte(pulses, 1) as u8,
                temperature_integral: frame_byte(pulses, 2) as u8,
                temperature_decimal: frame_byte(pulses, 3) as u8,
            },
        )
    } else {
        Err(Dht11Error::Checksum)
    }
}

proof fn lemma_pulses_value_bound(pulses: Seq<u8>)
    ensures
        0 <= pulses_value(pulses) < vstd::arithmetic::power2::pow2(pulses.len()),
    decreases pulses.len(),
{
    if pulses.len() > 0 {
        lemma_pulses_value_bound(pulses.drop_last());
        vstd::arithmetic::power2::lemma_pow2_unfold(pulses.len());
    } else {
        vstd::arithmetic::power2::lemma2_to64();
    }
}


/// The high pulse by which a sensor sends bit `k` of `b`: `one` polls long
/// for a 1, `zero` polls for a 0.
pub open spec fn bit_pulse(b: u8, k: u8, one: u8, zero: u8) -> u8 {
    if (b >> k) & 1u8 == 1u8 {
        one
    } else {
        zero
    }
}

/// The pulses that send a byte, most significant bit first.
pub open spec fn byte_pulses(b: u8, one: u8, zero: u8) -> Seq<u8> {
    seq![
        bit_pulse(b, 7, one, zero),
        bit_pulse(b, 6, one, zero),
        bit_pulse(b, 5, one, zero),
        bit_pulse(b, 4, one, zero),
        bit_pulse(b, 3, one, zero),
        bit_pulse(b, 2, one, zero),
        bit_pulse(b, 1, one, zero),
        bit_pulse(b, 0, one, zero),
    ]
}

proof fn lemma_byte_pulses_value(b: u8, one: u8, zero: u8)
    requires
        one >= ONE_BIT_MIN_POLLS,
        zero < ONE_BIT_MIN_POLLS,
    ensures
        pulses_value(byte_pulses(b, one, zero)) == b,
{
    let s = byte_pulses(b, one, zero);
    reveal_with_fuel(pulses_value, 9);
    assert(s.drop_last() =~= s.take(7));
    assert(s.take(7).drop_last() =~= s.take(6));
    assert(s.take(6).drop_last() =~= s.take(5));
    assert(s.take(5).drop_last() =~= s.take(4));
    assert(s.take(4).drop_last() =~= s.take(3));
    assert(s.take(3).drop_last() =~= s.take(2));
    assert(s.take(2).drop_last() =~= s.take(1));
    assert(s.take(1).drop_last() =~= Seq::<u8>::empty());
    assert(forall|k: u8| #![trigger (b >> k) & 1u8] k < 8 ==> ((b >> k) & 1u8 == 1u8 || (b >> k)
        & 1u8 == 0u8)) by (bit_vector);
    assert(b == 128 * ((b >> 7u8) & 1u8) + 64 * ((b >> 6u8) & 1u8) + 32 * ((b >> 5u8) & 1u8) + 16 * ((b
        >> 4u8) & 1u8) + 8 * ((b >> 3u8) & 1u8) + 4 * ((b >> 2u8) & 1u8) + 2 * ((b >> 1u8) & 1u8) + ((b
        >> 0u8) & 1u8)) by (bit_vector);
}

/// Decoding inverts the sensor's encoding: the frame that sends the bytes
/// `b0` to `b4` (long pulses for 1 bits, short ones for 0 bits) decodes to
/// those bytes, and is accepted exactly when `b4` is the checksum of the
/// other four.
pub proof fn lemma_frame_roundtrip(b0: u8, b1: u8, b2: u8, b3: u8, b4: u8, one: u8, zero: u8)
    requires
        one >= ONE_BIT_MIN_POLLS,
        zero < ONE_BIT_MIN_POLLS,
    ensures
        ({
            let frame = byte_pulses(b0, one, zero) + byte_pulses(b1, one, zero) + byte_pulses(
                b2,
                one,
                zero,
            ) + byte_pulses(b3, one, zero) + byte_pulses(b4, one, zero);
            &&& frame.len() == FRAME_BITS
            &&& frame_byte(frame, 0) == b0
            &&& frame_byte(frame, 1) == b1
            &&& frame_byte(frame, 2) == b2
            &&& frame_byte(frame, 3) == b3
            &&& frame_byte(frame, 4) == b4
            &&& spec_decode(frame) == if b4 == (b0 + b1 + b2 + b3) % 256 {
                Ok(
                    Readings {
                        humidity_integral: b0,
                        humidity_decimal: b1,
                        temperature_integral: b2,
                        temperature_decimal: b3,
                    },
                )
            } else {
                Err(Dht11Error::Checksum)
            }
        }),
{
    let frame = byte_pulses(b0, one, zero) + byte_pulses(b1, one, zero) + byte_pulses(b2, one, zero)
        + byte_pulses(b3, one, zero) + byte_pulses(b4, one, zero);
    lemma_byte_pulses_value(b0, one, zero);
    lemma_byte_pulses_value(b1, one, zero);
    lemma_byte_pulses_value(b2, one, zero);
    lemma_byte_pulses_value(b3, one, zero);
    lemma_byte_pulses_value(b4, one, zero);
    assert(frame.subrange(0, 8) =~= byte_pulses(b0, one, zero));
    assert(frame.subrange(8, 16) =~= byte_pulses(b1, one, zero));
    assert(frame.subrange(16, 24) =~= byte_pulses(b2, one, zero));
    assert(frame.subrange(24, 32) =~= byte_pulses(b3, one, zero));
    assert(frame.subrange(32, 40) =~= byte_pulses(b4, one, zero));
}

/// The byte carried by the eight pulses `pulses[start..start + 8]`.
fn decode_byte(pulses: &Vec<u8>, start: usize) -> (r: u8)
    requires
        start + 8 <= pulses@.len(),
    ensures
        r == pulses_value(pulses@.subrange(start as int, start + 8)),
{
    let ghost run = pulses@.subrange(start as int, start + 8);
    let len: usize = pulses.len();
    let mut byte: u8 = 0;
    let mut j: usize = 0;
    while j < 8
        invariant
            start + 8 <= pulses@.len(),
            run == pulses@.subrange(start as int, start + 8),
            j <= 8,
            len == pulses@.len(),
            byte == pulses_value(run.take(j as int)),
        decreases 8 - j,
    {
        proof {
            lemma_pulses_value_bound(run.take(j as int));
            vstd::arithmetic::power2::lemma2_to64();
            if j < 7 {
                vstd::arithmetic::power2::lemma_pow2_strictly_increases(j as nat, 7);
            }
            assert(run.take(j + 1).drop_last() =~= run.take(j as int));
            assert(run.take(j + 1).last() == pulses@[start + j]);
        }
        let at: usize = start + j;
        let bit: u8 = if pulses[at] >= ONE_BIT_MIN_POLLS {
            1
        } else {
            0
        };
        byte = byte * 2 + bit;
        j = j + 1;
    }
    assert(run.take(8) =~= run);
    byte
}

/// Decodes the 40 high-pulse lengths of a frame: five bytes, most
/// significant bit first, the last being the checksum.
pub fn decode_frame(pulses: &Vec<u8>) -> (r: Result<Readings, Dht11Error>)
    requires
        pulses@.len() == FRAME_BITS,
    ensures
        r == spec_decode(pulses@),
{
    let b0 = decode_byte(pulses, 0);
    let b1 = decode_byte(pulses, 8);
    let b2 = decode_byte(pulses, 16);
    let b3 = decode_byte(pulses, 24);
    let b4 = decode_byte(pulses, 32);
    let sum: u16 = b0 as u16 + b1 as u16 + b2 as u16 + b3 as u16;
    if b4 as u16 == sum % 256 {
        Ok(
            Readings {
                humidity_integral: b0,
                humidity_decimal: b1,
                temperature_integral: b2,
                temperature_decimal: b3,
            },
        )
    } else {
        Err(Dht11Error::Checksum)
    }
}

/// What to do after one poll of the data line while waiting for a level.
#[derive(Clone, Copy, Debug, PartialEq, Eq, Structural)]
pub enum WaitStep {
    /// The level was reached at this poll; the value is the number of polls
    /// made before it, which measures the length of the preceding pulse.
    Found(u8),
    /// Wait a microsecond, then make poll number `n`.
    Poll(u8),
    /// Wait a microsecond, then give up: the level never came.
    TimedOut,
}

/// The decision after poll number `poll` (counting from 0) of the line while
/// waiting for a level; `reached` says whether the line showed it.
pub fn wait_level_step(poll: u8, reached: bool) -> (r: WaitStep)
    requires
        poll < MAX_POLLS,
    ensures
        reached ==> r == WaitStep::Found(poll),
        !reached && poll + 1 < MAX_POLLS ==> r == WaitStep::Poll((poll + 1) as u8),
        !reached && poll + 1 == MAX_POLLS ==> r == WaitStep::TimedOut,
{
    if reached {
        WaitStep::Found(poll)
    } else if poll + 1 < MAX_POLLS {
        WaitStep::Poll(poll + 1)
    } else {
        WaitStep::TimedOut
    }
}

/// The outcome of a wait whose poll number `j` sees the awaited level exactly
/// when `reached[j]`, going on from poll `poll` by `wait_level_step`: the
/// number of the poll that saw it, or `None` when the wait gives up.
pub open spec fn wait_outcome(reached: Seq<bool>, poll: nat) -> Option<u8>
    decreases MAX_POLLS - poll,
{
    if poll >= MAX_POLLS {
        None
    } else if reached[poll as int] {
        Some(poll as u8)
    } else {
        wait_outcome(reached, poll + 1)
    }
}

/// A wait reports the first of its 255 polls that sees the level, and gives
/// up only when none of them does.
pub proof fn lemma_wait_outcome(reached: Seq<bool>, poll: nat)
    requires
        poll <= MAX_POLLS,
    ensures
        wait_outcome(reached, poll) matches Some(j) ==> poll <= j < MAX_POLLS && reached[j as int]
            && forall|i: int| poll <= i < j ==> !reached[i],
        wait_outcome(reached, poll) is None ==> forall|i: int| poll <= i < MAX_POLLS ==> !reached[i],
    decreases MAX_POLLS - poll,
{
    if poll < MAX_POLLS && !reached[poll as int] {
        lemma_wait_outcome(reached, poll + 1);
        assert forall|i: int| poll <= i < poll + 1 implies !reached[i] by {
            assert(i == poll);
        }
    }
}

/// What the reader asks of the caller next.
pub enum ReadAction {
    /// Wait for the line to reach this level and report the outcome.
    WaitFor(Level),
    /// The reading is over.
    Finished(Result<Readings, Dht11Error>),
}

/// The level awaited by wait number `k` of a reading: low, high and low for
/// the sensor's response, then high (start of a bit) and low (end of a bit)
/// for each data bit.
pub open spec fn awaited_level(k: int) -> Level {
    if k == 0 || k == 2 {
        Level::Low
    } else if k == 1 {
        Level::High
    } else if (k - 3) % 2 == 0 {
        Level::High
    } else {
        Level::Low
    }
}

/// The reader follows the DHT11 handshake: it awaits Low, High, Low for the
/// sensor's response, and from then on the awaited level alternates, so that
/// every data bit is awaited rising (High) and then falling (Low); the waits
/// that measure a bit are exactly the even-numbered ones from wait 4 on, and
/// they are the waits for Low.
pub proof fn lemma_levels_alternate()
    ensures
        awaited_level(0) == Level::Low,
        awaited_level(1) == Level::High,
        awaited_level(2) == Level::Low,
        forall|k: int| 0 <= k < 82 ==> #[trigger] awaited_level(k + 1) != awaited_level(k),
        forall|k: int| #[trigger] ends_bit(k) <==> (k >= 4 && k % 2 == 0),
        forall|k: int| 3 <= k < 83 ==> (ends_bit(k) <==> #[trigger] awaited_level(k) == Level::Low),
{
}

/// Wait number `k` ends a data bit: the time it took is the bit's pulse.
pub open spec fn ends_bit(k: int) -> bool {
    k >= 3 && (k - 3) % 2 == 1
}

/// Number of bits ended by the first `k` waits.
pub open spec fn bits_after(k: int) -> int {
    if k <= 3 {
        0
    } else {
        (k - 3) / 2
    }
}

/// The pulses of a reading: the durations reported for the waits that end a
/// data bit, in order.
pub open spec fn bit_pulses_of(outcomes: Seq<u8>) -> Seq<u8>
    decreases outcomes.len(),
{
    if outcomes.len() == 0 {
        Seq::<u8>::empty()
    } else {
        let before = bit_pulses_of(outcomes.drop_last());
        if ends_bit(outcomes.len() - 1) {
            before.push(outcomes.last())
        } else {
            before
        }
    }
}

/// The pulses of a reading are the durations of waits 4, 6, 8 and so on:
/// after `k` waits there are `bits_after(k)` of them, pulse `t` being the
/// duration of wait `4 + 2t`.
pub proof fn lemma_bit_pulses(outcomes: Seq<u8>)
    ensures
        bit_pulses_of(outcomes).len() == bits_after(outcomes.len() as int),
        forall|t: int|
            0 <= t < bit_pulses_of(outcomes).len() ==> #[trigger] bit_pulses_of(outcomes)[t]
                == outcomes[4 + 2 * t],
    decreases outcomes.len(),
{
    if outcomes.len() > 0 {
        let before = outcomes.drop_last();
        lemma_bit_pulses(before);
        let n = outcomes.len() - 1;
        assert forall|t: int|
            0 <= t < bit_pulses_of(outcomes).len() implies #[trigger] bit_pulses_of(outcomes)[t]
            == outcomes[4 + 2 * t] by {
            if t < bit_pulses_of(before).len() {
                assert(bit_pulses_of(outcomes)[t] == bit_pulses_of(before)[t]);
                assert(before[4 + 2 * t] == outcomes[4 + 2 * t]);
            } else {
                assert(ends_bit(n));
                assert(n == 4 + 2 * t);
            }
        }
    }
}

/// The decisions of one reading of a DHT11 after its start signal: which
/// level to wait for next, and, once all 40 bits have come, the reading.
pub struct Dht11Reader {
    waits: usize,
    pulses: Vec<u8>,
    finished: bool,
    history: Ghost<Seq<u8>>,
}

impl Dht11Reader {
    /// The durations reported for the waits so far.
    pub closed spec fn outcomes_seen(&self) -> Seq<u8> {
        self.history@
    }

    pub closed spec fn is_finished(&self) -> bool {
        self.finished
    }

    #[verifier::type_invariant]
    closed spec fn wf(&self) -> bool {
        &&& self.waits == self.history@.len()
        &&& self.waits <= WAITS_PER_READING
        &&& self.pulses@ == bit_pulses_of(self.history@)
        &&& !self.finished ==> self.waits < WAITS_PER_READING
    }

    /// A reader at the start of a reading, and its first request.
    pub fn start() -> (r: (Dht11Reader, ReadAction))
        ensures
            !r.0.is_finished(),
            r.0.outcomes_seen() == Seq::<u8>::empty(),
            r.1 == ReadAction::WaitFor(awaited_level(0)),
    {
        (
            Dht11Reader {
                waits: 0,
                pulses: Vec::new(),
                finished: false,
                history: Ghost(Seq::<u8>::empty()),
            },
            ReadAction::WaitFor(Level::Low),
        )
    }

    pub fn finished(&self) -> (r: bool)
        ensures
            r == self.is_finished(),
    {
        self.finished
    }

    /// Takes the outcome of the last wait: the polls it took, or `None` if it
    /// timed out.
    pub fn on_wait(&mut self, outcome: Option<u8>) -> (r: ReadAction)
        requires
            !old(self).is_finished(),
        ensures
            outcome is None ==> r == ReadAction::Finished(Err(Dht11Error::Timeout))
                && final(self).is_finished(),
            outcome matches Some(polls) ==> {
                let seen = final(self).outcomes_seen();
                &&& seen == old(self).outcomes_seen().push(polls)
                &&& seen.len() == WAITS_PER_READING ==> final(self).is_finished() && r
                    == ReadAction::Finished(spec_decode(bit_pulses_of(seen)))
                &&& seen.len() < WAITS_PER_READING ==> !final(self).is_finished() && r
                    == ReadAction::WaitFor(awaited_level(seen.len() as int))
            },
    {
        proof {
            use_type_invariant(&*self);
        }
        match outcome {
            None => {
                self.finished = true;
                ReadAction::Finished(Err(Dht11Error::Timeout))
            },
            Some(polls) => {
                let k: usize = self.waits;
                let ghost seen = self.history@.push(polls);
                assert(seen.drop_last() =~= self.history@);
                let mut pulses: Vec<u8> = self.pulses.clone();
                if k >= 3 && (k - 3) % 2 == 1 {
                    pulses.push(polls);
                }
                let next: usize = k + 1;
                if next == WAITS_PER_READING {
                    proof {
                        lemma_bit_pulses(seen);
                    }
                    let result = decode_frame(&pulses);
                    *self = Dht11Reader { waits: next, pulses, finished: true, history: Ghost(seen) };
                    ReadAction::Finished(result)
                } else {
                    *self = Dht11Reader { waits: next, pulses, finished: false, history: Ghost(seen) };
                    let level = if next == 1 {
                        Level::High
                    } else if next == 2 {
                        Level::Low
                    } else if (next - 3) % 2 == 0 {
                        Level::High
                    } else {
                        Level::Low
                    };
                    ReadAction::WaitFor(level)
                }
            },
        }
    }
}

} // verus!
