use vstd::prelude::*;

verus! {

// Segment flags of a standard 7-segment display glyph. The high bit drives
// the decorative point.
pub const SEG_A: u8 = 1 << 0;

pub const SEG_B: u8 = 1 << 1;

pub const SEG_C: u8 = 1 << 2;

pub const SEG_D: u8 = 1 << 3;

pub const SEG_E: u8 = 1 << 4;

pub const SEG_F: u8 = 1 << 5;

pub const SEG_G: u8 = 1 << 6;

pub const SEG_POINT: u8 = 1 << 7;

// Visual representations of the digits and some letters using the
// available display segments.
pub const SYM_ZERO: u8 = SEG_A | SEG_B | SEG_C | SEG_D | SEG_E | SEG_F;

pub const SYM_ONE: u8 = SEG_B | SEG_C;

pub const SYM_TWO: u8 = SEG_A | SEG_B | SEG_D | SEG_E | SEG_G;

pub const SYM_THREE: u8 = SEG_A | SEG_B | SEG_C | SEG_D | SEG_G;

pub const SYM_FOUR: u8 = SEG_B | SEG_C | SEG_F | SEG_G;

pub const SYM_FIVE: u8 = SEG_A | SEG_C | SEG_D | SEG_F | SEG_G;

pub const SYM_SIX: u8 = SEG_A | SEG_C | SEG_D | SEG_E | SEG_F | SEG_G;

pub const SYM_SEVEN: u8 = SEG_A | SEG_B | SEG_C;

pub const SYM_EIGHT: u8 = SEG_A | SEG_B | SEG_C | SEG_D | SEG_E | SEG_F | SEG_G;

pub const SYM_NINE: u8 = SEG_A | SEG_B | SEG_C | SEG_D | SEG_F | SEG_G;

pub const SYM_ALPHA: u8 = SEG_A | SEG_B | SEG_C | SEG_E | SEG_F | SEG_G;

pub const SYM_DELTA: u8 = SEG_B | SEG_C | SEG_D | SEG_E | SEG_G;

pub const SYM_ECHO: u8 = SEG_A | SEG_D | SEG_E | SEG_F | SEG_G;

// Position bits of the four 7-segment displays on the board, left to right.
pub const POS_D1: u8 = 1 << 0;

pub const POS_D2: u8 = 1 << 1;

pub const POS_D3: u8 = 1 << 2;

pub const POS_D4: u8 = 1 << 6;

/// The glyph showing the given decimal digit.
pub open spec fn spec_digit_symbol(d: int) -> u8 {
    if d == 0 {
        SYM_ZERO
    } else if d == 1 {
        SYM_ONE
    } else if d == 2 {
        SYM_TWO
    } else if d == 3 {
        SYM_THREE
    } else if d == 4 {
        SYM_FOUR
    } else if d == 5 {
        SYM_FIVE
    } else if d == 6 {
        SYM_SIX
    } else if d == 7 {
        SYM_SEVEN
    } else if d == 8 {
        SYM_EIGHT
    } else {
        SYM_NINE
    }
}

/// The glyph showing the given decimal digit.
pub fn digit_symbol(d: u8) -> (s: u8)
    requires
        d <= 9,
    ensures
        s == spec_digit_symbol(d as int),
{
    if d == 0 {
        SYM_ZERO
    } else if d == 1 {
        SYM_ONE
    } else if d == 2 {
        SYM_TWO
    } else if d == 3 {
        SYM_THREE
    } else if d == 4 {
        SYM_FOUR
    } else if d == 5 {
        SYM_FIVE
    } else if d == 6 {
        SYM_SIX
    } else if d == 7 {
        SYM_SEVEN
    } else if d == 8 {
        SYM_EIGHT
    } else {
        SYM_NINE
    }
}

/// The decimal digits of a number, most significant first, without leading
/// zeroes (zero itself keeps one digit).
pub open spec fn spec_digits(n: int) -> Seq<int>
    decreases n,
{
    if n < 10 {
        seq![if n < 0 { 0 } else { n }]
    } else {
        spec_digits(n / 10).push(n % 10)
    }
}

/// How the digits of a number up to four digits decompose into quotients
/// and remainders of powers of ten.
pub proof fn lemma_digits_decompose(n: int)
    requires
        0 <= n <= 9999,
    ensures
        n < 10 ==> spec_digits(n) =~= seq![n],
        10 <= n < 100 ==> spec_digits(n) =~= seq![n / 10, n % 10],
        100 <= n < 1000 ==> spec_digits(n) =~= seq![n / 100, (n / 10) % 10, n % 10],
        1000 <= n ==> spec_digits(n) =~= seq![
            n / 1000,
            (n / 100) % 10,
            (n / 10) % 10,
            n % 10,
        ],
        forall|i: int| 0 <= i < spec_digits(n).len() ==> 0 <= #[trigger] spec_digits(n)[i] <= 9,
        spec_digits(n)[0] != 0 || n < 10,
    decreases n,
{
    if n >= 10 {
        lemma_digits_decompose(n / 10);
        vstd::arithmetic::div_mod::lemma_div_denominator(n, 10, 10);
        if n >= 1000 {
            vstd::arithmetic::div_mod::lemma_div_denominator(n, 100, 10);
        }
    }
}

/// Renders an unsigned number of up to four digits into the provided
/// buffer, most significant digit first, zeroing the rest of the buffer.
/// Returns the number of digits rendered.
pub fn encode_u16_into(buf: &mut Vec<u8>, n: u16) -> (size: usize)
    requires
        old(buf).len() >= 4,
        n <= 9999,
    ensures
        final(buf).len() == old(buf).len(),
        size == spec_digits(n as int).len(),
        1 <= size <= 4,
        forall|i: int|
            0 <= i < size ==> final(buf)@[i] == spec_digit_symbol(spec_digits(n as int)[i]),
        forall|i: int| size <= i < final(buf)@.len() ==> final(buf)@[i] == 0,
{
    proof {
        lemma_digits_decompose(n as int);
    }
    let size: usize;
    if n >= 1000 {
        buf.set(0, digit_symbol((n / 1000) as u8));
        buf.set(1, digit_symbol(((n / 100) % 10) as u8));
        buf.set(2, digit_symbol(((n / 10) % 10) as u8));
        buf.set(3, digit_symbol((n % 10) as u8));
        size = 4;
    } else if n >= 100 {
        buf.set(0, digit_symbol((n / 100) as u8));
        buf.set(1, digit_symbol(((n / 10) % 10) as u8));
        buf.set(2, digit_symbol((n % 10) as u8));
        size = 3;
    } else if n >= 10 {
        buf.set(0, digit_symbol((n / 10) as u8));
        buf.set(1, digit_symbol((n % 10) as u8));
        size = 2;
    } else {
        buf.set(0, digit_symbol(n as u8));
        size = 1;
    }

    let mut i: usize = size;
    while i < buf.len()
        invariant
            size <= i <= buf@.len(),
            buf@.len() == old(buf)@.len(),
            size <= buf@.len(),
            forall|j: int| 0 <= j < size ==> buf@[j] == spec_digit_symbol(spec_digits(n as int)[j]),
            size == spec_digits(n as int).len(),
            forall|j: int| size <= j < i ==> buf@[j] == 0,
        decreases buf@.len() - i,
    {
        buf.set(i, 0);
        i = i + 1;
    }

    size
}

/// Renders an unsigned number of up to two digits into the provided buffer,
/// most significant digit first, zeroing the rest of the buffer. Returns
/// the number of digits rendered.
pub fn encode_u8_into(buf: &mut Vec<u8>, n: u8) -> (size: usize)
    requires
        old(buf).len() >= 2,
        n <= 99,
    ensures
        final(buf).len() == old(buf).len(),
        size == spec_digits(n as int).len(),
        1 <= size <= 2,
        forall|i: int|
            0 <= i < size ==> final(buf)@[i] == spec_digit_symbol(spec_digits(n as int)[i]),
        forall|i: int| size <= i < final(buf)@.len() ==> final(buf)@[i] == 0,
{
    proof {
        lemma_digits_decompose(n as int);
    }
    let size: usize;
    if n >= 10 {
        buf.set(0, digit_symbol(n / 10));
        buf.set(1, digit_symbol(n % 10));
        size = 2;
    } else {
        buf.set(0, digit_symbol(n));
        size = 1;
    }

    let mut i: usize = size;
    while i < buf.len()
        invariant
            size <= i <= buf@.len(),
            buf@.len() == old(buf)@.len(),
            size <= buf@.len(),
            forall|j: int| 0 <= j < size ==> buf@[j] == spec_digit_symbol(spec_digits(n as int)[j]),
            size == spec_digits(n as int).len(),
            forall|j: int| size <= j < i ==> buf@[j] == 0,
        decreases buf@.len() - i,
    {
        buf.set(i, 0);
        i = i + 1;
    }

    size
}

/// The four glyphs showing the two settings values side by side, separated
/// by a delta glyph. With one digit each the pair sits right of a blank;
/// with two digits each the separator gives way and a decorative point
/// splits the pair instead, keeping the layout visually balanced.
pub open spec fn spec_settings_buffer(quantity: int, quality: int) -> Seq<u8> {
    let qd = spec_digits(quantity);
    let ld = spec_digits(quality);
    if qd.len() == 1 && ld.len() == 1 {
        seq![0u8, spec_digit_symbol(qd[0]), SYM_DELTA, spec_digit_symbol(ld[0])]
    } else if qd.len() == 2 && ld.len() == 1 {
        seq![
            spec_digit_symbol(qd[0]),
            spec_digit_symbol(qd[1]),
            SYM_DELTA,
            spec_digit_symbol(ld[0]),
        ]
    } else if qd.len() == 1 && ld.len() == 2 {
        seq![
            spec_digit_symbol(qd[0]),
            SYM_DELTA,
            spec_digit_symbol(ld[0]),
            spec_digit_symbol(ld[1]),
        ]
    } else {
        seq![
            spec_digit_symbol(qd[0]),
            spec_digit_symbol(qd[1]) | SEG_POINT,
            spec_digit_symbol(ld[0]),
            spec_digit_symbol(ld[1]),
        ]
    }
}

/// The four glyphs showing a number right-aligned with a point at the end.
pub open spec fn spec_number_buffer(n: int) -> Seq<u8> {
    let ds = spec_digits(n);
    let shift = 4 - ds.len();
    Seq::new(
        4,
        |i: int|
            if i < shift {
                0u8
            } else if i < 3 {
                spec_digit_symbol(ds[i - shift])
            } else {
                spec_digit_symbol(ds[i - shift]) | SEG_POINT
            },
    )
}

/// Models the multi-digit display the output collaborator runs: four glyph
/// codes to multiplex, and at most one out-of-band forced output overriding
/// them. The rendering of both onto the physical display, and its timing,
/// are the collaborator's responsibility.
pub struct Display {
    pub buffer: Vec<u8>,
    pub forced_output: Option<(u8, u8)>,
}

impl Display {
    /// The buffer always holds one glyph per display.
    pub open spec fn wf(self) -> bool {
        self.buffer@.len() == 4
    }

    /// Returns a new instance of Display.
    pub fn new() -> (d: Self)
        ensures
            d.wf(),
            d.buffer@ =~= seq![0u8, 0u8, 0u8, 0u8],
            d.forced_output is None,
    {
        let mut buffer: Vec<u8> = Vec::new();
        buffer.push(0);
        buffer.push(0);
        buffer.push(0);
        buffer.push(0);
        Display { buffer, forced_output: None }
    }

    /// Renders the provided number aligned to the right with a dot at the
    /// end, and writes the result to the display buffer.
    pub fn set_number(&mut self, n: u16)
        requires
            old(self).wf(),
            n <= 9999,
        ensures
            final(self).wf(),
            final(self).buffer@ == spec_number_buffer(n as int),
            final(self).forced_output == old(self).forced_output,
    {
        let mut tmp: Vec<u8> = Vec::new();
        tmp.push(0);
        tmp.push(0);
        tmp.push(0);
        tmp.push(0);
        let size = encode_u16_into(&mut tmp, n);
        let shift = 4 - size;

        let mut i: usize = 0;
        while i < shift
            invariant
                self.wf(),
                i <= shift,
                shift == 4 - size,
                1 <= size <= 4,
                self.forced_output == old(self).forced_output,
                forall|j: int| 0 <= j < i ==> self.buffer@[j] == 0,
            decreases shift - i,
        {
            self.buffer.set(i, 0);
            i = i + 1;
        }

        let mut i: usize = 0;
        while i < size
            invariant
                self.wf(),
                i <= size,
                shift == 4 - size,
                1 <= size <= 4,
                tmp@.len() == 4,
                size == spec_digits(n as int).len(),
                self.forced_output == old(self).forced_output,
                forall|j: int|
                    0 <= j < size ==> tmp@[j] == spec_digit_symbol(spec_digits(n as int)[j]),
                forall|j: int| 0 <= j < shift ==> self.buffer@[j] == 0,
                forall|j: int|
                    0 <= j < i ==> self.buffer@[shift + j] == spec_digit_symbol(
                        spec_digits(n as int)[j],
                    ),
            decreases size - i,
        {
            let x = tmp[i];
            self.buffer.set(i + shift, x);
            i = i + 1;
        }

        let last = self.buffer[3];
        self.buffer.set(3, last | SEG_POINT);
        proof {
            assert(final(self).buffer@ =~= spec_number_buffer(n as int));
        }
    }

    /// Records the symbol and position the output collaborator must show
    /// out of band, regardless of the buffered glyphs.
    pub fn force_output(&mut self, symbol: u8, position: u8)
        ensures
            final(self).buffer == old(self).buffer,
            final(self).forced_output == Some((symbol, position)),
    {
        self.forced_output = Some((symbol, position));
    }
}

} // verus!
