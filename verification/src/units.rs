//! Physical dimensions: the exponents of the base units in a quantity.

use vstd::prelude::*;

verus! {

/// `String::push` appends one character to the end of the string.
pub assume_specification[ String::push ](string: &mut String, ch: char)
    ensures
        final(string)@ == old(string)@.push(ch),
;

/// The dimension of a quantity: the exponents to which the seven base units
/// and the unit of the solid angle occur in it.
#[derive(Clone, Copy, Debug, PartialEq, Eq, Structural)]
pub struct Dimension {
    /// Seconds.
    pub time: i8,
    /// Metres.
    pub length: i8,
    /// Kilograms.
    pub mass: i8,
    /// Amperes.
    pub current: i8,
    /// Kelvins.
    pub temperature: i8,
    /// Moles.
    pub amount: i8,
    /// Candelas.
    pub luminous_intensity: i8,
    /// Steradians.
    pub solid_angle: i8,
}

/// An exponent that fits the machine's integers.
pub open spec fn fits(exponent: int) -> bool {
    i8::MIN <= exponent <= i8::MAX
}

/// The superscript of a decimal digit.
pub open spec fn superscript_digit(digit: int) -> char {
    if digit == 0 {
        '⁰'
    } else if digit == 1 {
        '¹'
    } else if digit == 2 {
        '²'
    } else if digit == 3 {
        '³'
    } else if digit == 4 {
        '⁴'
    } else if digit == 5 {
        '⁵'
    } else if digit == 6 {
        '⁶'
    } else if digit == 7 {
        '⁷'
    } else if digit == 8 {
        '⁸'
    } else {
        '⁹'
    }
}

/// The decimal digits of a natural number as superscripts.
pub open spec fn superscript_digits(magnitude: nat) -> Seq<char>
    decreases magnitude,
{
    if magnitude < 10 {
        seq![superscript_digit(magnitude as int)]
    } else {
        superscript_digits(magnitude / 10).push(superscript_digit((magnitude % 10) as int))
    }
}

/// An exponent as a superscript: a superscript minus where it is negative,
/// then its decimal digits.
pub open spec fn superscript(exponent: int) -> Seq<char> {
    if exponent < 0 {
        seq!['⁻'] + superscript_digits((-exponent) as nat)
    } else {
        superscript_digits(exponent as nat)
    }
}

/// A unit to a power: nothing for the power zero, else the symbol and the
/// power as a superscript.
#[verifier::opaque]
pub open spec fn unit_text(symbol: Seq<char>, exponent: int) -> Seq<char> {
    if exponent == 0 {
        Seq::empty()
    } else {
        symbol + superscript(exponent)
    }
}

impl Dimension {
    /// The units of the dimension, one after the other: seconds, metres,
    /// kilograms, amperes, kelvins, moles, candelas, steradians, each with its
    /// exponent and left out where the exponent is zero.
    pub open spec fn text(self) -> Seq<char> {
        unit_text(seq!['s'], self.time as int) + unit_text(seq!['m'], self.length as int)
            + unit_text(seq!['k', 'g'], self.mass as int) + unit_text(
            seq!['A'],
            self.current as int,
        ) + unit_text(seq!['K'], self.temperature as int) + unit_text(
            seq!['m', 'o', 'l'],
            self.amount as int,
        ) + unit_text(seq!['c', 'd'], self.luminous_intensity as int) + unit_text(
            seq!['s', 'r'],
            self.solid_angle as int,
        )
    }

    /// The dimension of a product: exponent by exponent, the sum.
    pub open spec fn product(self, rhs: Dimension) -> Dimension {
        Dimension {
            time: (self.time + rhs.time) as i8,
            length: (self.length + rhs.length) as i8,
            mass: (self.mass + rhs.mass) as i8,
            current: (self.current + rhs.current) as i8,
            temperature: (self.temperature + rhs.temperature) as i8,
            amount: (self.amount + rhs.amount) as i8,
            luminous_intensity: (self.luminous_intensity + rhs.luminous_intensity) as i8,
            solid_angle: (self.solid_angle + rhs.solid_angle) as i8,
        }
    }

    /// The sums of a product all fit.
    pub open spec fn product_fits(self, rhs: Dimension) -> bool {
        &&& fits(self.time + rhs.time)
        &&& fits(self.length + rhs.length)
        &&& fits(self.mass + rhs.mass)
        &&& fits(self.current + rhs.current)
        &&& fits(self.temperature + rhs.temperature)
        &&& fits(self.amount + rhs.amount)
        &&& fits(self.luminous_intensity + rhs.luminous_intensity)
        &&& fits(self.solid_angle + rhs.solid_angle)
    }

    /// The dimension of a quotient: exponent by exponent, the difference.
    pub open spec fn quotient(self, rhs: Dimension) -> Dimension {
        Dimension {
            time: (self.time - rhs.time) as i8,
            length: (self.length - rhs.length) as i8,
            mass: (self.mass - rhs.mass) as i8,
            current: (self.current - rhs.current) as i8,
            temperature: (self.temperature - rhs.temperature) as i8,
            amount: (self.amount - rhs.amount) as i8,
            luminous_intensity: (self.luminous_intensity - rhs.luminous_intensity) as i8,
            solid_angle: (self.solid_angle - rhs.solid_angle) as i8,
        }
    }

    /// The differences of a quotient all fit.
    pub open spec fn quotient_fits(self, rhs: Dimension) -> bool {
        &&& fits(self.time - rhs.time)
        &&& fits(self.length - rhs.length)
        &&& fits(self.mass - rhs.mass)
        &&& fits(self.current - rhs.current)
        &&& fits(self.temperature - rhs.temperature)
        &&& fits(self.amount - rhs.amount)
        &&& fits(self.luminous_intensity - rhs.luminous_intensity)
        &&& fits(self.solid_angle - rhs.solid_angle)
    }

    /// The dimension of a power: each exponent times the degree.
    pub open spec fn power(self, degree: i8) -> Dimension {
        Dimension {
            time: (self.time * degree) as i8,
            length: (self.length * degree) as i8,
            mass: (self.mass * degree) as i8,
            current: (self.current * degree) as i8,
            temperature: (self.temperature * degree) as i8,
            amount: (self.amount * degree) as i8,
            luminous_intensity: (self.luminous_intensity * degree) as i8,
            solid_angle: (self.solid_angle * degree) as i8,
        }
    }

    /// The products of a power all fit.
    pub open spec fn power_fits(self, degree: i8) -> bool {
        &&& fits(self.time * degree)
        &&& fits(self.length * degree)
        &&& fits(self.mass * degree)
        &&& fits(self.current * degree)
        &&& fits(self.temperature * degree)
        &&& fits(self.amount * degree)
        &&& fits(self.luminous_intensity * degree)
        &&& fits(self.solid_angle * degree)
    }

    /// The dimension of a bare number.
    pub fn bare() -> (dimension: Dimension)
        ensures
            dimension == (Dimension {
                time: 0,
                length: 0,
                mass: 0,
                current: 0,
                temperature: 0,
                amount: 0,
                luminous_intensity: 0,
                solid_angle: 0,
            }),
    {
        Dimension {
            time: 0,
            length: 0,
            mass: 0,
            current: 0,
            temperature: 0,
            amount: 0,
            luminous_intensity: 0,
            solid_angle: 0,
        }
    }

    /// The dimension with the exponents of time, length, mass, temperature
    /// and solid angle, and none of the others.
    pub fn new(time: i8, length: i8, mass: i8, temperature: i8, solid_angle: i8) -> (dimension:
        Dimension)
        ensures
            dimension == (Dimension {
                time,
                length,
                mass,
                current: 0,
                temperature,
                amount: 0,
                luminous_intensity: 0,
                solid_angle,
            }),
    {
        Dimension {
            time,
            length,
            mass,
            current: 0,
            temperature,
            amount: 0,
            luminous_intensity: 0,
            solid_angle,
        }
    }

    /// Two quantities can be added or subtracted where their dimensions are
    /// the same.
    pub fn matches(&self, rhs: &Dimension) -> (same: bool)
        ensures
            same == (*self == *rhs),
    {
        self.time == rhs.time && self.length == rhs.length && self.mass == rhs.mass
            && self.current == rhs.current && self.temperature == rhs.temperature && self.amount
            == rhs.amount && self.luminous_intensity == rhs.luminous_intensity && self.solid_angle
            == rhs.solid_angle
    }

    /// The dimension of the product of two quantities, where its exponents
    /// fit.
    pub fn times(&self, rhs: &Dimension) -> (product: Option<Dimension>)
        ensures
            self.product_fits(*rhs) ==> product == Some(self.product(*rhs)),
            !self.product_fits(*rhs) ==> product is None,
    {
        let time = sum(self.time, rhs.time)?;
        let length = sum(self.length, rhs.length)?;
        let mass = sum(self.mass, rhs.mass)?;
        let current = sum(self.current, rhs.current)?;
        let temperature = sum(self.temperature, rhs.temperature)?;
        let amount = sum(self.amount, rhs.amount)?;
        let luminous_intensity = sum(self.luminous_intensity, rhs.luminous_intensity)?;
        let solid_angle = sum(self.solid_angle, rhs.solid_angle)?;
        Some(
            Dimension {
                time,
                length,
                mass,
                current,
                temperature,
                amount,
                luminous_intensity,
                solid_angle,
            },
        )
    }

    /// The dimension of the quotient of two quantities, where its exponents
    /// fit.
    pub fn per(&self, rhs: &Dimension) -> (quotient: Option<Dimension>)
        ensures
            self.quotient_fits(*rhs) ==> quotient == Some(self.quotient(*rhs)),
            !self.quotient_fits(*rhs) ==> quotient is None,
    {
        let time = difference(self.time, rhs.time)?;
        let length = difference(self.length, rhs.length)?;
        let mass = difference(self.mass, rhs.mass)?;
        let current = difference(self.current, rhs.current)?;
        let temperature = difference(self.temperature, rhs.temperature)?;
        let amount = difference(self.amount, rhs.amount)?;
        let luminous_intensity = difference(self.luminous_intensity, rhs.luminous_intensity)?;
        let solid_angle = difference(self.solid_angle, rhs.solid_angle)?;
        Some(
            Dimension {
                time,
                length,
                mass,
                current,
                temperature,
                amount,
                luminous_intensity,
                solid_angle,
            },
        )
    }

    /// The dimension of a quantity raised to a power, where its exponents
    /// fit.
    pub fn powi(&self, degree: i8) -> (power: Option<Dimension>)
        ensures
            self.power_fits(degree) ==> power == Some(self.power(degree)),
            !self.power_fits(degree) ==> power is None,
    {
        let time = multiple(self.time, degree)?;
        let length = multiple(self.length, degree)?;
        let mass = multiple(self.mass, degree)?;
        let current = multiple(self.current, degree)?;
        let temperature = multiple(self.temperature, degree)?;
        let amount = multiple(self.amount, degree)?;
        let luminous_intensity = multiple(self.luminous_intensity, degree)?;
        let solid_angle = multiple(self.solid_angle, degree)?;
        Some(
            Dimension {
                time,
                length,
                mass,
                current,
                temperature,
                amount,
                luminous_intensity,
                solid_angle,
            },
        )
    }

    /// Writes the units of the dimension after what the string holds.
    pub fn write_units(&self, text: &mut String)
        ensures
            final(text)@ == old(text)@ + self.text(),
    {
        let ghost start = text@;
        proof {
            assert(symbol_text('s', None, None) =~= seq!['s']);
            assert(symbol_text('m', None, None) =~= seq!['m']);
            assert(symbol_text('k', Some('g'), None) =~= seq!['k', 'g']);
            assert(symbol_text('A', None, None) =~= seq!['A']);
            assert(symbol_text('K', None, None) =~= seq!['K']);
            assert(symbol_text('m', Some('o'), Some('l')) =~= seq!['m', 'o', 'l']);
            assert(symbol_text('c', Some('d'), None) =~= seq!['c', 'd']);
            assert(symbol_text('s', Some('r'), None) =~= seq!['s', 'r']);
        }
        let ghost time = unit_text(seq!['s'], self.time as int);
        let ghost length = unit_text(seq!['m'], self.length as int);
        let ghost mass = unit_text(seq!['k', 'g'], self.mass as int);
        let ghost current = unit_text(seq!['A'], self.current as int);
        let ghost temperature = unit_text(seq!['K'], self.temperature as int);
        let ghost amount = unit_text(seq!['m', 'o', 'l'], self.amount as int);
        let ghost intensity = unit_text(seq!['c', 'd'], self.luminous_intensity as int);
        let ghost angle = unit_text(seq!['s', 'r'], self.solid_angle as int);
        write_unit(text, 's', None, None, self.time);
        write_unit(text, 'm', None, None, self.length);
        assert(text@ =~= start + (time + length));
        write_unit(text, 'k', Some('g'), None, self.mass);
        assert(text@ =~= start + (time + length + mass));
        write_unit(text, 'A', None, None, self.current);
        assert(text@ =~= start + (time + length + mass + current));
        write_unit(text, 'K', None, None, self.temperature);
        assert(text@ =~= start + (time + length + mass + current + temperature));
        write_unit(text, 'm', Some('o'), Some('l'), self.amount);
        assert(text@ =~= start + (time + length + mass + current + temperature + amount));
        write_unit(text, 'c', Some('d'), None, self.luminous_intensity);
        assert(text@ =~= start + (time + length + mass + current + temperature + amount
            + intensity));
        write_unit(text, 's', Some('r'), None, self.solid_angle);
        assert(text@ =~= start + (time + length + mass + current + temperature + amount + intensity
            + angle));
    }

    /// The units of the dimension as a string.
    pub fn units(&self) -> (text: String)
        ensures
            text@ == self.text(),
    {
        let mut text = String::new();
        self.write_units(&mut text);
        assert(Seq::<char>::empty() + self.text() =~= self.text());
        text
    }
}

/// The sum of two exponents, where it fits.
fn sum(a: i8, b: i8) -> (total: Option<i8>)
    ensures
        fits(a + b) ==> total == Some((a + b) as i8),
        !fits(a + b) ==> total is None,
{
    let wide: i16 = a as i16 + b as i16;
    if wide < -128 || wide > 127 {
        None
    } else {
        Some(wide as i8)
    }
}

/// The difference of two exponents, where it fits.
fn difference(a: i8, b: i8) -> (rest: Option<i8>)
    ensures
        fits(a - b) ==> rest == Some((a - b) as i8),
        !fits(a - b) ==> rest is None,
{
    let wide: i16 = a as i16 - b as i16;
    if wide < -128 || wide > 127 {
        None
    } else {
        Some(wide as i8)
    }
}

/// The product of an exponent and a degree, where it fits.
fn multiple(a: i8, degree: i8) -> (product: Option<i8>)
    ensures
        fits(a * degree) ==> product == Some((a * degree) as i8),
        !fits(a * degree) ==> product is None,
{
    assert(-16384 <= a * degree <= 16384) by (nonlinear_arith)
        requires
            -128 <= a <= 127,
            -128 <= degree <= 127,
    ;
    let wide: i16 = a as i16 * degree as i16;
    if wide < -128 || wide > 127 {
        None
    } else {
        Some(wide as i8)
    }
}

/// The symbol of a unit, of one to three letters.
pub open spec fn symbol_text(first: char, second: Option<char>, third: Option<char>) -> Seq<
    char,
> {
    let one = seq![first];
    let two = match second {
        Some(letter) => one.push(letter),
        None => one,
    };
    match third {
        Some(letter) => two.push(letter),
        None => two,
    }
}

/// Picks the superscript of a decimal digit.
fn digit_char(digit: u8) -> (ch: char)
    requires
        digit < 10,
    ensures
        ch == superscript_digit(digit as int),
{
    if digit == 0 {
        '⁰'
    } else if digit == 1 {
        '¹'
    } else if digit == 2 {
        '²'
    } else if digit == 3 {
        '³'
    } else if digit == 4 {
        '⁴'
    } else if digit == 5 {
        '⁵'
    } else if digit == 6 {
        '⁶'
    } else if digit == 7 {
        '⁷'
    } else if digit == 8 {
        '⁸'
    } else {
        '⁹'
    }
}

/// Writes a unit to a power after what the string holds: nothing for the
/// power zero, else the symbol and the power as a superscript.
pub fn write_unit(
    text: &mut String,
    first: char,
    second: Option<char>,
    third: Option<char>,
    exponent: i8,
)
    ensures
        final(text)@ == old(text)@ + unit_text(symbol_text(first, second, third), exponent as int),
{
    let ghost start = text@;
    proof {
        reveal(unit_text);
    }
    if exponent != 0 {
        text.push(first);
        if let Some(letter) = second {
            text.push(letter);
        }
        if let Some(letter) = third {
            text.push(letter);
        }
        assert(text@ =~= start + symbol_text(first, second, third));
        let magnitude: u8 = if exponent < 0 {
            text.push('⁻');
            (-(exponent as i16)) as u8
        } else {
            exponent as u8
        };
        let ghost signed = text@;
        if magnitude >= 100 {
            text.push(digit_char(magnitude / 100));
        }
        if magnitude >= 10 {
            text.push(digit_char((magnitude / 10) % 10));
        }
        text.push(digit_char(magnitude % 10));
        proof {
            reveal_with_fuel(superscript_digits, 3);
            assert(text@ =~= signed + superscript_digits(magnitude as nat));
            assert(text@ =~= start + unit_text(
                symbol_text(first, second, third),
                exponent as int,
            ));
        }
    } else {
        assert(text@ =~= start + unit_text(symbol_text(first, second, third), exponent as int));
    }
}

} // verus!
