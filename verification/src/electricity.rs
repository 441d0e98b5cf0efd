//! The electrical readings of a telegram.
//!
//! A telegram reports voltage, current and power for each of three phases,
//! and two running totals. Each value is written as a decimal number. The
//! library checks that it is one when it reads the line, carries the value as
//! the text that the telegram wrote, and leaves it to the caller to turn that
//! text into a number. A value that no line has given reads `0.0`.

use crate::ascii::{is_decimal, is_digit};
use vstd::prelude::*;
use vstd::slice::slice_to_vec;

verus! {

/// What an electricity line measures.
#[derive(Debug, Clone, Copy, PartialEq, Eq, Structural)]
pub enum Quantity {
    Voltage,
    Current,
    Power,
    Total,
}

/// The text of a value that no line has given: `0.0`.
pub open spec fn zero_text() -> Seq<u8> {
    seq!['0' as u8, '.' as u8, '0' as u8]
}

/// The text of a value that no line has given is a decimal number.
pub proof fn lemma_zero_is_decimal()
    ensures
        is_decimal(zero_text()),
{
    assert(is_digit(zero_text()[0]));
}

/// One value for each of the three phases.
#[derive(Debug, Clone, PartialEq, Eq)]
pub struct PerPhase {
    pub phase_1: Vec<u8>,
    pub phase_2: Vec<u8>,
    pub phase_3: Vec<u8>,
}

impl View for PerPhase {
    type V = Seq<Seq<u8>>;

    /// The three values by phase, phase 1 at index 0.
    open spec fn view(&self) -> Seq<Seq<u8>> {
        seq![self.phase_1@, self.phase_2@, self.phase_3@]
    }
}

/// The text `0.0`.
fn zero() -> (text: Vec<u8>)
    ensures
        text@ == zero_text(),
{
    let mut text: Vec<u8> = Vec::new();
    text.push('0' as u8);
    text.push('.' as u8);
    text.push('0' as u8);
    assert(text@ =~= zero_text());
    text
}

impl PerPhase {
    /// Three values that no line has given.
    pub fn new() -> (values: PerPhase)
        ensures
            values@ == seq![zero_text(), zero_text(), zero_text()],
    {
        PerPhase { phase_1: zero(), phase_2: zero(), phase_3: zero() }
    }

    /// Puts `text` in the place of the value of the phase with index `phase`.
    pub fn set(&mut self, phase: u8, text: Vec<u8>)
        requires
            phase < 3,
        ensures
            final(self)@ == old(self)@.update(phase as int, text@),
    {
        if phase == 0 {
            self.phase_1 = text;
        } else if phase == 1 {
            self.phase_2 = text;
        } else {
            self.phase_3 = text;
        }
        assert(self@ =~= old(self)@.update(phase as int, text@));
    }
}

/// The electrical readings of one telegram.
#[derive(Debug, Clone, PartialEq, Eq)]
pub struct ElectricityReading {
    pub voltage: PerPhase,
    pub current: PerPhase,
    pub power: PerPhase,
    pub total_consumed: Vec<u8>,
    pub total_produced: Vec<u8>,
}

/// The readings as the contracts speak of them. The three sequences by phase
/// have three values each.
pub struct ElectricityView {
    pub voltage: Seq<Seq<u8>>,
    pub current: Seq<Seq<u8>>,
    pub power: Seq<Seq<u8>>,
    pub total_consumed: Seq<u8>,
    pub total_produced: Seq<u8>,
}

impl View for ElectricityReading {
    type V = ElectricityView;

    open spec fn view(&self) -> ElectricityView {
        ElectricityView {
            voltage: self.voltage@,
            current: self.current@,
            power: self.power@,
            total_consumed: self.total_consumed@,
            total_produced: self.total_produced@,
        }
    }
}

impl ElectricityView {
    /// Whether voltage, current and power have a value for each of the three
    /// phases.
    pub open spec fn has_three_phases(self) -> bool {
        self.voltage.len() == 3 && self.current.len() == 3 && self.power.len() == 3
    }

    /// Whether every value is the text of a decimal number.
    pub open spec fn holds_decimals(self) -> bool {
        &&& forall|i: int| 0 <= i < self.voltage.len() ==> is_decimal(#[trigger] self.voltage[i])
        &&& forall|i: int| 0 <= i < self.current.len() ==> is_decimal(#[trigger] self.current[i])
        &&& forall|i: int| 0 <= i < self.power.len() ==> is_decimal(#[trigger] self.power[i])
        &&& is_decimal(self.total_consumed)
        &&& is_decimal(self.total_produced)
    }

    /// The readings of a telegram that has no electricity line yet.
    pub open spec fn unset() -> ElectricityView {
        ElectricityView {
            voltage: seq![zero_text(), zero_text(), zero_text()],
            current: seq![zero_text(), zero_text(), zero_text()],
            power: seq![zero_text(), zero_text(), zero_text()],
            total_consumed: zero_text(),
            total_produced: zero_text(),
        }
    }

    /// The readings after a line has given `text` as the value of `quantity`
    /// for the phase with index `phase`. A later value takes the place of an
    /// earlier one. A total given for the first phase is the total consumed;
    /// given for another phase it is the total produced.
    pub open spec fn with(self, quantity: Quantity, phase: u8, text: Seq<u8>) -> ElectricityView {
        match quantity {
            Quantity::Voltage => ElectricityView {
                voltage: self.voltage.update(phase as int, text),
                ..self
            },
            Quantity::Current => ElectricityView {
                current: self.current.update(phase as int, text),
                ..self
            },
            Quantity::Power => ElectricityView {
                power: self.power.update(phase as int, text),
                ..self
            },
            Quantity::Total => if phase == 0 {
                ElectricityView { total_consumed: text, ..self }
            } else {
                ElectricityView { total_produced: text, ..self }
            },
        }
    }
}

impl ElectricityReading {
    /// The readings of a telegram that has no electricity line yet.
    pub fn new() -> (reading: ElectricityReading)
        ensures
            reading@ == ElectricityView::unset(),
    {
        ElectricityReading {
            voltage: PerPhase::new(),
            current: PerPhase::new(),
            power: PerPhase::new(),
            total_consumed: zero(),
            total_produced: zero(),
        }
    }

    /// Takes down `text` as the value of `quantity` for the phase with index
    /// `phase`.
    pub fn record(&mut self, quantity: Quantity, phase: u8, text: &[u8])
        requires
            phase < 3,
        ensures
            final(self)@ == old(self)@.with(quantity, phase, text@),
    {
        let value = slice_to_vec(text);
        match quantity {
            Quantity::Voltage => self.voltage.set(phase, value),
            Quantity::Current => self.current.set(phase, value),
            Quantity::Power => self.power.set(phase, value),
            Quantity::Total => {
                if phase == 0 {
                    self.total_consumed = value;
                } else {
                    self.total_produced = value;
                }
            },
        }
    }
}

} // verus!
