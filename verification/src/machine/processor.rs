//! The core: the register bank, the flags, and what each instruction does
//! to them.

use crate::instruction::ComparisonType;
use crate::instruction::Condition;
use crate::instruction::Source;
use crate::instruction::Target;
use crate::machine::outcome;
use crate::machine::Fault;
use crate::machine::FaultView;
use crate::machine::Register;
use crate::stack_frame::REGISTER_COUNT;
use crate::value::Value;
use vstd::prelude::*;

verus! {

/// The relation that the last compare instruction found.
#[derive(Debug, Clone, Copy, PartialEq, Eq, Structural)]
pub enum Comparison {
    /// Nothing was compared yet.
    Unset,
    Equal,
    NotEqual,
    LessThan,
    LessThanOrEqual,
    GreaterThan,
    GreaterThanOrEqual,
}

/// The flags word.
#[derive(Debug, Clone, Copy, PartialEq, Eq, Structural)]
pub struct CoreFlags {
    /// What the last compare instruction found. Nothing else writes it.
    pub comparison: Comparison,
    /// Whether the last arithmetic instruction wrapped.
    pub carry: bool,
    /// Whether the last result was below zero.
    pub negative: bool,
    /// Whether the last result was zero.
    pub zero: bool,
}

impl Default for CoreFlags {
    fn default() -> (flags: CoreFlags)
        ensures
            flags == (CoreFlags {
                comparison: Comparison::Unset,
                carry: false,
                negative: false,
                zero: false,
            }),
    {
        CoreFlags { comparison: Comparison::Unset, carry: false, negative: false, zero: false }
    }
}

/// The core of the machine.
#[derive(Debug)]
pub struct Core {
    pub flags: CoreFlags,
    pub registers: [Register; REGISTER_COUNT],
}

/// What a core is, as plain values.
pub struct CoreView {
    pub flags: CoreFlags,
    /// The values that the registers hold, by index.
    pub registers: Seq<Value>,
}

impl View for Core {
    type V = CoreView;

    open spec fn view(&self) -> CoreView {
        CoreView {
            flags: self.flags,
            registers: crate::stack_frame::frame::register_values(self.registers@),
        }
    }
}

/// The five arithmetic operations.
#[derive(Debug, Clone, Copy, PartialEq, Eq, Structural)]
pub enum Arithmetic {
    Add,
    Sub,
    Mul,
    Div,
    Mod,
}

/// The bitwise operations on two values.
#[derive(Debug, Clone, Copy, PartialEq, Eq, Structural)]
pub enum Bitwise {
    And,
    Or,
    Xor,
    ShiftLeft,
    ShiftRight,
}

/// The relation that a comparison of kind `kind` records, from whether the
/// left value was found equal to the right one, to come before it, or to
/// come after it: the kind where it holds, and its opposite where it does
/// not. (Of two floating-point values of which one is not a number, none of
/// the three was found.)
pub open spec fn observed(kind: ComparisonType, equal: bool, less: bool, greater: bool)
    -> Comparison {
    match kind {
        ComparisonType::Equal | ComparisonType::NotEqual => if equal {
            Comparison::Equal
        } else {
            Comparison::NotEqual
        },
        ComparisonType::LessThan => if less {
            Comparison::LessThan
        } else {
            Comparison::GreaterThanOrEqual
        },
        ComparisonType::LessThanOrEqual => if less || equal {
            Comparison::LessThanOrEqual
        } else {
            Comparison::GreaterThan
        },
        ComparisonType::GreaterThan => if greater {
            Comparison::GreaterThan
        } else {
            Comparison::LessThanOrEqual
        },
        ComparisonType::GreaterThanOrEqual => if greater || equal {
            Comparison::GreaterThanOrEqual
        } else {
            Comparison::LessThan
        },
    }
}

/// What an arithmetic operation on two values gives: the result and whether
/// it wrapped.
///
/// Both values must be integers of one type. With `carry`, an addition adds
/// one more and a subtraction subtracts one more, and the result wrapped
/// where either step did. A division by zero is a fault of its own.
pub open spec fn arithmetic_result(operation: Arithmetic, lhs: Value, rhs: Value, carry: bool)
    -> Result<(Value, bool), FaultView> {
    let typ = lhs.tag();
    if rhs.tag() != typ || !typ.is_integer() {
        Err(FaultView::InvalidOperation)
    } else {
        match operation {
            Arithmetic::Add => {
                let sum = lhs.as_int() + rhs.as_int();
                if carry {
                    Ok(
                        (
                            Value::wrapped(typ, typ.wrap(sum) + 1),
                            !typ.holds(sum) || !typ.holds(typ.wrap(sum) + 1),
                        ),
                    )
                } else {
                    Ok((Value::wrapped(typ, sum), !typ.holds(sum)))
                }
            },
            Arithmetic::Sub => {
                let difference = lhs.as_int() - rhs.as_int();
                if carry {
                    Ok(
                        (
                            Value::wrapped(typ, typ.wrap(difference) - 1),
                            !typ.holds(difference) || !typ.holds(typ.wrap(difference) - 1),
                        ),
                    )
                } else {
                    Ok((Value::wrapped(typ, difference), !typ.holds(difference)))
                }
            },
            Arithmetic::Mul => {
                let product = lhs.as_int() * rhs.as_int();
                Ok((Value::wrapped(typ, product), !typ.holds(product)))
            },
            Arithmetic::Div => if rhs.as_int() == 0 {
                Err(FaultView::DivisionByZero)
            } else {
                let quotient = Value::truncated_quotient(lhs.as_int(), rhs.as_int());
                Ok((Value::wrapped(typ, quotient), !typ.holds(quotient)))
            },
            Arithmetic::Mod => if rhs.as_int() == 0 {
                Err(FaultView::DivisionByZero)
            } else {
                let quotient = Value::truncated_quotient(lhs.as_int(), rhs.as_int());
                let remainder = Value::truncated_remainder(lhs.as_int(), rhs.as_int());
                Ok((Value::from_int(typ, remainder), !typ.holds(quotient)))
            },
        }
    }
}

/// What a bitwise operation on two values gives. Both must be integers of
/// one type.
pub open spec fn bitwise_result(operation: Bitwise, lhs: Value, rhs: Value) -> Result<
    Value,
    FaultView,
> {
    if !lhs.tag().is_integer() || rhs.tag() != lhs.tag() {
        Err(FaultView::InvalidOperation)
    } else {
        Ok(
            match operation {
                Bitwise::And => lhs.bit_and(rhs),
                Bitwise::Or => lhs.bit_or(rhs),
                Bitwise::Xor => lhs.bit_xor(rhs),
                Bitwise::ShiftLeft => lhs.shifted_left(rhs),
                Bitwise::ShiftRight => lhs.shifted_right(rhs),
            },
        )
    }
}

impl CoreView {
    /// What reading `source` gives: the constant, or the register's value
    /// retagged as the type that the source names.
    pub open spec fn read(self, source: Source) -> Result<Value, FaultView> {
        match source {
            Source::Register(index, register_type) => {
                if index >= self.registers.len() {
                    Err(FaultView::InvalidRegister)
                } else if !Value::can_transmute(
                    self.registers[index as int].tag(),
                    register_type.value_type(),
                ) {
                    Err(FaultView::InvalidOperation)
                } else {
                    Ok(
                        Value::wrapped(
                            register_type.value_type(),
                            self.registers[index as int].as_int(),
                        ),
                    )
                }
            },
            Source::Immediate(immediate) => Ok(immediate.value()),
        }
    }

    /// What reading the register of `target` as the target's type gives.
    pub open spec fn read_target(self, target: Target) -> Result<Value, FaultView> {
        self.read(Source::Register(target.0, target.1))
    }

    /// The core after `value` was written into the register of `target`.
    pub open spec fn write(self, target: Target, value: Value) -> Result<CoreView, FaultView> {
        if target.0 >= self.registers.len() {
            Err(FaultView::InvalidRegister)
        } else {
            Ok(CoreView { registers: self.registers.update(target.0 as int, value), ..self })
        }
    }

    /// The core after a load.
    pub open spec fn load(self, target: Target, source: Source) -> Result<CoreView, FaultView> {
        match self.read(source) {
            Ok(value) => self.write(target, value),
            Err(fault) => Err(fault),
        }
    }

    /// The core after an arithmetic result: a result that wrapped is a fault
    /// unless wrapping is allowed; else the carry flag says whether it
    /// wrapped, the negative and zero flags describe it, and the register of
    /// `target` holds it.
    pub open spec fn finish_arithmetic(
        self,
        target: Target,
        value: Value,
        overflow: bool,
        can_wrap: bool,
    ) -> Result<CoreView, FaultView> {
        if overflow && !can_wrap {
            Err(FaultView::Overflow)
        } else {
            (CoreView {
                flags: CoreFlags {
                    carry: overflow,
                    negative: value.negative(),
                    zero: value.zero(),
                    ..self.flags
                },
                ..self
            }).write(target, value)
        }
    }

    /// The core after a bitwise result: the negative and zero flags describe
    /// it, and the register of `target` holds it. The carry flag stays.
    pub open spec fn finish_bitwise(self, target: Target, value: Value) -> Result<
        CoreView,
        FaultView,
    > {
        (CoreView {
            flags: CoreFlags { negative: value.negative(), zero: value.zero(), ..self.flags },
            ..self
        }).write(target, value)
    }

    /// The core after an arithmetic instruction: the source is read, then
    /// the target, the operation is performed on the two, and the result is
    /// finished.
    pub open spec fn arithmetic(
        self,
        operation: Arithmetic,
        target: Target,
        source: Source,
        can_wrap: bool,
        use_carry: bool,
    ) -> Result<CoreView, FaultView> {
        match (self.read(source), self.read_target(target)) {
            (Err(fault), _) => Err(fault),
            (Ok(_), Err(fault)) => Err(fault),
            (Ok(rhs), Ok(lhs)) => match arithmetic_result(
                operation,
                lhs,
                rhs,
                use_carry && self.flags.carry,
            ) {
                Err(fault) => Err(fault),
                Ok((value, overflow)) => self.finish_arithmetic(target, value, overflow, can_wrap),
            },
        }
    }

    /// The core after a bitwise instruction.
    pub open spec fn bitwise(self, operation: Bitwise, target: Target, source: Source) -> Result<
        CoreView,
        FaultView,
    > {
        match (self.read(source), self.read_target(target)) {
            (Err(fault), _) => Err(fault),
            (Ok(_), Err(fault)) => Err(fault),
            (Ok(rhs), Ok(lhs)) => match bitwise_result(operation, lhs, rhs) {
                Err(fault) => Err(fault),
                Ok(value) => self.finish_bitwise(target, value),
            },
        }
    }

    /// The core after a not instruction: every bit of the target, which must
    /// be an integer, is inverted.
    pub open spec fn bitwise_not(self, target: Target) -> Result<CoreView, FaultView> {
        match self.read_target(target) {
            Err(fault) => Err(fault),
            Ok(value) => if value.tag().is_integer() {
                self.finish_bitwise(target, value.bit_not())
            } else {
                Err(FaultView::InvalidOperation)
            },
        }
    }

    /// The core after a compare instruction: the comparison flag holds the
    /// relation found between the target and the source, which must be of
    /// one type.
    pub open spec fn compare(self, target: Target, source: Source, kind: ComparisonType) -> Result<
        CoreView,
        FaultView,
    > {
        match (self.read(source), self.read_target(target)) {
            (Err(fault), _) => Err(fault),
            (Ok(_), Err(fault)) => Err(fault),
            (Ok(rhs), Ok(lhs)) => if lhs.tag() != rhs.tag() {
                Err(FaultView::InvalidOperation)
            } else {
                Ok(
                    CoreView {
                        flags: CoreFlags {
                            comparison: observed(
                                kind,
                                lhs.equal_to(rhs),
                                lhs.less_than(rhs),
                                rhs.less_than(lhs),
                            ),
                            ..self.flags
                        },
                        ..self
                    },
                )
            },
        }
    }

    /// Whether a condition holds, given whether the live frame is a
    /// continuation. A comparison condition holds where the comparison flag
    /// is exactly the relation that it names.
    pub open spec fn holds(self, condition: Condition, in_continuation: bool) -> bool {
        match condition {
            Condition::Always => true,
            Condition::Equal => self.flags.comparison == Comparison::Equal,
            Condition::NotEqual => self.flags.comparison == Comparison::NotEqual,
            Condition::LessThan => self.flags.comparison == Comparison::LessThan,
            Condition::LessThanOrEqual => self.flags.comparison == Comparison::LessThanOrEqual,
            Condition::GreaterThan => self.flags.comparison == Comparison::GreaterThan,
            Condition::GreaterThanOrEqual => self.flags.comparison
                == Comparison::GreaterThanOrEqual,
            Condition::Zero => self.flags.zero,
            Condition::NotZero => !self.flags.zero,
            Condition::Carry => self.flags.carry,
            Condition::NotCarry => !self.flags.carry,
            Condition::Negative => self.flags.negative,
            Condition::NotNegative => !self.flags.negative,
            Condition::InContinuation => in_continuation,
            Condition::NotInContinuation => !in_continuation,
        }
    }
}

/// An arithmetic instruction that succeeds has read both operands as the
/// type of its target, and leaves in the target's register a value of that
/// type.
pub proof fn lemma_arithmetic_keeps_type(
    core: CoreView,
    operation: Arithmetic,
    target: Target,
    source: Source,
    can_wrap: bool,
    use_carry: bool,
)
    requires
        core.arithmetic(operation, target, source, can_wrap, use_carry) is Ok,
    ensures
        core.read(source) matches Ok(rhs) && rhs.tag() == target.1.value_type(),
        core.read_target(target) matches Ok(lhs) && lhs.tag() == target.1.value_type(),
        ({
            let after = core.arithmetic(operation, target, source, can_wrap, use_carry)->Ok_0;
            after.registers[target.0 as int].tag() == target.1.value_type()
        }),
{
    let typ = target.1.value_type();
    let lhs = core.read_target(target)->Ok_0;
    let rhs = core.read(source)->Ok_0;
    crate::value::lemma_wrapped(typ, core.registers[target.0 as int].as_int());
    let (value, overflow) = arithmetic_result(
        operation,
        lhs,
        rhs,
        use_carry && core.flags.carry,
    )->Ok_0;
    lemma_arithmetic_result(operation, lhs, rhs, use_carry && core.flags.carry);
}

/// What an arithmetic operation gives is an integer of the type of its
/// operands that holds a number of that type.
pub proof fn lemma_arithmetic_result(operation: Arithmetic, lhs: Value, rhs: Value, carry: bool)
    requires
        arithmetic_result(operation, lhs, rhs, carry) is Ok,
    ensures
        ({
            let (value, overflow) = arithmetic_result(operation, lhs, rhs, carry)->Ok_0;
            value.tag() == lhs.tag() && lhs.tag().is_integer() && lhs.tag().holds(value.as_int())
        }),
{
    let typ = lhs.tag();
    let a = lhs.as_int();
    let b = rhs.as_int();
    match operation {
        Arithmetic::Add => {
            crate::value::lemma_wrapped(typ, a + b);
            crate::value::lemma_wrapped(typ, typ.wrap(a + b) + 1);
            crate::value::lemma_wrap(typ, a + b);
            crate::value::lemma_wrap(typ, typ.wrap(a + b) + 1);
        },
        Arithmetic::Sub => {
            crate::value::lemma_wrapped(typ, a - b);
            crate::value::lemma_wrapped(typ, typ.wrap(a - b) - 1);
            crate::value::lemma_wrap(typ, a - b);
            crate::value::lemma_wrap(typ, typ.wrap(a - b) - 1);
        },
        Arithmetic::Mul => {
            crate::value::lemma_wrapped(typ, a * b);
            crate::value::lemma_wrap(typ, a * b);
        },
        Arithmetic::Div => {
            let q = Value::truncated_quotient(a, b);
            crate::value::lemma_wrapped(typ, q);
            crate::value::lemma_wrap(typ, q);
        },
        Arithmetic::Mod => {
            lemma_remainder_is_held(lhs, rhs);
        },
    }
}

/// What is left after the division of two integers of one type is a number
/// that the type holds.
pub proof fn lemma_remainder_is_held(lhs: Value, rhs: Value)
    requires
        lhs.tag().is_integer(),
        rhs.tag() == lhs.tag(),
        rhs.as_int() != 0,
    ensures
        ({
            let m = Value::truncated_remainder(lhs.as_int(), rhs.as_int());
            let value = Value::from_int(lhs.tag(), m);
            lhs.tag().holds(m) && value.tag() == lhs.tag() && value.as_int() == m
        }),
{
    let a = lhs.as_int();
    let b = rhs.as_int();
    let ma = if a < 0 {
        -a
    } else {
        a
    };
    let mb = if b < 0 {
        -b
    } else {
        b
    };
    assert(0 <= ma % mb < mb) by (nonlinear_arith)
        requires
            mb > 0,
            ma >= 0,
    ;
    assert(ma % mb <= ma) by (nonlinear_arith)
        requires
            mb > 0,
            ma >= 0,
    ;
}

/// After an arithmetic instruction that succeeds, the zero flag says
/// whether the result is zero, and the negative flag whether it is below
/// zero.
pub proof fn lemma_arithmetic_sets_flags(
    core: CoreView,
    operation: Arithmetic,
    target: Target,
    source: Source,
    can_wrap: bool,
    use_carry: bool,
)
    requires
        core.arithmetic(operation, target, source, can_wrap, use_carry) is Ok,
    ensures
        ({
            let after = core.arithmetic(operation, target, source, can_wrap, use_carry)->Ok_0;
            let result = after.registers[target.0 as int];
            &&& after.flags.zero <==> result.as_int() == 0
            &&& after.flags.negative <==> result.as_int() < 0
            &&& after.flags.comparison == core.flags.comparison
        }),
{
    let lhs = core.read_target(target)->Ok_0;
    let rhs = core.read(source)->Ok_0;
    lemma_arithmetic_result(operation, lhs, rhs, use_carry && core.flags.carry);
}

/// After a bitwise or shift instruction that succeeds, the zero flag says
/// whether the result is zero, and the negative flag whether it is below
/// zero; the carry flag and the comparison flag are as they were.
pub proof fn lemma_bitwise_sets_flags(
    core: CoreView,
    operation: Bitwise,
    target: Target,
    source: Source,
)
    requires
        core.bitwise(operation, target, source) is Ok,
    ensures
        ({
            let after = core.bitwise(operation, target, source)->Ok_0;
            let result = after.registers[target.0 as int];
            &&& after.flags.zero <==> result.as_int() == 0
            &&& after.flags.negative <==> result.as_int() < 0
            &&& after.flags.carry == core.flags.carry
            &&& after.flags.comparison == core.flags.comparison
        }),
{
}

/// After a not instruction that succeeds, the zero flag says whether the
/// result is zero, and the negative flag whether it is below zero; the carry
/// flag and the comparison flag are as they were.
pub proof fn lemma_not_sets_flags(core: CoreView, target: Target)
    requires
        core.bitwise_not(target) is Ok,
    ensures
        ({
            let after = core.bitwise_not(target)->Ok_0;
            let result = after.registers[target.0 as int];
            &&& after.flags.zero <==> result.as_int() == 0
            &&& after.flags.negative <==> result.as_int() < 0
            &&& after.flags.carry == core.flags.carry
            &&& after.flags.comparison == core.flags.comparison
        }),
{
}

/// What a step of the core that has no result of its own came to: on
/// success the core is as `expected` says, on a fault the fault is the
/// expected one and the core is as it was.
pub open spec fn core_step(
    before: CoreView,
    after: CoreView,
    result: Result<(), Fault>,
    expected: Result<CoreView, FaultView>,
) -> bool {
    match expected {
        Ok(core) => result is Ok && after == core,
        Err(fault) => outcome(result) == Err::<(), FaultView>(fault) && after == before,
    }
}

/// Reading a value from the core.
pub trait CoreUtils<T> {
    fn get_value(&self, source: T) -> Result<Value, Fault>;
}

impl CoreUtils<&Source> for Core {
    /// The constant, or the register's value retagged as the type that the
    /// source names.
    ///
    /// A register index out of range faults with `InvalidRegister`, a
    /// retagging that is not defined with `InvalidOperation`.
    fn get_value(&self, source: &Source) -> (result: Result<Value, Fault>)
        ensures
            outcome(result) == self@.read(*source),
    {
        match source {
            Source::Register(index, register_type) => {
                if *index >= REGISTER_COUNT {
                    return Err(Fault::InvalidRegister);
                }
                match self.registers[*index].get_value(register_type.to_value_type()) {
                    Some(value) => Ok(value),
                    None => Err(
                        Fault::InvalidOperation(
                            String::from_str("the register cannot be read as this type"),
                        ),
                    ),
                }
            },
            Source::Immediate(immediate) => Ok(immediate.to_value()),
        }
    }
}

impl CoreUtils<&Target> for Core {
    /// The value of the target's register, retagged as the target's type.
    fn get_value(&self, source: &Target) -> (result: Result<Value, Fault>)
        ensures
            outcome(result) == self@.read_target(*source),
    {
        self.get_value(&Source::Register(source.0, source.1))
    }
}

/// A register bank in which every register holds the `U64` zero.
fn zeroed_registers() -> (registers: [Register; 32])
    ensures
        forall|i: int| 0 <= i < 32 ==> registers@[i] == (Register { value: Value::U64(0) }),
{
    let zero = Register { value: Value::U64(0) };
    let registers: [Register; 32] = [zero;32];
    proof {
        vstd::array::axiom_spec_array_fill_for_copy_type::<Register, 32>(zero);
        let filled = vstd::array::spec_array_fill_for_copy_type::<Register, 32>(zero);
        assert(registers == filled);
        assert forall|i: int| 0 <= i < 32 implies registers@[i] == zero by {
            assert(filled.view()[i] == zero);
        }
    }
    registers
}

impl Default for Core {
    fn default() -> (core: Core)
        ensures
            core@.flags == (CoreFlags {
                comparison: Comparison::Unset,
                carry: false,
                negative: false,
                zero: false,
            }),
            core@.registers == Seq::new(32, |i: int| Value::U64(0)),
    {
        let core = Core { flags: CoreFlags::default(), registers: zeroed_registers() };
        assert(core@.registers =~= Seq::new(32, |i: int| Value::U64(0)));
        core
    }
}

impl Core {
    /// Replaces the value that the register of `target` holds.
    ///
    /// A register index out of range faults with `InvalidRegister`.
    pub fn set_value(&mut self, target: &Target, value: Value) -> (result: Result<(), Fault>)
        ensures
            core_step(old(self)@, final(self)@, result, old(self)@.write(*target, value)),
    {
        if target.0 >= REGISTER_COUNT {
            return Err(Fault::InvalidRegister);
        }
        self.registers[target.0] = Register { value };
        assert(self@.registers =~= old(self)@.registers.update(target.0 as int, value));
        Ok(())
    }

    /// Copies the source into the target.
    pub fn load_instruction(&mut self, target: &Target, source: &Source) -> (result: Result<
        (),
        Fault,
    >)
        ensures
            core_step(old(self)@, final(self)@, result, old(self)@.load(*target, *source)),
    {
        let value = self.get_value(source)?;
        self.set_value(target, value)
    }

    /// Finishes an arithmetic instruction with its result.
    ///
    /// A result that wrapped faults with `Overflow` unless `can_wrap`; else
    /// the carry flag says whether it wrapped, the negative and zero flags
    /// describe it, and the register of `target` holds it.
    pub fn finish_arithmetic(
        &mut self,
        target: &Target,
        value: Value,
        overflow: bool,
        can_wrap: bool,
    ) -> (result: Result<(), Fault>)
        ensures
            core_step(
                old(self)@,
                final(self)@,
                result,
                old(self)@.finish_arithmetic(*target, value, overflow, can_wrap),
            ),
    {
        if overflow && !can_wrap {
            return Err(Fault::Overflow);
        }
        if target.0 >= REGISTER_COUNT {
            return Err(Fault::InvalidRegister);
        }
        self.flags.carry = overflow;
        self.flags.negative = value.is_negative();
        self.flags.zero = value.is_zero();
        self.registers[target.0] = Register { value };
        assert(self@.registers =~= old(self)@.registers.update(target.0 as int, value));
        Ok(())
    }

    /// Finishes a bitwise instruction with its result: the negative and zero
    /// flags describe it, and the register of `target` holds it.
    pub fn finish_bitwise(&mut self, target: &Target, value: Value) -> (result: Result<(), Fault>)
        ensures
            core_step(
                old(self)@,
                final(self)@,
                result,
                old(self)@.finish_bitwise(*target, value),
            ),
    {
        if target.0 >= REGISTER_COUNT {
            return Err(Fault::InvalidRegister);
        }
        self.flags.negative = value.is_negative();
        self.flags.zero = value.is_zero();
        self.registers[target.0] = Register { value };
        assert(self@.registers =~= old(self)@.registers.update(target.0 as int, value));
        Ok(())
    }

    /// Reads the source and then the target of an instruction that works on
    /// two integers of one type.
    fn operands(&self, target: &Target, source: &Source) -> (result: Result<(Value, Value), Fault>)
        ensures
            match (self@.read(*source), self@.read_target(*target)) {
                (Err(fault), _) => outcome(result) == Err::<(Value, Value), FaultView>(fault),
                (Ok(_), Err(fault)) => outcome(result) == Err::<(Value, Value), FaultView>(fault),
                (Ok(rhs), Ok(lhs)) => if lhs.tag() == rhs.tag() && lhs.tag().is_integer() {
                    result == Ok::<(Value, Value), Fault>((lhs, rhs))
                } else {
                    outcome(result) == Err::<(Value, Value), FaultView>(
                        FaultView::InvalidOperation,
                    )
                },
            },
    {
        let rhs = self.get_value(source)?;
        let lhs = self.get_value(target)?;
        if lhs.get_type() != rhs.get_type() || !crate::value::is_integer_type(lhs.get_type()) {
            return Err(
                Fault::InvalidOperation(
                    String::from_str("the operands are not integers of one type"),
                ),
            );
        }
        Ok((lhs, rhs))
    }

    /// Adds the source to the target, and one more where `use_carry` and the
    /// carry flag is set.
    pub fn add_instruction(
        &mut self,
        target: &Target,
        source: &Source,
        can_wrap: bool,
        use_carry: bool,
    ) -> (result: Result<(), Fault>)
        ensures
            core_step(
                old(self)@,
                final(self)@,
                result,
                old(self)@.arithmetic(Arithmetic::Add, *target, *source, can_wrap, use_carry),
            ),
    {
        let (lhs, rhs) = self.operands(target, source)?;
        let (sum, wrapped) = lhs.overflowing_add(rhs);
        if use_carry && self.flags.carry {
            let (more, wrapped_again) = sum.increment_overflowing();
            self.finish_arithmetic(target, more, wrapped || wrapped_again, can_wrap)
        } else {
            self.finish_arithmetic(target, sum, wrapped, can_wrap)
        }
    }

    /// Subtracts the source from the target, and one more where `use_carry`
    /// and the carry flag is set.
    pub fn sub_instruction(
        &mut self,
        target: &Target,
        source: &Source,
        can_wrap: bool,
        use_carry: bool,
    ) -> (result: Result<(), Fault>)
        ensures
            core_step(
                old(self)@,
                final(self)@,
                result,
                old(self)@.arithmetic(Arithmetic::Sub, *target, *source, can_wrap, use_carry),
            ),
    {
        let (lhs, rhs) = self.operands(target, source)?;
        let (difference, wrapped) = lhs.overflowing_sub(rhs);
        if use_carry && self.flags.carry {
            let (less, wrapped_again) = difference.decrement_overflowing();
            self.finish_arithmetic(target, less, wrapped || wrapped_again, can_wrap)
        } else {
            self.finish_arithmetic(target, difference, wrapped, can_wrap)
        }
    }

    /// Multiplies the target by the source.
    pub fn mul_instruction(&mut self, target: &Target, source: &Source, can_wrap: bool) -> (result:
        Result<(), Fault>)
        ensures
            core_step(
                old(self)@,
                final(self)@,
                result,
                old(self)@.arithmetic(Arithmetic::Mul, *target, *source, can_wrap, false),
            ),
    {
        let (lhs, rhs) = self.operands(target, source)?;
        let (product, wrapped) = lhs.overflowing_mul(rhs);
        self.finish_arithmetic(target, product, wrapped, can_wrap)
    }

    /// Divides the target by the source, rounding toward zero. A zero source
    /// faults with `DivisionByZero`.
    pub fn div_instruction(&mut self, target: &Target, source: &Source, can_wrap: bool) -> (result:
        Result<(), Fault>)
        ensures
            core_step(
                old(self)@,
                final(self)@,
                result,
                old(self)@.arithmetic(Arithmetic::Div, *target, *source, can_wrap, false),
            ),
    {
        let (lhs, rhs) = self.operands(target, source)?;
        match lhs.safe_div(rhs) {
            Some((quotient, wrapped)) => self.finish_arithmetic(target, quotient, wrapped, can_wrap),
            None => Err(Fault::DivisionByZero),
        }
    }

    /// Leaves in the target the remainder of its division by the source. A
    /// zero source faults with `DivisionByZero`.
    pub fn mod_instruction(&mut self, target: &Target, source: &Source, can_wrap: bool) -> (result:
        Result<(), Fault>)
        ensures
            core_step(
                old(self)@,
                final(self)@,
                result,
                old(self)@.arithmetic(Arithmetic::Mod, *target, *source, can_wrap, false),
            ),
    {
        let (lhs, rhs) = self.operands(target, source)?;
        match lhs.safe_mod(rhs) {
            Some((remainder, wrapped)) => self.finish_arithmetic(
                target,
                remainder,
                wrapped,
                can_wrap,
            ),
            None => Err(Fault::DivisionByZero),
        }
    }

    /// Leaves in the target the bitwise and of the target and the source.
    pub fn and_instruction(&mut self, target: &Target, source: &Source) -> (result: Result<
        (),
        Fault,
    >)
        ensures
            core_step(
                old(self)@,
                final(self)@,
                result,
                old(self)@.bitwise(Bitwise::And, *target, *source),
            ),
    {
        let (lhs, rhs) = self.operands(target, source)?;
        self.finish_bitwise(target, lhs.bitand(rhs))
    }

    /// Leaves in the target the bitwise or of the target and the source.
    pub fn or_instruction(&mut self, target: &Target, source: &Source) -> (result: Result<
        (),
        Fault,
    >)
        ensures
            core_step(
                old(self)@,
                final(self)@,
                result,
                old(self)@.bitwise(Bitwise::Or, *target, *source),
            ),
    {
        let (lhs, rhs) = self.operands(target, source)?;
        self.finish_bitwise(target, lhs.bitor(rhs))
    }

    /// Leaves in the target the bitwise exclusive or of the target and the
    /// source.
    pub fn xor_instruction(&mut self, target: &Target, source: &Source) -> (result: Result<
        (),
        Fault,
    >)
        ensures
            core_step(
                old(self)@,
                final(self)@,
                result,
                old(self)@.bitwise(Bitwise::Xor, *target, *source),
            ),
    {
        let (lhs, rhs) = self.operands(target, source)?;
        self.finish_bitwise(target, lhs.bitxor(rhs))
    }

    /// Inverts every bit of the target.
    pub fn not_instruction(&mut self, target: &Target) -> (result: Result<(), Fault>)
        ensures
            core_step(old(self)@, final(self)@, result, old(self)@.bitwise_not(*target)),
    {
        let value = self.get_value(target)?;
        if !crate::value::is_integer_type(value.get_type()) {
            return Err(Fault::InvalidOperation(String::from_str("the operand is not an integer")));
        }
        self.finish_bitwise(target, value.not())
    }

    /// Shifts the target left by the number of bits that the source holds.
    pub fn shift_left_instruction(&mut self, target: &Target, source: &Source) -> (result: Result<
        (),
        Fault,
    >)
        ensures
            core_step(
                old(self)@,
                final(self)@,
                result,
                old(self)@.bitwise(Bitwise::ShiftLeft, *target, *source),
            ),
    {
        let (lhs, rhs) = self.operands(target, source)?;
        self.finish_bitwise(target, lhs.shl(rhs))
    }

    /// Shifts the target right by the number of bits that the source holds:
    /// arithmetically where the type is signed, logically where it is not.
    pub fn shift_right_instruction(&mut self, target: &Target, source: &Source) -> (result: Result<
        (),
        Fault,
    >)
        ensures
            core_step(
                old(self)@,
                final(self)@,
                result,
                old(self)@.bitwise(Bitwise::ShiftRight, *target, *source),
            ),
    {
        let (lhs, rhs) = self.operands(target, source)?;
        self.finish_bitwise(target, lhs.shr(rhs))
    }

    /// Whether a condition holds, given whether the live frame is a
    /// continuation.
    pub fn can_jump(&self, condition: &Condition, in_continuation: bool) -> (can: bool)
        ensures
            can == self@.holds(*condition, in_continuation),
    {
        match condition {
            Condition::Always => true,
            Condition::Equal => self.flags.comparison == Comparison::Equal,
            Condition::NotEqual => self.flags.comparison == Comparison::NotEqual,
            Condition::LessThan => self.flags.comparison == Comparison::LessThan,
            Condition::LessThanOrEqual => self.flags.comparison == Comparison::LessThanOrEqual,
            Condition::GreaterThan => self.flags.comparison == Comparison::GreaterThan,
            Condition::GreaterThanOrEqual => self.flags.comparison
                == Comparison::GreaterThanOrEqual,
            Condition::Zero => self.flags.zero,
            Condition::NotZero => !self.flags.zero,
            Condition::Carry => self.flags.carry,
            Condition::NotCarry => !self.flags.carry,
            Condition::Negative => self.flags.negative,
            Condition::NotNegative => !self.flags.negative,
            Condition::InContinuation => in_continuation,
            Condition::NotInContinuation => !in_continuation,
        }
    }

    /// Compares the target with the source and records in the comparison
    /// flag the relation found: the tested kind where it holds, its opposite
    /// where it does not.
    ///
    /// The two must be of one type, else the instruction faults with
    /// `InvalidOperation`.
    pub fn compare_instruction(
        &mut self,
        target: &Target,
        source: &Source,
        comparison_type: &ComparisonType,
    ) -> (result: Result<(), Fault>)
        ensures
            core_step(
                old(self)@,
                final(self)@,
                result,
                old(self)@.compare(*target, *source, *comparison_type),
            ),
    {
        let rhs = self.get_value(source)?;
        let lhs = self.get_value(target)?;
        if lhs.get_type() != rhs.get_type() {
            return Err(
                Fault::InvalidOperation(String::from_str("the operands are not of one type")),
            );
        }
        let equal = lhs.is_equal_to(&rhs);
        let less = lhs.is_less_than(&rhs);
        let greater = rhs.is_less_than(&lhs);
        let comparison = match comparison_type {
            ComparisonType::Equal => {
                if equal {
                    Comparison::Equal
                } else {
                    Comparison::NotEqual
                }
            },
            ComparisonType::NotEqual => {
                if !equal {
                    Comparison::NotEqual
                } else {
                    Comparison::Equal
                }
            },
            ComparisonType::LessThan => {
                if less {
                    Comparison::LessThan
                } else {
                    Comparison::GreaterThanOrEqual
                }
            },
            ComparisonType::LessThanOrEqual => {
                if less || equal {
                    Comparison::LessThanOrEqual
                } else {
                    Comparison::GreaterThan
                }
            },
            ComparisonType::GreaterThan => {
                if greater {
                    Comparison::GreaterThan
                } else {
                    Comparison::LessThanOrEqual
                }
            },
            ComparisonType::GreaterThanOrEqual => {
                if greater || equal {
                    Comparison::GreaterThanOrEqual
                } else {
                    Comparison::LessThan
                }
            },
        };
        self.flags.comparison = comparison;
        Ok(())
    }
}

} // verus!
