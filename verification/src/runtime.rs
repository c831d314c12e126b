//! The bytecode virtual machine: instructions, chunks, runtime values, the
//! call frame and the dispatch loop.

use std::collections::HashMap;
use std::rc::Rc;
use string_interner::Sym;
use vstd::prelude::*;

verus! {

/// The symbol that `string_interner` hands out for an interned string. A
/// runtime string holds one; nothing here looks inside it.
#[verifier::external_type_specification]
#[verifier::external_body]
pub struct ExSym(Sym);

/// Why the virtual machine stopped, or refused a request.
#[derive(Clone, Copy, Debug, PartialEq, Eq, Structural)]
pub enum VmError {
    /// An operand instruction names a register that holds no value.
    InvalidRegisterKey,
    /// The instruction is one the dispatcher does not handle.
    UnknownOpCode,
    /// The sum of the two operands does not fit their type.
    Overflow,
    /// The result was asked for, and none was ever set.
    NoResult,
    /// An instruction was written to a locked chunk.
    ChunkLocked,
}

/// How one dispatch cycle ended.
#[derive(Clone, Copy, Debug, PartialEq, Eq, Structural)]
pub enum ExecutionResult {
    OK,
    ERR,
    END,
}

/// One instruction of the virtual machine.
#[derive(Clone, Copy, Debug, PartialEq, Eq, Structural)]
pub enum OpCode {
    /// Takes the value of a register as the left operand.
    SetLeft(u8),
    SetLeftX(u16),
    /// Takes the value of a register as the right operand.
    SetRight(u8),
    SetRightX(i16),
    /// Operates on the two operands and puts the outcome in the result slot.
    Add,
    Subtract,
    Multiply,
    Divide,
    /// Writes the result slot back to a register.
    Push(u8),
    PushX(u16),
}

/// Who may reach a field.
#[derive(Clone, Copy, Debug, PartialEq, Eq, Structural)]
pub enum AccessModifier {
    Public,
    Protected,
    Private,
    Internal,
}

/// What is known of a field apart from its value.
#[derive(Clone, Copy, Debug, PartialEq, Eq, Structural)]
pub struct FieldInfo {
    pub is_const: bool,
    pub modifier: AccessModifier,
}

/// A class declared in a script.
#[derive(Debug, PartialEq, Eq)]
pub struct Class {
    pub canonical_name: &'static str,
    pub field_info: Vec<FieldInfo>,
}

/// A field of a class instance.
#[derive(Debug, PartialEq, Eq)]
pub struct Field {
    pub field_info: FieldInfo,
    pub value: Instance,
}

/// An instance of a class that is not built into the machine.
#[derive(Debug, PartialEq, Eq)]
pub struct CustomInstance {
    pub class: Class,
    pub fields: Vec<Field>,
}

/// A runtime value.
#[derive(Debug, PartialEq, Eq)]
pub enum Instance {
    Bool(bool),
    Byte(i8),
    UByte(u8),
    Int16(i16),
    UInt16(u16),
    Int32(i32),
    UInt32(u32),
    Int64(i64),
    UInt64(u64),
    Int128(i128),
    UInt128(u128),
    /// A 32-bit binary floating-point number, held as its bit pattern.
    Float32(u32),
    /// A 64-bit binary floating-point number, held as its bit pattern.
    Float64(u64),
    Char(char),
    /// An interned string, shared by reference counting.
    String(Rc<Sym>),
    /// An ordered sequence of values, which need not be of one kind.
    Array(Vec<Instance>),
    CustomInstance(Box<CustomInstance>),
    Class(Box<Class>),
}

/// An append-only sequence of instructions that can be locked.
pub struct Chunk {
    op_codes: Vec<OpCode>,
    is_locked: bool,
}

/// The mathematical value of a [`Chunk`].
pub struct ChunkView {
    pub ops: Seq<OpCode>,
    pub locked: bool,
}

impl ChunkView {
    /// The chunk after `op` is written to it, or the error where the chunk
    /// is locked.
    pub open spec fn write(self, op: OpCode) -> Result<ChunkView, VmError> {
        if self.locked {
            Err(VmError::ChunkLocked)
        } else {
            Ok(ChunkView { ops: self.ops.push(op), locked: false })
        }
    }

    /// The chunk once it is locked.
    pub open spec fn lock(self) -> ChunkView {
        ChunkView { ops: self.ops, locked: true }
    }

    /// The chunk after each of `ops` has been offered to it in order: a
    /// write that is accepted appends, one that is refused changes nothing.
    pub open spec fn write_all(self, ops: Seq<OpCode>) -> ChunkView
        decreases ops.len(),
    {
        if ops.len() == 0 {
            self
        } else {
            let before = self.write_all(ops.drop_last());
            match before.write(ops.last()) {
                Ok(after) => after,
                Err(_) => before,
            }
        }
    }
}

impl View for Chunk {
    type V = ChunkView;

    closed spec fn view(&self) -> ChunkView {
        ChunkView { ops: self.op_codes@, locked: self.is_locked }
    }
}

impl Chunk {
    /// An empty chunk that is not locked.
    pub fn new() -> (chunk: Chunk)
        ensures
            chunk@ == (ChunkView { ops: Seq::empty(), locked: false }),
    {
        Chunk { op_codes: Vec::new(), is_locked: false }
    }

    /// Appends `op`, unless the chunk is locked: a locked chunk stays as it
    /// is and the write is refused.
    pub fn write(&mut self, op: OpCode) -> (r: Result<(), VmError>)
        ensures
            match old(self)@.write(op) {
                Ok(chunk) => r is Ok && final(self)@ == chunk,
                Err(e) => r == Err::<(), VmError>(e) && final(self)@ == old(self)@,
            },
    {
        if self.is_locked {
            return Err(VmError::ChunkLocked);
        }
        self.op_codes.push(op);
        Ok(())
    }

    /// Locks the chunk for the rest of its life.
    pub fn lock(&mut self)
        ensures
            final(self)@ == old(self)@.lock(),
    {
        self.is_locked = true;
    }

    /// The instruction at position `pt`, if the chunk is that long.
    pub fn get(&self, pt: usize) -> (op: Option<&OpCode>)
        ensures
            op == (if pt < self@.ops.len() {
                Some(&self@.ops[pt as int])
            } else {
                None
            }),
    {
        if pt < self.op_codes.len() {
            Some(&self.op_codes[pt])
        } else {
            None
        }
    }
}

/// The scratch state of one call: the two operands, the result and the
/// position of the call.
pub struct CallFrame {
    offset: usize,
    left: Option<&'static Instance>,
    right: Option<&'static Instance>,
    pub result: Option<Instance>,
    ip: usize,
}

/// The mathematical value of a [`CallFrame`].
pub struct FrameView {
    pub offset: usize,
    pub left: Option<Instance>,
    pub right: Option<Instance>,
    pub result: Option<Instance>,
    pub ip: usize,
}

impl View for CallFrame {
    type V = FrameView;

    closed spec fn view(&self) -> FrameView {
        FrameView {
            offset: self.offset,
            left: match self.left {
                Some(i) => Some(*i),
                None => None,
            },
            right: match self.right {
                Some(i) => Some(*i),
                None => None,
            },
            result: self.result,
            ip: self.ip,
        }
    }
}

impl CallFrame {
    /// The instruction pointer of the frame.
    pub fn current_position(&self) -> (ip: usize)
        ensures
            ip == self@.ip,
    {
        self.ip
    }

    /// Makes `val` the left operand.
    pub fn set_left(&mut self, val: &'static Instance)
        ensures
            final(self)@ == (FrameView { left: Some(*val), ..old(self)@ }),
    {
        self.left = Some(val);
    }

    /// Makes `val` the right operand.
    pub fn set_right(&mut self, val: &'static Instance)
        ensures
            final(self)@ == (FrameView { right: Some(*val), ..old(self)@ }),
    {
        self.right = Some(val);
    }

    /// Puts `val` in the result slot.
    pub fn set_result(&mut self, val: Instance)
        ensures
            final(self)@ == (FrameView { result: Some(val), ..old(self)@ }),
    {
        self.result = Some(val);
    }

    /// Empties both operand slots.
    pub fn clear_operands(&mut self)
        ensures
            final(self)@ == (FrameView { left: None, right: None, ..old(self)@ }),
    {
        self.left = None;
        self.right = None;
    }

    /// Empties the result slot.
    pub fn clear_result(&mut self)
        ensures
            final(self)@ == (FrameView { result: None, ..old(self)@ }),
    {
        self.result = None;
    }

    /// The result slot.
    pub fn get_result(&self) -> (result: &Option<Instance>)
        ensures
            *result == self@.result,
    {
        &self.result
    }
}

impl OpCode {
    /// The register that an operand instruction reads; `None` for every
    /// other instruction.
    pub open spec fn operand_index(self) -> Option<int> {
        match self {
            OpCode::SetLeft(index) => Some(index as int),
            OpCode::SetLeftX(index) => Some(index as int),
            OpCode::SetRight(index) => Some(index as int),
            OpCode::SetRightX(index) => Some(index as int),
            _ => None,
        }
    }
}

/// The value that register `index` holds, if it holds one. No register has
/// a negative index.
pub open spec fn lookup(registers: Map<u16, &'static Instance>, index: int) -> Option<Instance> {
    if 0 <= index <= u16::MAX && registers.contains_key(index as u16) {
        Some(*registers[index as u16])
    } else {
        None
    }
}

impl FrameView {
    /// A frame before anything has run: no operand, no result, at position 0.
    pub open spec fn fresh() -> FrameView {
        FrameView { offset: 0, left: None, right: None, result: None, ip: 0 }
    }

    /// The frame after register `index` is taken as the left operand.
    pub open spec fn load_left(self, registers: Map<u16, &'static Instance>, index: int) -> Result<
        FrameView,
        VmError,
    > {
        match lookup(registers, index) {
            Some(i) => Ok(FrameView { left: Some(i), ..self }),
            None => Err(VmError::InvalidRegisterKey),
        }
    }

    /// The frame after register `index` is taken as the right operand.
    pub open spec fn load_right(
        self,
        registers: Map<u16, &'static Instance>,
        index: int,
    ) -> Result<FrameView, VmError> {
        match lookup(registers, index) {
            Some(i) => Ok(FrameView { right: Some(i), ..self }),
            None => Err(VmError::InvalidRegisterKey),
        }
    }

    /// The frame after an addition. Two 16-bit signed integers give their
    /// sum as the result and leave both operand slots empty, unless the sum
    /// does not fit in 16 bits. Operands that are absent, or of any other
    /// kind, leave the frame as it is.
    pub open spec fn add_operands(self) -> Result<FrameView, VmError> {
        match (self.left, self.right) {
            (Some(Instance::Int16(l)), Some(Instance::Int16(r))) => {
                if i16::MIN <= l + r <= i16::MAX {
                    Ok(
                        FrameView {
                            left: None,
                            right: None,
                            result: Some(Instance::Int16((l + r) as i16)),
                            ..self
                        },
                    )
                } else {
                    Err(VmError::Overflow)
                }
            },
            _ => Ok(self),
        }
    }

    /// The frame after the instruction `op` has run against `registers`, or
    /// the error that it stops with. The instructions that the dispatcher
    /// does not handle stop with [`VmError::UnknownOpCode`].
    pub open spec fn step(self, registers: Map<u16, &'static Instance>, op: OpCode) -> Result<
        FrameView,
        VmError,
    > {
        match op {
            OpCode::SetLeft(index) => self.load_left(registers, index as int),
            OpCode::SetLeftX(index) => self.load_left(registers, index as int),
            OpCode::SetRight(index) => self.load_right(registers, index as int),
            OpCode::SetRightX(index) => self.load_right(registers, index as int),
            OpCode::Add => self.add_operands(),
            _ => Err(VmError::UnknownOpCode),
        }
    }

    /// The frame after the instructions `ops` have run in order, or the
    /// error of the first one that stops.
    pub open spec fn run(self, registers: Map<u16, &'static Instance>, ops: Seq<OpCode>) -> Result<
        FrameView,
        VmError,
    >
        decreases ops.len(),
    {
        if ops.len() == 0 {
            Ok(self)
        } else {
            match self.run(registers, ops.drop_last()) {
                Err(e) => Err(e),
                Ok(frame) => frame.step(registers, ops.last()),
            }
        }
    }
}

/// Once the first `n` instructions have stopped with an error, the whole
/// sequence stops with that error.
pub proof fn lemma_run_error_persists(
    frame: FrameView,
    registers: Map<u16, &'static Instance>,
    ops: Seq<OpCode>,
    n: int,
)
    requires
        0 <= n <= ops.len(),
        frame.run(registers, ops.take(n)) is Err,
    ensures
        frame.run(registers, ops) == frame.run(registers, ops.take(n)),
    decreases ops.len() - n,
{
    if n == ops.len() {
        assert(ops.take(n) =~= ops);
    } else {
        assert(ops.take(n + 1).drop_last() =~= ops.take(n));
        lemma_run_error_persists(frame, registers, ops, n + 1);
    }
}

/// The virtual machine: a chunk of instructions, the register table it
/// reads, and the frame it works in.
pub struct VM {
    /// The classes that are registered, by the symbol of their name.
    pub class_registry: HashMap<Sym, Instance>,
    /// The current call frame.
    pub frame: CallFrame,
    /// The suspended frames, oldest first. No instruction suspends one yet.
    pub frame_stack: Vec<CallFrame>,
    /// The instructions to run.
    pub chunk: Chunk,
    /// The register table. The machine reads its values and owns none.
    pub register: HashMap<u16, &'static Instance>,
}

impl VM {
    /// A machine with an empty chunk, an empty register table and one fresh
    /// frame.
    pub fn new() -> (vm: VM)
        ensures
            vm.frame@ == FrameView::fresh(),
            vm.chunk@ == (ChunkView { ops: Seq::empty(), locked: false }),
            vm.register@ == Map::<u16, &'static Instance>::empty(),
            vm.frame_stack@ == Seq::<CallFrame>::empty(),
            vm.class_registry@ == Map::<Sym, Instance>::empty(),
    {
        VM {
            class_registry: HashMap::new(),
            frame: CallFrame { offset: 0, left: None, right: None, result: None, ip: 0 },
            frame_stack: Vec::new(),
            chunk: Chunk::new(),
            register: HashMap::new(),
        }
    }

    /// Runs one instruction in the current frame. An instruction that stops
    /// with an error leaves the machine as it was.
    pub fn step(&mut self, op: OpCode) -> (r: Result<(), VmError>)
        ensures
            final(self).chunk == old(self).chunk,
            final(self).register == old(self).register,
            final(self).frame_stack == old(self).frame_stack,
            final(self).class_registry == old(self).class_registry,
            match old(self).frame@.step(old(self).register@, op) {
                Ok(frame) => r is Ok && final(self).frame@ == frame,
                Err(e) => r == Err::<(), VmError>(e) && *final(self) == *old(self),
            },
    {
        match op {
            OpCode::SetLeft(index) => match self.fetch(index as u16) {
                Some(i) => {
                    self.frame.set_left(i);
                    Ok(())
                },
                None => Err(VmError::InvalidRegisterKey),
            },
            OpCode::SetLeftX(index) => match self.fetch(index) {
                Some(i) => {
                    self.frame.set_left(i);
                    Ok(())
                },
                None => Err(VmError::InvalidRegisterKey),
            },
            OpCode::SetRight(index) => match self.fetch(index as u16) {
                Some(i) => {
                    self.frame.set_right(i);
                    Ok(())
                },
                None => Err(VmError::InvalidRegisterKey),
            },
            OpCode::SetRightX(index) => {
                if index < 0 {
                    return Err(VmError::InvalidRegisterKey);
                }
                match self.fetch(index as u16) {
                    Some(i) => {
                        self.frame.set_right(i);
                        Ok(())
                    },
                    None => Err(VmError::InvalidRegisterKey),
                }
            },
            OpCode::Add => self.add_operands(),
            _ => Err(VmError::UnknownOpCode),
        }
    }

    /// The value in register `key`, if the table holds one.
    fn fetch(&self, key: u16) -> (found: Option<&'static Instance>)
        ensures
            match found {
                Some(i) => lookup(self.register@, key as int) == Some(*i),
                None => lookup(self.register@, key as int) is None,
            },
    {
        broadcast use vstd::std_specs::hash::group_hash_axioms;

        match self.register.get(&key) {
            Some(i) => Some(*i),
            None => None,
        }
    }

    /// Adds the two operands, as [`FrameView::add_operands`] says.
    fn add_operands(&mut self) -> (r: Result<(), VmError>)
        ensures
            final(self).chunk == old(self).chunk,
            final(self).register == old(self).register,
            final(self).frame_stack == old(self).frame_stack,
            final(self).class_registry == old(self).class_registry,
            match old(self).frame@.add_operands() {
                Ok(frame) => r is Ok && final(self).frame@ == frame,
                Err(e) => r == Err::<(), VmError>(e) && final(self).frame == old(self).frame,
            },
    {
        if let (Some(left), Some(right)) = (self.frame.left, self.frame.right) {
            match (left, right) {
                (Instance::Int16(l_num), Instance::Int16(r_num)) => {
                    match l_num.checked_add(*r_num) {
                        Some(sum) => {
                            self.frame.set_result(Instance::Int16(sum));
                            self.frame.clear_operands();
                        },
                        None => {
                            return Err(VmError::Overflow);
                        },
                    }
                },
                _ => {},
            }
        }
        Ok(())
    }

    /// Runs the chunk from its first instruction to its last, one
    /// instruction per cycle, and returns the machine with the frame that
    /// results. The first instruction that stops with an error ends the run
    /// with that error.
    pub fn run(self) -> (r: Result<VM, VmError>)
        ensures
            match self.frame@.run(self.register@, self.chunk@.ops) {
                Ok(frame) => {
                    &&& r is Ok
                    &&& r->Ok_0.frame@ == frame
                    &&& r->Ok_0.chunk == self.chunk
                    &&& r->Ok_0.register == self.register
                    &&& r->Ok_0.frame_stack == self.frame_stack
                    &&& r->Ok_0.class_registry == self.class_registry
                },
                Err(e) => r == Err::<VM, VmError>(e),
            },
    {
        let mut vm = self;
        let ghost start = vm.frame@;
        let ghost registers = vm.register@;
        let ghost ops = vm.chunk@.ops;
        let mut pt: usize = 0;
        assert(ops.take(0) =~= Seq::<OpCode>::empty());
        loop
            invariant
                0 <= pt <= ops.len(),
                vm.chunk == self.chunk,
                vm.register == self.register,
                vm.frame_stack == self.frame_stack,
                vm.class_registry == self.class_registry,
                start == self.frame@,
                registers == self.register@,
                ops == self.chunk@.ops,
                start.run(registers, ops.take(pt as int)) == Ok::<FrameView, VmError>(vm.frame@),
            ensures
                pt == ops.len(),
            decreases ops.len() - pt,
        {
            let op = match vm.chunk.get(pt) {
                Some(code) => *code,
                None => {
                    break ;
                },
            };
            assert(pt < vm.chunk.op_codes.len() <= usize::MAX);
            assert(ops.take(pt + 1).drop_last() =~= ops.take(pt as int));
            match vm.step(op) {
                Ok(()) => {},
                Err(e) => {
                    proof {
                        lemma_run_error_persists(start, registers, ops, pt + 1);
                    }
                    return Err(e);
                },
            }
            pt = pt + 1;
        }
        assert(ops.take(pt as int) =~= ops);
        Ok(vm)
    }

    /// The result that the run has left, or an error where none was set.
    pub fn get_current_result(self) -> (r: Result<Instance, VmError>)
        ensures
            r == (match self.frame@.result {
                Some(i) => Ok::<Instance, VmError>(i),
                None => Err::<Instance, VmError>(VmError::NoResult),
            }),
    {
        match self.frame.result {
            Some(i) => Ok(i),
            None => Err(VmError::NoResult),
        }
    }
}

} // verus!
