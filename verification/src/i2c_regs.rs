//! Register access shared by the I2C sensor drivers.
//!
//! Both I2C sensors speak the same protocol: write the register index, then read or write bytes.
//! A driver composes one [`I2cRegs`], which fixes the device address, and gets back the
//! transactions to perform as [`I2cOp`] values.
use vstd::prelude::*;

verus! {

/// One bus transaction with a device.
#[derive(Clone, Copy, Debug, PartialEq, Eq, Structural)]
pub enum I2cOp {
    /// Send `reg`, then `val`: the device stores `val` in its register `reg`.
    Write { addr: u8, reg: u8, val: u8 },
    /// Send `reg`, then read `len` bytes; the device moves to the next register after each byte.
    Read { addr: u8, reg: u8, len: usize },
}

/// The bytes a transaction sends after the address.
pub open spec fn sent_bytes(op: I2cOp) -> Seq<u8> {
    match op {
        I2cOp::Write { addr, reg, val } => seq![reg, val],
        I2cOp::Read { addr, reg, len } => seq![reg],
    }
}

/// The register file of a device that stores what it is told, after `ops` in order.
pub open spec fn registers_after(regs: Map<u8, u8>, ops: Seq<I2cOp>) -> Map<u8, u8>
    decreases ops.len(),
{
    if ops.len() == 0 {
        regs
    } else {
        let before = registers_after(regs, ops.drop_last());
        match ops.last() {
            I2cOp::Write { addr, reg, val } => before.insert(reg, val),
            I2cOp::Read { addr, reg, len } => before,
        }
    }
}

impl I2cOp {
    /// The 7-bit address of the device this transaction is for.
    pub open spec fn device(self) -> u8 {
        match self {
            I2cOp::Write { addr, reg, val } => addr,
            I2cOp::Read { addr, reg, len } => addr,
        }
    }

    /// The 7-bit address to put on the bus.
    pub fn addr(&self) -> (a: u8)
        ensures
            a == self.device(),
    {
        match self {
            I2cOp::Write { addr, reg: _, val: _ } => *addr,
            I2cOp::Read { addr, reg: _, len: _ } => *addr,
        }
    }

    /// The bytes to send after the address.
    pub fn bytes(&self) -> (b: Vec<u8>)
        ensures
            b@ == sent_bytes(*self),
    {
        match self {
            I2cOp::Write { addr: _, reg, val } => vec![*reg, *val],
            I2cOp::Read { addr: _, reg, len: _ } => vec![*reg],
        }
    }

    /// How many bytes to read back once the bytes are sent.
    pub fn reply_len(&self) -> (n: usize)
        ensures
            n == (match *self {
                I2cOp::Write { addr, reg, val } => 0,
                I2cOp::Read { addr, reg, len } => len,
            }),
    {
        match self {
            I2cOp::Write { addr: _, reg: _, val: _ } => 0,
            I2cOp::Read { addr: _, reg: _, len } => *len,
        }
    }
}

/// A device on an I2C bus, named by its 7-bit address.
#[derive(Clone, Copy, Debug, PartialEq, Eq, Structural)]
pub struct I2cRegs {
    pub addr: u8,
}

impl I2cRegs {
    /// The device at `addr`.
    pub fn new(addr: u8) -> (r: I2cRegs)
        ensures
            r.addr == addr,
    {
        I2cRegs { addr }
    }

    /// The transaction that reads `len` bytes starting at `reg`.
    pub open spec fn reading(self, reg: u8, len: usize) -> I2cOp {
        I2cOp::Read { addr: self.addr, reg, len }
    }

    /// The transaction that writes `val` to `reg`.
    pub open spec fn writing(self, reg: u8, val: u8) -> I2cOp {
        I2cOp::Write { addr: self.addr, reg, val }
    }

    /// Read `len` bytes starting at `reg` (the register index moves on by itself).
    pub fn read_regs(&self, reg: u8, len: usize) -> (op: I2cOp)
        ensures
            op == self.reading(reg, len),
    {
        I2cOp::Read { addr: self.addr, reg, len }
    }

    /// Read the single register `reg`.
    pub fn read_reg(&self, reg: u8) -> (op: I2cOp)
        ensures
            op == self.reading(reg, 1),
    {
        self.read_regs(reg, 1)
    }

    /// Write `val` to `reg`.
    pub fn write_reg(&self, reg: u8, val: u8) -> (op: I2cOp)
        ensures
            op == self.writing(reg, val),
    {
        I2cOp::Write { addr: self.addr, reg, val }
    }
}

/// Writing the same register twice with the same value leaves a device as writing it once does.
pub proof fn repeated_write_changes_nothing(dev: I2cRegs, regs: Map<u8, u8>, reg: u8, val: u8)
    ensures
        registers_after(regs, seq![dev.writing(reg, val), dev.writing(reg, val)])
            == registers_after(regs, seq![dev.writing(reg, val)]),
{
    let w = dev.writing(reg, val);
    lemma_registers_push(regs, Seq::empty(), w);
    lemma_registers_push(regs, seq![w], w);
    assert(Seq::<I2cOp>::empty().push(w) =~= seq![w]);
    assert(seq![w].push(w) =~= seq![w, w]);
    assert(registers_after(regs, seq![w]).insert(reg, val) =~= registers_after(regs, seq![w]));
}

/// The effect of one more transaction.
pub proof fn lemma_registers_push(regs: Map<u8, u8>, ops: Seq<I2cOp>, op: I2cOp)
    ensures
        registers_after(regs, ops.push(op)) == (match op {
            I2cOp::Write { addr, reg, val } => registers_after(regs, ops).insert(reg, val),
            I2cOp::Read { addr, reg, len } => registers_after(regs, ops),
        }),
{
    assert(ops.push(op).drop_last() =~= ops);
}

/// What goes over the bus: a read sends the register alone, to the device's address, and asks for as
/// many bytes as were asked for; a write sends the register and then the value.
pub proof fn transactions_address_their_register(dev: I2cRegs, reg: u8, val: u8, len: usize)
    ensures
        dev.reading(reg, len) == (I2cOp::Read { addr: dev.addr, reg, len }),
        dev.writing(reg, val) == (I2cOp::Write { addr: dev.addr, reg, val }),
        dev.reading(reg, len).device() == dev.addr,
        dev.writing(reg, val).device() == dev.addr,
        sent_bytes(dev.reading(reg, len)).len() == 1,
        sent_bytes(dev.reading(reg, len))[0] == reg,
        sent_bytes(dev.writing(reg, val)).len() == 2,
        sent_bytes(dev.writing(reg, val))[0] == reg,
        sent_bytes(dev.writing(reg, val))[1] == val,
{
}

/// The last write to a register is what it holds, and a register that is not written keeps its
/// value.
pub proof fn last_write_holds(dev: I2cRegs, regs: Map<u8, u8>, ops: Seq<I2cOp>, reg: u8, val: u8)
    ensures
        registers_after(regs, ops.push(dev.writing(reg, val)))[reg] == val,
        forall|other: u8|
            other != reg ==> #[trigger] registers_after(regs, ops.push(dev.writing(reg, val)))[other]
                == registers_after(regs, ops)[other],
{
    lemma_registers_push(regs, ops, dev.writing(reg, val));
}

} // verus!
