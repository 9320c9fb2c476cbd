//! The PL011 serial console: what to write to its registers, and what to
//! make of what was read from them.
//!
//! The registers themselves are memory-mapped and are touched by the
//! caller. Registers are named by their byte offset from the base address.

use vstd::prelude::*;
use vstd::string::StringSliceAdditionalSpecFns;

verus! {

/// Base address of the first UART of the QEMU `virt` machine.
pub const UART0_BASE: usize = 0x0900_0000;

/// Data register.
pub const REG_DR: usize = 0x00;

/// Flag register.
pub const REG_FR: usize = 0x18;

/// Integer part of the baud rate divisor.
pub const REG_IBRD: usize = 0x24;

/// Fractional part of the baud rate divisor.
pub const REG_FBRD: usize = 0x28;

/// Line control register.
pub const REG_LCR_H: usize = 0x2c;

/// Control register.
pub const REG_CR: usize = 0x30;

/// Interrupt mask register.
pub const REG_IMSC: usize = 0x38;

/// Interrupt clear register.
pub const REG_ICR: usize = 0x44;

/// Flag: the transmit FIFO is full.
pub const FLAG_TXFF: u32 = 0x20;

/// Flag: the receive FIFO is empty.
pub const FLAG_RXFE: u32 = 0x10;

/// Line control: 8-bit words, FIFOs enabled.
pub const LCR_8BIT_FIFO: u32 = 0x70;

/// Control: UART, transmitter and receiver enabled.
pub const CR_ENABLE_ALL: u32 = 0x301;

/// Interrupt clear: receive and receive-timeout.
pub const ICR_RECEIVE: u32 = 0x50;

/// Bytes that the receive buffer has room for.
pub const RX_CAPACITY: usize = 128;

/// ASCII carriage return.
pub const CARRIAGE_RETURN: u8 = 13;

/// ASCII line feed.
pub const LINE_FEED: u8 = 10;

/// ASCII backspace.
pub const BACKSPACE: u8 = 8;

/// ASCII delete.
pub const DELETE: u8 = 127;

/// ASCII space.
pub const SPACE: u8 = 32;

/// A value to write to a register.
#[derive(Debug, Clone, Copy, PartialEq, Eq, Structural)]
pub struct RegWrite {
    /// The register's offset from the base address.
    pub offset: usize,
    pub value: u32,
}

/// A PL011 UART.
#[derive(Debug, Clone, Copy, PartialEq, Eq, Structural)]
pub struct Uart {
    base: usize,
}

/// The register writes that set the UART up for 115200 baud at a 24 MHz
/// clock, 8 data bits, no parity, one stop bit: disable, mask and clear all
/// interrupts, set the divisor, set the line format, enable.
pub open spec fn init_writes() -> Seq<RegWrite> {
    seq![
        RegWrite { offset: REG_CR, value: 0 },
        RegWrite { offset: REG_IMSC, value: 0 },
        RegWrite { offset: REG_ICR, value: 0x7ff },
        RegWrite { offset: REG_IBRD, value: 13 },
        RegWrite { offset: REG_FBRD, value: 1 },
        RegWrite { offset: REG_LCR_H, value: LCR_8BIT_FIFO },
        RegWrite { offset: REG_CR, value: CR_ENABLE_ALL },
    ]
}

/// The bytes sent for one byte of text: a line feed is sent as carriage
/// return and line feed.
pub open spec fn sent_for(byte: u8) -> Seq<u8> {
    if byte == LINE_FEED {
        seq![CARRIAGE_RETURN, LINE_FEED]
    } else {
        seq![byte]
    }
}

/// The bytes sent for a text.
pub open spec fn sent(text: Seq<u8>) -> Seq<u8>
    decreases text.len(),
{
    if text.len() == 0 {
        Seq::empty()
    } else {
        sent(text.drop_last()) + sent_for(text.last())
    }
}

/// Whether the flag register shows room in the transmit FIFO.
pub open spec fn can_send(flags: u32) -> bool {
    flags & FLAG_TXFF == 0
}

/// Whether the flag register shows a byte in the receive FIFO.
pub open spec fn has_received(flags: u32) -> bool {
    flags & FLAG_RXFE == 0
}

/// The byte in a value read from the data register: its low eight bits.
pub open spec fn data_byte(data: u32) -> u8 {
    (data & 0xff) as u8
}

impl Uart {
    /// A driver for the UART whose registers start at `base`.
    pub fn new(base: usize) -> (uart: Uart)
        ensures
            uart.base_address() == base,
    {
        Uart { base }
    }

    /// The address at which the registers start.
    pub closed spec fn base_address(&self) -> usize {
        self.base
    }

    /// The address at which the registers start.
    pub fn base(&self) -> (base: usize)
        ensures
            base == self.base_address(),
    {
        self.base
    }

    /// The register writes that set the UART up, in order.
    pub fn init(&self) -> (writes: Vec<RegWrite>)
        ensures
            writes@ == init_writes(),
    {
        let mut writes: Vec<RegWrite> = Vec::new();
        writes.push(RegWrite { offset: REG_CR, value: 0 });
        writes.push(RegWrite { offset: REG_IMSC, value: 0 });
        writes.push(RegWrite { offset: REG_ICR, value: 0x7ff });
        writes.push(RegWrite { offset: REG_IBRD, value: 13 });
        writes.push(RegWrite { offset: REG_FBRD, value: 1 });
        writes.push(RegWrite { offset: REG_LCR_H, value: LCR_8BIT_FIFO });
        writes.push(RegWrite { offset: REG_CR, value: CR_ENABLE_ALL });
        assert(writes@ =~= init_writes());
        writes
    }

    /// The register write that sends `c`, given what the flag register
    /// reads; none while the transmit FIFO is full.
    pub fn putc(&self, flags: u32, c: u8) -> (write: Option<RegWrite>)
        ensures
            write == if can_send(flags) {
                Some(RegWrite { offset: REG_DR, value: c as u32 })
            } else {
                None
            },
    {
        if flags & FLAG_TXFF != 0 {
            None
        } else {
            Some(RegWrite { offset: REG_DR, value: c as u32 })
        }
    }

    /// The bytes to send for `s`, in order.
    pub fn puts(&self, s: &str) -> (bytes: Vec<u8>)
        ensures
            bytes@ == sent(s.spec_bytes()),
    {
        let text = s.as_bytes();
        let mut bytes: Vec<u8> = Vec::new();
        let mut i: usize = 0;
        while i < text.len()
            invariant
                i <= text@.len(),
                bytes@ == sent(text@.take(i as int)),
            decreases text@.len() - i,
        {
            let byte = text[i];
            if byte == LINE_FEED {
                bytes.push(CARRIAGE_RETURN);
            }
            bytes.push(byte);
            proof {
                let upto = text@.take(i + 1);
                assert(upto.drop_last() =~= text@.take(i as int));
                assert(bytes@ =~= sent(upto.drop_last()) + sent_for(upto.last()));
            }
            i += 1;
        }
        assert(text@.take(i as int) =~= text@);
        bytes
    }
}

/// The register writes that set the console UART up, in order.
pub fn init() -> (writes: Vec<RegWrite>)
    ensures
        writes@ == init_writes(),
{
    Uart::new(UART0_BASE).init()
}

/// The bytes to send to the console for `s`, in order.
pub fn puts(s: &str) -> (bytes: Vec<u8>)
    ensures
        bytes@ == sent(s.spec_bytes()),
{
    Uart::new(UART0_BASE).puts(s)
}

/// A queue of received bytes, of fixed capacity.
pub struct RingBuffer {
    data: [u8; 128],
    head: usize,
    tail: usize,
}

impl View for RingBuffer {
    type V = Seq<u8>;

    /// The bytes waiting, the oldest first.
    closed spec fn view(&self) -> Seq<u8> {
        Seq::new(
            self.spec_len(),
            |i: int|
                if self.tail + i < RX_CAPACITY {
                    self.data@[self.tail + i]
                } else {
                    self.data@[self.tail + i - RX_CAPACITY]
                },
        )
    }
}

/// The queue after `byte` has arrived: appended, or dropped where the
/// queue is full. One place of the buffer always stays free.
pub open spec fn pushed(queue: Seq<u8>, byte: u8) -> Seq<u8> {
    if queue.len() < RX_CAPACITY - 1 {
        queue.push(byte)
    } else {
        queue
    }
}

/// The queue after the bytes of `bytes` have arrived one after the other.
pub open spec fn pushed_all(queue: Seq<u8>, bytes: Seq<u8>) -> Seq<u8>
    decreases bytes.len(),
{
    if bytes.len() == 0 {
        queue
    } else {
        pushed(pushed_all(queue, bytes.drop_last()), bytes.last())
    }
}

impl RingBuffer {
    /// The buffer's invariant.
    pub closed spec fn wf(&self) -> bool {
        self.head < RX_CAPACITY && self.tail < RX_CAPACITY
    }

    closed spec fn spec_len(&self) -> nat {
        if self.head >= self.tail {
            (self.head - self.tail) as nat
        } else {
            (self.head + RX_CAPACITY - self.tail) as nat
        }
    }

    /// An empty buffer.
    pub fn new() -> (buffer: RingBuffer)
        ensures
            buffer.wf(),
            buffer@ == Seq::<u8>::empty(),
    {
        let buffer = RingBuffer { data: [0; 128], head: 0, tail: 0 };
        assert(buffer@ =~= Seq::<u8>::empty());
        buffer
    }

    /// The number of bytes waiting.
    pub fn len(&self) -> (n: usize)
        requires
            self.wf(),
        ensures
            n == self@.len(),
            n < RX_CAPACITY,
    {
        if self.head >= self.tail {
            self.head - self.tail
        } else {
            self.head + RX_CAPACITY - self.tail
        }
    }

    /// Takes in a received byte; it is dropped where the buffer is full.
    pub fn push(&mut self, byte: u8)
        requires
            old(self).wf(),
        ensures
            final(self).wf(),
            final(self)@ == pushed(old(self)@, byte),
    {
        let next = if self.head + 1 < RX_CAPACITY { self.head + 1 } else { 0 };
        if next != self.tail {
            self.data[self.head] = byte;
            self.head = next;
        }
        assert(self@ =~= pushed(old(self)@, byte));
    }

    /// Hands out the oldest byte waiting.
    pub fn pop(&mut self) -> (byte: Option<u8>)
        requires
            old(self).wf(),
        ensures
            final(self).wf(),
            old(self)@.len() == 0 ==> byte is None && final(self)@ == old(self)@,
            old(self)@.len() > 0 ==> byte == Some(old(self)@[0]) && final(self)@ == old(
                self,
            )@.drop_first(),
    {
        if self.head == self.tail {
            None
        } else {
            let byte = self.data[self.tail];
            self.tail = if self.tail + 1 < RX_CAPACITY { self.tail + 1 } else { 0 };
            assert(self@ =~= old(self)@.drop_first());
            Some(byte)
        }
    }
}

/// The bytes echoed for a received byte: a carriage return ends the line
/// on screen, backspace and delete rub out a character, anything else is
/// shown as it is.
pub open spec fn echo_for(byte: u8) -> Seq<u8> {
    if byte == CARRIAGE_RETURN {
        seq![CARRIAGE_RETURN, LINE_FEED]
    } else if byte == BACKSPACE || byte == DELETE {
        seq![BACKSPACE, SPACE, BACKSPACE]
    } else {
        seq![byte]
    }
}

/// The bytes echoed for a run of received bytes.
pub open spec fn echo(bytes: Seq<u8>) -> Seq<u8>
    decreases bytes.len(),
{
    if bytes.len() == 0 {
        Seq::empty()
    } else {
        echo(bytes.drop_last()) + echo_for(bytes.last())
    }
}

/// The bytes in a run of values read from the data register.
pub open spec fn data_bytes(data: Seq<u32>) -> Seq<u8> {
    Seq::new(data.len(), |i: int| data_byte(data[i]))
}

/// What the caller has to send after a receive interrupt.
#[derive(Debug, Clone, PartialEq, Eq)]
pub struct IrqReply {
    /// The bytes to echo, in order.
    pub echo: Vec<u8>,
    /// The register write that clears the interrupt.
    pub clear: RegWrite,
}

/// Handles a receive interrupt, `received` being the values read from the
/// data register while the receive FIFO was not empty, in order.
///
/// Each byte is queued in `rx` and echoed; the interrupt is cleared last.
pub fn handle_irq(rx: &mut RingBuffer, received: &[u32]) -> (reply: IrqReply)
    requires
        old(rx).wf(),
    ensures
        final(rx).wf(),
        final(rx)@ == pushed_all(old(rx)@, data_bytes(received@)),
        reply.echo@ == echo(data_bytes(received@)),
        reply.clear == (RegWrite { offset: REG_ICR, value: ICR_RECEIVE }),
{
    let mut out: Vec<u8> = Vec::new();
    let mut i: usize = 0;
    let ghost all = data_bytes(received@);
    while i < received.len()
        invariant
            i <= received@.len(),
            rx.wf(),
            all == data_bytes(received@),
            rx@ == pushed_all(old(rx)@, all.take(i as int)),
            out@ == echo(all.take(i as int)),
        decreases received@.len() - i,
    {
        let c = (received[i] & 0xff) as u8;
        rx.push(c);
        if c == CARRIAGE_RETURN {
            out.push(CARRIAGE_RETURN);
            out.push(LINE_FEED);
        } else if c == BACKSPACE || c == DELETE {
            out.push(BACKSPACE);
            out.push(SPACE);
            out.push(BACKSPACE);
        } else {
            out.push(c);
        }
        proof {
            let upto = all.take(i + 1);
            assert(upto.drop_last() =~= all.take(i as int));
            assert(upto.last() == c);
            assert(out@ =~= echo(upto.drop_last()) + echo_for(upto.last()));
        }
        i += 1;
    }
    assert(all.take(i as int) =~= all);
    IrqReply { echo: out, clear: RegWrite { offset: REG_ICR, value: ICR_RECEIVE } }
}

/// The byte received, if any: `flags` is what the flag register reads and
/// `data` what the data register reads, which counts only where the flags
/// show that the receive FIFO is not empty.
pub fn get_char(flags: u32, data: u32) -> (c: Option<u8>)
    ensures
        c == if has_received(flags) {
            Some(data_byte(data))
        } else {
            None
        },
{
    if flags & FLAG_RXFE == 0 {
        Some((data & 0xff) as u8)
    } else {
        None
    }
}

} // verus!
