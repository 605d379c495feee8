//! The 16550 UART: its registers, and the kernel's buffered output and input on top.
use vstd::prelude::*;
use crate::utils::RingBuffer;

verus! {

// line control register
pub const LCR: usize = 3;
pub const LCR_BAUD_LATCH: u8 = 1 << 7;
pub const LCR_EIGHT_BITS: u8 = 3;
// interrupt enable register
pub const IER: usize = 1;
pub const IER_RX_ENABLE: u8 = 1 << 0;
pub const IER_TX_ENABLE: u8 = 1 << 1;
// FIFO control register
pub const FCR: usize = 2;
pub const FCR_FIFO_CLEAR: u8 = 3 << 1;
pub const FCR_FIFO_ENABLE: u8 = 1 << 0;
// line status register
pub const LSR: usize = 5;
pub const LSR_TX_IDLE: u8 = 1 << 5;
pub const LSR_RX_IDLE: u8 = 1 << 0;

/// Size of the kernel's output and input buffers.
pub const BUF_SIZE: usize = 512;

/// A write of one byte to the device register at `addr`.
#[derive(Clone, Copy, Debug, PartialEq, Eq, Structural)]
pub struct RegWrite {
    pub addr: usize,
    pub value: u8,
}

/// The interrupt enable register's value.
#[derive(Clone, Copy, Debug, PartialEq, Eq, Structural)]
pub struct UartInterrupt {
    pub bits: u8,
}

impl UartInterrupt {
    /// No interrupt enabled.
    pub fn new() -> (r: Self)
        ensures
            r.bits == 0,
    {
        Self::from_bits(0)
    }

    pub fn from_bits(bits: u8) -> (r: Self)
        ensures
            r.bits == bits,
    {
        Self { bits }
    }

    pub fn bits(&self) -> (r: u8)
        ensures
            r == self.bits,
    {
        self.bits
    }

    /// Also enables the transmit interrupt.
    pub fn set_tx_enable(self) -> (r: Self)
        ensures
            r.bits == self.bits | IER_TX_ENABLE,
    {
        Self { bits: self.bits | IER_TX_ENABLE }
    }

    /// Also enables the receive interrupt.
    pub fn set_rx_enable(self) -> (r: Self)
        ensures
            r.bits == self.bits | IER_RX_ENABLE,
    {
        Self { bits: self.bits | IER_RX_ENABLE }
    }
}

/// The FIFO control register's value.
#[derive(Clone, Copy, Debug, PartialEq, Eq, Structural)]
pub struct UartFIFO {
    pub bits: u8,
}

impl UartFIFO {
    pub fn new() -> (r: Self)
        ensures
            r.bits == 0,
    {
        Self::from_bits(0)
    }

    pub fn from_bits(bits: u8) -> (r: Self)
        ensures
            r.bits == bits,
    {
        Self { bits }
    }

    pub fn bits(&self) -> (r: u8)
        ensures
            r == self.bits,
    {
        self.bits
    }

    /// Also turns the FIFOs on.
    pub fn set_enable(self) -> (r: Self)
        ensures
            r.bits == self.bits | FCR_FIFO_ENABLE,
    {
        Self { bits: self.bits | FCR_FIFO_ENABLE }
    }

    /// Also empties both FIFOs.
    pub fn set_clear(self) -> (r: Self)
        ensures
            r.bits == self.bits | FCR_FIFO_CLEAR,
    {
        Self { bits: self.bits | FCR_FIFO_CLEAR }
    }
}

/// The registers of a UART at `base_addr`.
#[derive(Clone, Copy, Debug, PartialEq, Eq, Structural)]
pub struct UartInterface {
    pub base_addr: usize,
}

impl UartInterface {
    pub fn new(base_addr: usize) -> (r: Self)
        ensures
            r.base_addr == base_addr,
    {
        Self { base_addr }
    }

    /// The register block fits in the address space.
    pub open spec fn wf(&self) -> bool {
        self.base_addr + 8 <= usize::MAX
    }

    fn write_reg(&self, offset: usize, value: u8) -> (r: RegWrite)
        requires
            self.wf(),
            offset < 8,
        ensures
            r == (RegWrite { addr: (self.base_addr + offset) as usize, value }),
    {
        RegWrite { addr: self.base_addr + offset, value }
    }

    /// Selects which interrupts the UART raises.
    pub fn set_interrupt(&self, interrupt: UartInterrupt) -> (r: RegWrite)
        requires
            self.wf(),
        ensures
            r == (RegWrite { addr: (self.base_addr + IER) as usize, value: interrupt.bits }),
    {
        self.write_reg(IER, interrupt.bits())
    }

    /// Sets the baud rate to the clock divided by `16 * divisor`: opens the divisor latch,
    /// writes the divisor's low and high bytes, then closes the latch and selects eight
    /// data bits.
    pub fn set_baud_rate(&self, divisor: u16) -> (r: Vec<RegWrite>)
        requires
            self.wf(),
        ensures
            r@ == seq![
                RegWrite { addr: (self.base_addr + LCR) as usize, value: LCR_BAUD_LATCH },
                RegWrite { addr: self.base_addr, value: (divisor % 256) as u8 },
                RegWrite { addr: (self.base_addr + 1) as usize, value: (divisor / 256) as u8 },
                RegWrite { addr: (self.base_addr + LCR) as usize, value: LCR_EIGHT_BITS },
            ],
    {
        let low = (divisor % 256) as u8;
        let high = (divisor / 256) as u8;
        let mut r: Vec<RegWrite> = Vec::new();
        r.push(self.write_reg(LCR, LCR_BAUD_LATCH));
        r.push(self.write_reg(0, low));
        r.push(self.write_reg(1, high));
        r.push(self.write_reg(LCR, LCR_EIGHT_BITS));
        assert(r@ =~= seq![
            RegWrite { addr: (self.base_addr + LCR) as usize, value: LCR_BAUD_LATCH },
            RegWrite { addr: self.base_addr, value: (divisor % 256) as u8 },
            RegWrite { addr: (self.base_addr + 1) as usize, value: (divisor / 256) as u8 },
            RegWrite { addr: (self.base_addr + LCR) as usize, value: LCR_EIGHT_BITS },
        ]);
        r
    }

    /// Configures the FIFOs.
    pub fn set_fifo(&self, fifo: UartFIFO) -> (r: RegWrite)
        requires
            self.wf(),
        ensures
            r == (RegWrite { addr: (self.base_addr + FCR) as usize, value: fifo.bits }),
    {
        self.write_reg(FCR, fifo.bits())
    }

    /// The address of the line status register.
    pub fn lsr_addr(&self) -> (r: usize)
        requires
            self.wf(),
        ensures
            r == self.base_addr + LSR,
    {
        self.base_addr + LSR
    }

    /// The address of the data register, read to receive and written to send.
    pub fn data_addr(&self) -> (r: usize)
        ensures
            r == self.base_addr,
    {
        self.base_addr
    }

    /// Whether the line status `lsr` says a byte can be sent.
    pub fn tx_idle(&self, lsr: u8) -> (r: bool)
        ensures
            r == (lsr & LSR_TX_IDLE != 0),
    {
        lsr & LSR_TX_IDLE != 0
    }

    /// Whether the line status `lsr` says a byte has been received.
    pub fn rx_ready(&self, lsr: u8) -> (r: bool)
        ensures
            r == (lsr & LSR_RX_IDLE != 0),
    {
        lsr & LSR_RX_IDLE != 0
    }

    /// Sends `ch`; only when the UART is idle.
    pub fn put(&self, ch: u8) -> (r: RegWrite)
        ensures
            r == (RegWrite { addr: self.base_addr, value: ch }),
    {
        RegWrite { addr: self.base_addr, value: ch }
    }
}

/// What became of a byte handed to [`Uart::put`].
#[derive(Clone, Copy, Debug, PartialEq, Eq, Structural)]
pub enum PutOutcome {
    /// The byte was queued; the caller now drains the queue with `start_put_step`.
    Queued,
    /// The output buffer is full: the caller waits and hands the byte over again.
    Full,
}

/// A UART with a buffer for bytes to send and one for bytes received.
pub struct Uart {
    interface: UartInterface,
    put_buf: RingBuffer<u8, 512>,
    get_buf: RingBuffer<u8, 512>,
}

impl Uart {
    pub closed spec fn spec_interface(&self) -> UartInterface {
        self.interface
    }

    /// Bytes waiting to be sent, oldest first.
    pub closed spec fn pending_output(&self) -> Seq<u8> {
        self.put_buf.view()
    }

    /// Bytes received and not yet read, oldest first.
    pub closed spec fn pending_input(&self) -> Seq<u8> {
        self.get_buf.view()
    }

    pub closed spec fn wf(&self) -> bool {
        &&& self.interface.wf()
        &&& self.put_buf.wf()
        &&& self.get_buf.wf()
    }

    /// A UART at `base_addr` with empty buffers.
    pub fn new(base_addr: usize) -> (r: Self)
        requires
            base_addr + 8 <= usize::MAX,
        ensures
            r.wf(),
            r.spec_interface().base_addr == base_addr,
            r.pending_output() == Seq::<u8>::empty(),
            r.pending_input() == Seq::<u8>::empty(),
    {
        Uart {
            interface: UartInterface::new(base_addr),
            put_buf: RingBuffer::new(0),
            get_buf: RingBuffer::new(0),
        }
    }

    /// The register writes that initialise the UART: all interrupts off, 38.4k baud
    /// (divisor 3), FIFOs on and emptied, then transmit and receive interrupts on.
    pub fn init(&self) -> (r: Vec<RegWrite>)
        requires
            self.wf(),
        ensures
            ({
                let b = self.spec_interface().base_addr;
                r@ == seq![
                    RegWrite { addr: (b + IER) as usize, value: 0 },
                    RegWrite { addr: (b + LCR) as usize, value: LCR_BAUD_LATCH },
                    RegWrite { addr: b, value: 3 },
                    RegWrite { addr: (b + 1) as usize, value: 0 },
                    RegWrite { addr: (b + LCR) as usize, value: LCR_EIGHT_BITS },
                    RegWrite { addr: (b + FCR) as usize, value: FCR_FIFO_ENABLE | FCR_FIFO_CLEAR },
                    RegWrite { addr: (b + IER) as usize, value: IER_TX_ENABLE | IER_RX_ENABLE },
                ]
            }),
    {
        let mut r: Vec<RegWrite> = Vec::new();
        r.push(self.interface.set_interrupt(UartInterrupt::new()));
        let mut baud = self.interface.set_baud_rate(3);
        r.append(&mut baud);
        let fifo = UartFIFO::new().set_enable().set_clear();
        r.push(self.interface.set_fifo(fifo));
        let interrupt = UartInterrupt::new().set_tx_enable().set_rx_enable();
        r.push(self.interface.set_interrupt(interrupt));
        proof {
            assert((0u8 | FCR_FIFO_ENABLE) | FCR_FIFO_CLEAR == FCR_FIFO_ENABLE | FCR_FIFO_CLEAR) by (bit_vector);
            assert((0u8 | IER_TX_ENABLE) | IER_RX_ENABLE == IER_TX_ENABLE | IER_RX_ENABLE) by (bit_vector);
        }
        let ghost b = self.interface.base_addr;
        assert(r@ =~= seq![
            RegWrite { addr: (b + IER) as usize, value: 0 },
            RegWrite { addr: (b + LCR) as usize, value: LCR_BAUD_LATCH },
            RegWrite { addr: b, value: 3 },
            RegWrite { addr: (b + 1) as usize, value: 0 },
            RegWrite { addr: (b + LCR) as usize, value: LCR_EIGHT_BITS },
            RegWrite { addr: (b + FCR) as usize, value: FCR_FIFO_ENABLE | FCR_FIFO_CLEAR },
            RegWrite { addr: (b + IER) as usize, value: IER_TX_ENABLE | IER_RX_ENABLE },
        ]);
        r
    }

    /// Sends `ch` at once if the line status `lsr` says the UART is idle; otherwise the
    /// caller reads the status again and retries.
    pub fn put_sync(&self, ch: u8, lsr: u8) -> (r: Option<RegWrite>)
        requires
            self.wf(),
        ensures
            (lsr & LSR_TX_IDLE != 0) ==> r == Some(RegWrite { addr: self.spec_interface().base_addr, value: ch }),
            (lsr & LSR_TX_IDLE == 0) ==> r.is_none(),
    {
        if self.interface.tx_idle(lsr) {
            Some(self.interface.put(ch))
        } else {
            None
        }
    }

    /// Queues `ch` for sending, unless the output buffer is full.
    pub fn put(&mut self, ch: u8) -> (r: PutOutcome)
        requires
            old(self).wf(),
        ensures
            final(self).wf(),
            final(self).spec_interface() == old(self).spec_interface(),
            final(self).pending_input() == old(self).pending_input(),
            old(self).pending_output().len() == BUF_SIZE ==> r == PutOutcome::Full
                && final(self).pending_output() == old(self).pending_output(),
            old(self).pending_output().len() < BUF_SIZE ==> r == PutOutcome::Queued
                && final(self).pending_output() == old(self).pending_output().push(ch),
    {
        if self.put_buf.is_full() {
            PutOutcome::Full
        } else {
            self.put_buf.push(ch);
            PutOutcome::Queued
        }
    }

    /// One step of draining the output buffer: when bytes are waiting and the line status
    /// `lsr` says the UART is idle, takes the oldest and gives the write that sends it.
    /// `None` ends the draining; the caller then wakes the threads waiting to put.
    pub fn start_put_step(&mut self, lsr: u8) -> (r: Option<RegWrite>)
        requires
            old(self).wf(),
        ensures
            final(self).wf(),
            final(self).spec_interface() == old(self).spec_interface(),
            final(self).pending_input() == old(self).pending_input(),
            (old(self).pending_output().len() > 0 && (lsr & LSR_TX_IDLE != 0)) ==> {
                &&& r == Some(RegWrite { addr: old(self).spec_interface().base_addr, value: old(self).pending_output()[0] })
                &&& final(self).pending_output() == old(self).pending_output().drop_first()
            },
            !(old(self).pending_output().len() > 0 && (lsr & LSR_TX_IDLE != 0)) ==> r.is_none()
                && final(self).pending_output() == old(self).pending_output(),
    {
        if self.put_buf.is_empty() {
            return None;
        }
        // the UART is busy: stop for now
        if !self.interface.tx_idle(lsr) {
            return None;
        }
        match self.put_buf.pop() {
            Some(ch) => Some(self.interface.put(ch)),
            None => None,
        }
    }

    /// Takes the oldest received byte, or `None` when the caller has to wait for input.
    pub fn get(&mut self) -> (r: Option<u8>)
        requires
            old(self).wf(),
        ensures
            final(self).wf(),
            final(self).spec_interface() == old(self).spec_interface(),
            final(self).pending_output() == old(self).pending_output(),
            old(self).pending_input().len() == 0 ==> r.is_none() && final(self).pending_input() == old(self).pending_input(),
            old(self).pending_input().len() > 0 ==> r == Some(old(self).pending_input()[0])
                && final(self).pending_input() == old(self).pending_input().drop_first(),
    {
        self.get_buf.pop()
    }

    /// Whether receiving goes on: the input buffer has room and the line status `lsr` says
    /// a byte is waiting in the UART. When it does, the caller reads the data register and
    /// hands the byte to [`Uart::receive`].
    pub fn start_get_step(&self, lsr: u8) -> (r: bool)
        requires
            self.wf(),
        ensures
            r == (self.pending_input().len() < BUF_SIZE && (lsr & LSR_RX_IDLE != 0)),
    {
        !self.get_buf.is_full() && self.interface.rx_ready(lsr)
    }

    /// Stores a received byte.
    pub fn receive(&mut self, ch: u8)
        requires
            old(self).wf(),
            old(self).pending_input().len() < BUF_SIZE,
        ensures
            final(self).wf(),
            final(self).spec_interface() == old(self).spec_interface(),
            final(self).pending_output() == old(self).pending_output(),
            final(self).pending_input() == old(self).pending_input().push(ch),
    {
        self.get_buf.push(ch);
    }
}

/// One operation on a buffer of the UART: a byte offered to it (`put` on the output
/// buffer, `receive` on the input buffer), or the oldest byte taken out of it (a step of
/// `start_put_step` that sends, or `get`).
#[derive(Clone, Copy, Debug, PartialEq, Eq, Structural)]
pub enum BufferEvent {
    Offer(u8),
    Take,
}

/// What a run of `events` on a buffer holding `q` leads to, as the contracts of `put`,
/// `start_put_step`, `receive` and `get` describe each step: the bytes taken out, in the
/// order they were taken; what the buffer holds at the end; and the bytes it accepted, in
/// the order they were offered (an offer to a full buffer is refused and leaves it as it
/// is, a take from an empty one takes nothing).
pub open spec fn buffer_run(q: Seq<u8>, events: Seq<BufferEvent>) -> (Seq<u8>, Seq<u8>, Seq<u8>)
    decreases events.len(),
{
    if events.len() == 0 {
        (Seq::empty(), q, Seq::empty())
    } else {
        let (taken, held, accepted) = buffer_run(q, events.drop_last());
        match events.last() {
            BufferEvent::Offer(c) => if held.len() < BUF_SIZE {
                (taken, held.push(c), accepted.push(c))
            } else {
                (taken, held, accepted)
            },
            BufferEvent::Take => if held.len() > 0 {
                (taken.push(held[0]), held.drop_first(), accepted)
            } else {
                (taken, held, accepted)
            },
        }
    }
}

/// The UART's buffers keep order: over any run of offers and takes, the bytes taken out,
/// followed by those still held, are the bytes held at the start followed by the bytes
/// accepted, in order. So every accepted byte leaves exactly once, and in the order it
/// came in; on the output side the data register receives the bytes put, in order.
pub proof fn lemma_buffer_keeps_order(q: Seq<u8>, events: Seq<BufferEvent>)
    ensures
        ({
            let (taken, held, accepted) = buffer_run(q, events);
            taken + held == q + accepted
        }),
    decreases events.len(),
{
    if events.len() > 0 {
        lemma_buffer_keeps_order(q, events.drop_last());
        let (taken, held, accepted) = buffer_run(q, events.drop_last());
        match events.last() {
            BufferEvent::Offer(c) => {
                if held.len() < BUF_SIZE {
                    assert(taken + held.push(c) =~= (taken + held).push(c));
                    assert(q + accepted.push(c) =~= (q + accepted).push(c));
                }
            },
            BufferEvent::Take => {
                if held.len() > 0 {
                    assert(taken.push(held[0]) + held.drop_first() =~= taken + held);
                }
            },
        }
    }
}

} // verus!
