//! A 16550 UART subset at the register level.
//!
//! Output bytes and interrupt requests are not performed here: each access
//! reports them in a [`SerialEffect`] for the caller to carry out (write the
//! byte to the console, raise the UART's edge interrupt).
use vstd::prelude::*;
use std::collections::VecDeque;

verus! {

pub const LOOP_SIZE: usize = 0x40;

pub const DATA: u8 = 0;
pub const IER: u8 = 1;
pub const IIR: u8 = 2;
pub const LCR: u8 = 3;
pub const MCR: u8 = 4;
pub const LSR: u8 = 5;
pub const MSR: u8 = 6;
pub const SCR: u8 = 7;
pub const DLAB_LOW: u8 = 0;
pub const DLAB_HIGH: u8 = 1;

pub const IER_RECV_BIT: u8 = 0x1;
pub const IER_THR_BIT: u8 = 0x2;
pub const IER_FIFO_BITS: u8 = 0x0f;

pub const IIR_FIFO_BITS: u8 = 0xc0;
pub const IIR_NONE_BIT: u8 = 0x1;
pub const IIR_THR_BIT: u8 = 0x2;
pub const IIR_RECV_BIT: u8 = 0x4;

pub const LSR_DATA_BIT: u8 = 0x1;
pub const LSR_EMPTY_BIT: u8 = 0x20;
pub const LSR_IDLE_BIT: u8 = 0x40;

pub const MCR_LOOP_BIT: u8 = 0x10;

pub const DEFAULT_INTERRUPT_IDENTIFICATION: u8 = 0x01;
pub const DEFAULT_LINE_STATUS: u8 = 0x60;
pub const DEFAULT_LINE_CONTROL: u8 = 0x3;
pub const DEFAULT_MODEM_CONTROL: u8 = 0x8;
pub const DEFAULT_MODEM_STATUS: u8 = 0xb0;
pub const DEFAULT_BAUD_DIVISOR: u16 = 1;

/// The interrupt line of the UART.
pub const SERIAL_IRQ: u32 = 11;

/// What an access asks of the outside world: a byte for the console, and
/// whether to raise the UART's interrupt.
#[derive(Clone, Copy, PartialEq, Eq, Structural, Debug)]
pub struct SerialEffect {
    pub output: Option<u8>,
    pub interrupt: bool,
}

/// The registers and the input queue, as a value.
pub struct SerialView {
    pub ier: u8,
    pub iir: u8,
    pub lcr: u8,
    pub lsr: u8,
    pub mcr: u8,
    pub msr: u8,
    pub scr: u8,
    pub divisor: u16,
    pub input: Seq<u8>,
}

pub open spec fn dlab(s: SerialView) -> bool {
    s.lcr & 0x80 != 0
}

pub open spec fn add_intr(s: SerialView, bit: u8) -> SerialView {
    SerialView { iir: (s.iir & !IIR_NONE_BIT) | bit, ..s }
}

pub open spec fn del_intr(s: SerialView, bit: u8) -> SerialView {
    let iir = s.iir & !bit;
    SerialView {
        iir: if iir == 0 {
            IIR_NONE_BIT
        } else {
            iir
        },
        ..s
    }
}

/// A byte arrives for the guest: the receive interrupt when enabled, and
/// data-ready.
pub open spec fn recv_spec(s: SerialView) -> (SerialView, bool) {
    let en = s.ier & IER_RECV_BIT != 0;
    let s1 = if en {
        add_intr(s, IIR_RECV_BIT)
    } else {
        s
    };
    (SerialView { lsr: s1.lsr | LSR_DATA_BIT, ..s1 }, en)
}

/// The UART after the guest writes `v` at register `o`.
pub open spec fn write_spec(s: SerialView, o: u8, v: u8) -> (SerialView, SerialEffect) {
    let none = SerialEffect { output: None, interrupt: false };
    if o == DLAB_LOW && dlab(s) {
        (SerialView { divisor: (s.divisor & 0xff00) | v as u16, ..s }, none)
    } else if o == DLAB_HIGH && dlab(s) {
        (SerialView { divisor: (s.divisor & 0x00ff) | ((v as u16) << 8u16), ..s }, none)
    } else if o == DATA {
        if s.mcr & MCR_LOOP_BIT != 0 {
            if s.input.len() < LOOP_SIZE {
                let (s1, irq) = recv_spec(SerialView { input: s.input.push(v), ..s });
                (s1, SerialEffect { output: None, interrupt: irq })
            } else {
                (s, none)
            }
        } else {
            let en = s.ier & IER_THR_BIT != 0;
            (
                if en {
                    add_intr(s, IIR_THR_BIT)
                } else {
                    s
                },
                SerialEffect { output: Some(v), interrupt: en },
            )
        }
    } else if o == IER {
        (SerialView { ier: v & IER_FIFO_BITS, ..s }, none)
    } else if o == LCR {
        (SerialView { lcr: v, ..s }, none)
    } else if o == MCR {
        (SerialView { mcr: v, ..s }, none)
    } else if o == SCR {
        (SerialView { scr: v, ..s }, none)
    } else {
        (s, none)
    }
}

/// The UART after the guest reads register `o`, and the value read.
pub open spec fn read_spec(s: SerialView, o: u8) -> (SerialView, u8) {
    if o == DLAB_LOW && dlab(s) {
        (s, s.divisor as u8)
    } else if o == DLAB_HIGH && dlab(s) {
        (s, (s.divisor >> 8u16) as u8)
    } else if o == DATA {
        let s1 = del_intr(s, IIR_RECV_BIT);
        let s2 = if s.input.len() <= 1 {
            SerialView { lsr: s1.lsr & !LSR_DATA_BIT, ..s1 }
        } else {
            s1
        };
        if s.input.len() == 0 {
            (s2, 0)
        } else {
            (SerialView { input: s.input.subrange(1, s.input.len() as int), ..s2 }, s.input[0])
        }
    } else if o == IER {
        (s, s.ier)
    } else if o == IIR {
        (SerialView { iir: DEFAULT_INTERRUPT_IDENTIFICATION, ..s }, s.iir | IIR_FIFO_BITS)
    } else if o == LCR {
        (s, s.lcr)
    } else if o == MCR {
        (s, s.mcr)
    } else if o == LSR {
        (s, s.lsr)
    } else if o == MSR {
        (s, s.msr)
    } else if o == SCR {
        (s, s.scr)
    } else {
        (s, 0)
    }
}

/// The register state of the UART and the bytes waiting for the guest.
pub struct Serial {
    pub interrupt_enable: u8,
    pub interrupt_identification: u8,
    pub line_control: u8,
    pub line_status: u8,
    pub modem_control: u8,
    pub modem_status: u8,
    pub scratch: u8,
    pub baud_divisor: u16,
    pub in_buffer: VecDeque<u8>,
}

impl View for Serial {
    type V = SerialView;

    open spec fn view(&self) -> SerialView {
        SerialView {
            ier: self.interrupt_enable,
            iir: self.interrupt_identification,
            lcr: self.line_control,
            lsr: self.line_status,
            mcr: self.modem_control,
            msr: self.modem_status,
            scr: self.scratch,
            divisor: self.baud_divisor,
            input: self.in_buffer@,
        }
    }
}

impl Serial {
    /// A UART in its reset state with nothing queued.
    pub fn new() -> (r: Serial)
        ensures
            r@ == (SerialView {
                ier: 0,
                iir: DEFAULT_INTERRUPT_IDENTIFICATION,
                lcr: DEFAULT_LINE_CONTROL,
                lsr: DEFAULT_LINE_STATUS,
                mcr: DEFAULT_MODEM_CONTROL,
                msr: DEFAULT_MODEM_STATUS,
                scr: 0,
                divisor: DEFAULT_BAUD_DIVISOR,
                input: Seq::empty(),
            }),
    {
        Serial {
            interrupt_enable: 0,
            interrupt_identification: DEFAULT_INTERRUPT_IDENTIFICATION,
            line_control: DEFAULT_LINE_CONTROL,
            line_status: DEFAULT_LINE_STATUS,
            modem_control: DEFAULT_MODEM_CONTROL,
            modem_status: DEFAULT_MODEM_STATUS,
            scratch: 0,
            baud_divisor: DEFAULT_BAUD_DIVISOR,
            in_buffer: VecDeque::new(),
        }
    }

    /// Queues bytes typed at the console for the guest, unless the UART is
    /// in loopback mode. Returns whether to raise the UART's interrupt.
    pub fn queue_input_bytes(&mut self, c: &[u8]) -> (r: bool)
        ensures
            if old(self)@.mcr & MCR_LOOP_BIT != 0 {
                final(self)@ == old(self)@ && !r
            } else {
                (final(self)@, r) == recv_spec(SerialView { input: old(self)@.input + c@, ..old(self)@ })
            },
    {
        if !self.is_loop() {
            let mut i: usize = 0;
            while i < c.len()
                invariant
                    i <= c@.len(),
                    self@ == (SerialView { input: old(self)@.input + c@.subrange(0, i as int), ..old(self)@ }),
                decreases c@.len() - i,
            {
                self.in_buffer.push_back(c[i]);
                i = i + 1;
                assert(self@.input =~= old(self)@.input + c@.subrange(0, i as int));
            }
            assert(c@.subrange(0, c@.len() as int) =~= c@);
            return self.recv_data();
        }
        false
    }

    fn is_dlab_set(&self) -> (r: bool)
        ensures
            r == dlab(self@),
    {
        (self.line_control & 0x80) != 0
    }

    fn is_recv_intr_enabled(&self) -> (r: bool)
        ensures
            r == (self.interrupt_enable & IER_RECV_BIT != 0),
    {
        (self.interrupt_enable & IER_RECV_BIT) != 0
    }

    fn is_thr_intr_enabled(&self) -> (r: bool)
        ensures
            r == (self.interrupt_enable & IER_THR_BIT != 0),
    {
        (self.interrupt_enable & IER_THR_BIT) != 0
    }

    fn is_loop(&self) -> (r: bool)
        ensures
            r == (self.modem_control & MCR_LOOP_BIT != 0),
    {
        (self.modem_control & MCR_LOOP_BIT) != 0
    }

    fn add_intr_bit(&mut self, bit: u8)
        ensures
            final(self)@ == add_intr(old(self)@, bit),
    {
        self.interrupt_identification = self.interrupt_identification & !IIR_NONE_BIT;
        self.interrupt_identification = self.interrupt_identification | bit;
    }

    fn del_intr_bit(&mut self, bit: u8)
        ensures
            final(self)@ == del_intr(old(self)@, bit),
    {
        self.interrupt_identification = self.interrupt_identification & !bit;
        if self.interrupt_identification == 0x0 {
            self.interrupt_identification = IIR_NONE_BIT;
        }
    }

    /// The transmit register is empty again: its interrupt, when enabled.
    fn thr_empty(&mut self) -> (r: bool)
        ensures
            r == (old(self)@.ier & IER_THR_BIT != 0),
            final(self)@ == if r {
                add_intr(old(self)@, IIR_THR_BIT)
            } else {
                old(self)@
            },
    {
        if self.is_thr_intr_enabled() {
            self.add_intr_bit(IIR_THR_BIT);
            return true;
        }
        false
    }

    fn recv_data(&mut self) -> (r: bool)
        ensures
            (final(self)@, r) == recv_spec(old(self)@),
    {
        let mut irq = false;
        if self.is_recv_intr_enabled() {
            self.add_intr_bit(IIR_RECV_BIT);
            irq = true;
        }
        self.line_status = self.line_status | LSR_DATA_BIT;
        irq
    }

    fn iir_reset(&mut self)
        ensures
            final(self)@ == (SerialView { iir: DEFAULT_INTERRUPT_IDENTIFICATION, ..old(self)@ }),
    {
        self.interrupt_identification = DEFAULT_INTERRUPT_IDENTIFICATION;
    }

    fn handle_write(&mut self, offset: u8, v: u8) -> (r: SerialEffect)
        ensures
            (final(self)@, r) == write_spec(old(self)@, offset, v),
    {
        let none = SerialEffect { output: None, interrupt: false };
        if offset == DLAB_LOW && self.is_dlab_set() {
            self.baud_divisor = (self.baud_divisor & 0xff00) | v as u16;
            none
        } else if offset == DLAB_HIGH && self.is_dlab_set() {
            self.baud_divisor = (self.baud_divisor & 0x00ff) | ((v as u16) << 8);
            none
        } else if offset == DATA {
            if self.is_loop() {
                if self.in_buffer.len() < LOOP_SIZE {
                    self.in_buffer.push_back(v);
                    let irq = self.recv_data();
                    SerialEffect { output: None, interrupt: irq }
                } else {
                    none
                }
            } else {
                let irq = self.thr_empty();
                SerialEffect { output: Some(v), interrupt: irq }
            }
        } else if offset == IER {
            self.interrupt_enable = v & IER_FIFO_BITS;
            none
        } else if offset == LCR {
            self.line_control = v;
            none
        } else if offset == MCR {
            self.modem_control = v;
            none
        } else if offset == SCR {
            self.scratch = v;
            none
        } else {
            none
        }
    }

    /// A guest write at register `offset`; only the first byte of `data` is
    /// used.
    pub fn write(&mut self, offset: u64, data: &[u8]) -> (r: SerialEffect)
        requires
            data@.len() >= 1,
        ensures
            (final(self)@, r) == write_spec(old(self)@, offset as u8, data@[0]),
    {
        self.handle_write(offset as u8, data[0])
    }

    /// A guest read of register `offset` into the first byte of `data`.
    pub fn read(&mut self, offset: u64, data: &mut [u8])
        requires
            old(data)@.len() >= 1,
        ensures
            final(self)@ == read_spec(old(self)@, offset as u8).0,
            final(data)@ == old(data)@.update(0, read_spec(old(self)@, offset as u8).1),
    {
        let o = offset as u8;
        let v: u8 = if o == DLAB_LOW && self.is_dlab_set() {
            self.baud_divisor as u8
        } else if o == DLAB_HIGH && self.is_dlab_set() {
            (self.baud_divisor >> 8) as u8
        } else if o == DATA {
            self.del_intr_bit(IIR_RECV_BIT);
            if self.in_buffer.len() <= 1 {
                self.line_status = self.line_status & !LSR_DATA_BIT;
            }
            match self.in_buffer.pop_front() {
                Some(b) => b,
                None => 0,
            }
        } else if o == IER {
            self.interrupt_enable
        } else if o == IIR {
            let v = self.interrupt_identification | IIR_FIFO_BITS;
            self.iir_reset();
            v
        } else if o == LCR {
            self.line_control
        } else if o == MCR {
            self.modem_control
        } else if o == LSR {
            self.line_status
        } else if o == MSR {
            self.modem_status
        } else if o == SCR {
            self.scratch
        } else {
            0
        };
        data[0] = v;
    }
}

} // verus!

verus! {

/// Writing a register and reading it back yields the value written, the
/// interrupt-enable register keeping its low four bits (with DLAB set,
/// offsets 0 and 1 are the divisor bytes and keep all eight).
pub proof fn lemma_register_round_trip(s: SerialView, o: u8, v: u8)
    requires
        o == IER || o == LCR || o == MCR || o == SCR || (o == DLAB_LOW && dlab(s)),
    ensures
        read_spec(write_spec(s, o, v).0, o).1 == (if o == IER && !dlab(s) {
            v & IER_FIFO_BITS
        } else {
            v
        }),
{
    let d = s.divisor;
    assert(((d & 0xff00u16) | v as u16) as u8 == v) by (bit_vector);
    assert((((d & 0x00ffu16) | ((v as u16) << 8u16)) >> 8u16) as u8 == v) by (bit_vector);
}

/// Reading the interrupt-identification register reports the pending
/// interrupts (with the FIFO bits set) and leaves none pending.
pub proof fn lemma_iir_read_clears(s: SerialView)
    ensures
        read_spec(s, IIR).1 == s.iir | IIR_FIFO_BITS,
        read_spec(s, IIR).0.iir == IIR_NONE_BIT,
{
}

} // verus!
