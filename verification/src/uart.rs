//! The NS16550-family UART: register file, receive FIFO, and the driver's
//! internal buffer.
//!
//! The device is held as data: bytes arriving on the line sit in
//! `input_fifo` until software reads the data register; bytes written by
//! software are appended to `output` (the modelled transmitter never stalls,
//! so the line-status OUTPUT_EMPTY bit is always set). The interrupt handler
//! drains the receive FIFO into the driver's own `buffer`.

use vstd::prelude::*;
use vstd::string::StringSliceAdditionalSpecFns;

verus! {

/// Line status flags.
pub const LINE_STS_INPUT_FULL: u8 = 1;

pub const LINE_STS_OUTPUT_EMPTY: u8 = 32;

/// Line-status flag set, as read from the line-status register.
#[derive(Clone, Copy, Debug, PartialEq, Eq, Structural)]
pub struct LineStsFlags {
    pub bits: u8,
}

impl LineStsFlags {
    pub fn from_bits_truncate(bits: u8) -> (r: Self)
        ensures
            r.bits == bits,
    {
        LineStsFlags { bits }
    }

    /// Whether every flag of `other` is also set in `self`.
    pub fn contains(self, other: Self) -> (r: bool)
        ensures
            r == ((self.bits & other.bits) == other.bits),
    {
        (self.bits & other.bits) == other.bits
    }
}


/// The byte stream a line-disciplined write produces: every newline goes
/// out as carriage return and newline, everything else unchanged.
pub open spec fn crlf_encode(s: Seq<u8>) -> Seq<u8>
    decreases s.len(),
{
    if s.len() == 0 {
        Seq::<u8>::empty()
    } else {
        crlf_encode(s.drop_last()) + (if s.last() == 10u8 {
            seq![13u8, 10u8]
        } else {
            seq![s.last()]
        })
    }
}

/// An NS16550-compatible UART, registers and FIFOs together, plus the
/// driver's internal receive buffer.
pub struct NS16550a {
    /// Physical base of the register file.
    pub base_addr: u64,
    /// Interrupt-enable register.
    pub interrupt_enable: u8,
    /// FIFO-control register.
    pub fifo_control: u8,
    /// Modem-control register.
    pub modem_control: u8,
    /// Bytes received on the line and not yet read by software.
    pub input_fifo: Vec<u8>,
    /// Bytes software has transmitted.
    pub output: Vec<u8>,
    /// The driver's internal buffer, filled by the interrupt handler.
    pub buffer: Vec<u8>,
}

impl NS16550a {
    /// Bring the device up the way the driver's `init` sequence leaves it:
    /// FIFOs enabled, modem lines asserted, receive interrupt enabled.
    pub fn new(base: u64) -> (r: Self)
        ensures
            r.base_addr == base,
            r.interrupt_enable == 1u8,
            r.fifo_control == 0xC7u8,
            r.modem_control == 0x0Bu8,
            r.input_fifo@ == Seq::<u8>::empty(),
            r.output@ == Seq::<u8>::empty(),
            r.buffer@ == Seq::<u8>::empty(),
    {
        let mut uart = NS16550a {
            base_addr: base,
            interrupt_enable: 0,
            fifo_control: 0,
            modem_control: 0,
            input_fifo: Vec::new(),
            output: Vec::new(),
            buffer: Vec::new(),
        };
        uart.init();
        uart
    }

    /// The driver's initialisation sequence: mask interrupts, enable and
    /// clear the FIFOs, raise DTR/RTS, then enable the receive interrupt.
    pub fn init(&mut self)
        ensures
            *final(self) == (NS16550a {
                interrupt_enable: 1u8,
                fifo_control: 0xC7u8,
                modem_control: 0x0Bu8,
                ..*old(self)
            }),
    {
        self.interrupt_enable = 0x00;
        self.fifo_control = 0xC7;
        self.modem_control = 0x0B;
        self.interrupt_enable = 0x01;
    }

    /// The line-status register: INPUT_FULL while the receive FIFO holds a
    /// byte; the modelled transmitter is always empty.
    pub fn line_status(&self) -> (r: LineStsFlags)
        ensures
            r.bits == if self.input_fifo@.len() > 0 {
                LINE_STS_OUTPUT_EMPTY | LINE_STS_INPUT_FULL
            } else {
                LINE_STS_OUTPUT_EMPTY
            },
    {
        if self.input_fifo.len() > 0 {
            proof {
                assert(32u8 | 1u8 == 33u8) by (bit_vector);
            }
            LineStsFlags::from_bits_truncate(LINE_STS_OUTPUT_EMPTY | LINE_STS_INPUT_FULL)
        } else {
            LineStsFlags::from_bits_truncate(LINE_STS_OUTPUT_EMPTY)
        }
    }

    /// Read the data register: the oldest byte of the receive FIFO, if any.
    pub fn read(&mut self) -> (r: Option<u8>)
        ensures
            old(self).input_fifo@.len() > 0 ==> {
                &&& r == Some(old(self).input_fifo@[0])
                &&& final(self).input_fifo@ == old(self).input_fifo@.remove(0)
            },
            old(self).input_fifo@.len() == 0 ==> {
                &&& r is None
                &&& final(self).input_fifo@ == old(self).input_fifo@
            },
            *final(self) == (NS16550a { input_fifo: final(self).input_fifo, ..*old(self) }),
    {
        proof {
            assert((((32u8 | 1u8) & 1u8) == 1u8) && ((32u8 & 1u8) == 0u8)) by (bit_vector);
        }
        let sts = self.line_status();
        if sts.contains(LineStsFlags { bits: LINE_STS_INPUT_FULL }) {
            let data = self.input_fifo.remove(0);
            Some(data)
        } else {
            None
        }
    }

    /// Write the data register: transmit one byte. The modelled transmitter
    /// never stalls, so this always succeeds at once.
    pub fn write(&mut self, data: u8)
        ensures
            final(self).output@ == old(self).output@.push(data),
            *final(self) == (NS16550a { output: final(self).output, ..*old(self) }),
    {
        self.output.push(data);
    }


    /// Transmit a whole string, sending carriage return before each
    /// newline, as consoles expect.
    #[verifier::loop_isolation(false)]
    pub fn write_str(&mut self, data: &str)
        ensures
            final(self).output@ == old(self).output@ + crlf_encode(data.spec_bytes()),
            *final(self) == (NS16550a { output: final(self).output, ..*old(self) }),
    {
        let bytes = data.as_bytes();
        let mut i: usize = 0;
        while i < bytes.len()
            invariant
                i <= bytes@.len(),
                self.output@ == old(self).output@ + crlf_encode(bytes@.subrange(0, i as int)),
                *self == (NS16550a { output: self.output, ..*old(self) }),
            decreases bytes@.len() - i,
        {
            let b = bytes[i];
            if b == 10u8 {
                self.write(13u8);
                self.write(10u8);
            } else {
                self.write(b);
            }
            proof {
                assert(bytes@.subrange(0, i + 1).drop_last() =~= bytes@.subrange(0, i as int));
                assert(self.output@ =~= old(self).output@ + crlf_encode(
                    bytes@.subrange(0, i + 1),
                ));
            }
            i = i + 1;
        }
        proof {
            assert(bytes@.subrange(0, bytes@.len() as int) =~= bytes@);
        }
    }

    /// A byte arrives on the line and is latched into the receive FIFO.
    /// This is the device side of the model, not a driver operation.
    pub fn receive_byte(&mut self, data: u8)
        ensures
            final(self).input_fifo@ == old(self).input_fifo@.push(data),
            *final(self) == (NS16550a { input_fifo: final(self).input_fifo, ..*old(self) }),
    {
        self.input_fifo.push(data);
    }

    /// The interrupt handler: drain the receive FIFO into the driver's
    /// internal buffer.
    pub fn handle_irq(&mut self)
        ensures
            final(self).buffer@ == old(self).buffer@ + old(self).input_fifo@,
            final(self).input_fifo@ == Seq::<u8>::empty(),
            *final(self) == (NS16550a {
                buffer: final(self).buffer,
                input_fifo: final(self).input_fifo,
                ..*old(self)
            }),
    {
        loop
            invariant
                self.buffer@ + self.input_fifo@ == old(self).buffer@ + old(self).input_fifo@,
                *self == (NS16550a {
                    buffer: self.buffer,
                    input_fifo: self.input_fifo,
                    ..*old(self)
                }),
            ensures
                self.input_fifo@.len() == 0,
            decreases self.input_fifo@.len(),
        {
            let ch = self.read();
            match ch {
                Some(b) => {
                    self.buffer.push(b);
                    proof {
                        assert(self.buffer@ + self.input_fifo@ == old(self).buffer@ + old(
                            self,
                        ).input_fifo@);
                    }
                },
                None => {
                    break ;
                },
            }
        }
        proof {
            assert(self.buffer@ =~= old(self).buffer@ + old(self).input_fifo@);
        }
    }
}

} // verus!
