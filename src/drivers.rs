//! The board's devices: GPIO, the mini UART, the system timer, the QA7
//! per-core interrupt block and the VideoCore mailbox.
//!
//! A driver here decides what to write where; it does not touch the device.
//! Its operations return the register accesses to perform, in order, as
//! [`MmioOp`]s, and take the register values they depend on as arguments.

use vstd::prelude::*;
use crate::registers::{field_read_u32, field_value_u32};
use crate::synchronization::{Mutex, SpinLock};

verus! {

pub const GPIO_ADDR: usize = 0x3F20_0000;
pub const AUX_REGS_ADDR: usize = 0x3F21_5000;
pub const SYS_TIMER_ADDR: usize = 0x3F00_3000;
pub const QA7_REGS_ADDR: usize = 0x4000_0000;
pub const MAILBOX_ADDR: usize = 0x3F00_B880;

/// Highest base address a device may have: its registers must fit above it.
pub const MAX_DEVICE_BASE: usize = 0xFFFF_0000;

/// One access to a device, or a pause.
#[derive(Clone, Copy, Debug, PartialEq, Eq, Structural)]
pub enum MmioOp {
    /// Store `value` in the 32-bit register at `addr`.
    Write { addr: usize, value: u32 },
    /// Busy-wait for `cycles` processor cycles.
    Spin { cycles: usize },
}

/// GPIO pin function: alternate function 5.
pub const GPIO_ALT_FUNC5: u32 = 2;

/// Cycles to wait for the pull-up/down control to settle.
pub const GPIO_SETTLE_CYCLES: usize = 2000;

/// The GPIO block.
pub struct GPIO {
    pub base: usize,
}

/// Function-select register 1's value after setting the function of `pin`:
/// its three bits at `(pin * 3) % 30` replaced by `func`.
pub open spec fn select_function(selector: u32, pin: u32, func: u32) -> u32 {
    let bit_start = ((pin as int * 3) % 30) as u32;
    (selector & !(7u32 << bit_start)) | (func << bit_start)
}

pub open spec fn enable_pin_ops(base: usize, pin: usize) -> Seq<MmioOp> {
    seq![
        MmioOp::Write { addr: (base + 0x94) as usize, value: 0 },
        MmioOp::Spin { cycles: GPIO_SETTLE_CYCLES },
        MmioOp::Write { addr: (base + 0x98) as usize, value: 1u32 << ((pin % 32) as u32) },
        MmioOp::Spin { cycles: GPIO_SETTLE_CYCLES },
        MmioOp::Write { addr: (base + 0x94) as usize, value: 0 },
        MmioOp::Write { addr: (base + 0x98) as usize, value: 0 },
    ]
}

pub open spec fn mini_uart_pins_ops(base: usize, selector: u32) -> Seq<MmioOp> {
    let first = select_function(selector, 14, GPIO_ALT_FUNC5);
    let second = select_function(first, 15, GPIO_ALT_FUNC5);
    seq![
        MmioOp::Write { addr: (base + 0x04) as usize, value: first },
        MmioOp::Write { addr: (base + 0x04) as usize, value: second },
    ] + enable_pin_ops(base, 14) + enable_pin_ops(base, 15)
}

impl GPIO {
    /// The GPIO block with registers at `mmio_start_addr`.
    pub fn new(mmio_start_addr: usize) -> (r: Self)
        requires
            mmio_start_addr <= MAX_DEVICE_BASE,
        ensures
            r.base == mmio_start_addr,
    {
        GPIO { base: mmio_start_addr }
    }

    /// The value of function-select register 1, whose current value is
    /// `selector`, that gives `pin` the function `func`.
    pub fn set_func(&self, selector: u32, pin: u32, func: u32) -> (r: u32)
        ensures
            r == select_function(selector, pin, func),
    {
        let bit_start = (pin % 10) * 3;
        proof {
            assert((pin as int % 10) * 3 == (pin as int * 3) % 30) by (nonlinear_arith);
        }
        (selector & !(7u32 << bit_start)) | (func << bit_start)
    }

    /// Enables `pin` through the pull-up/down clock.
    pub fn enable_pin(&self, pin: usize) -> (r: Vec<MmioOp>)
        requires
            self.base <= MAX_DEVICE_BASE,
        ensures
            r@ == enable_pin_ops(self.base, pin),
    {
        let pud = self.base + 0x94;
        let clk = self.base + 0x98;
        let mut ops: Vec<MmioOp> = Vec::new();
        ops.push(MmioOp::Write { addr: pud, value: 0 });
        ops.push(MmioOp::Spin { cycles: GPIO_SETTLE_CYCLES });
        ops.push(MmioOp::Write { addr: clk, value: 1u32 << ((pin % 32) as u32) });
        ops.push(MmioOp::Spin { cycles: GPIO_SETTLE_CYCLES });
        ops.push(MmioOp::Write { addr: pud, value: 0 });
        ops.push(MmioOp::Write { addr: clk, value: 0 });
        proof {
            assert(ops@ =~= enable_pin_ops(self.base, pin));
        }
        ops
    }

    /// Routes pins 14 and 15 to the mini UART and enables them, given the
    /// current value of function-select register 1.
    pub fn init_mini_uart_pins(&self, selector: u32) -> (r: Vec<MmioOp>)
        requires
            self.base <= MAX_DEVICE_BASE,
        ensures
            r@ == mini_uart_pins_ops(self.base, selector),
    {
        let first = self.set_func(selector, 14, GPIO_ALT_FUNC5);
        let second = self.set_func(first, 15, GPIO_ALT_FUNC5);
        let mut ops: Vec<MmioOp> = Vec::new();
        ops.push(MmioOp::Write { addr: self.base + 0x04, value: first });
        ops.push(MmioOp::Write { addr: self.base + 0x04, value: second });
        let mut a = self.enable_pin(14);
        let mut b = self.enable_pin(15);
        ops.append(&mut a);
        ops.append(&mut b);
        proof {
            assert(ops@ =~= mini_uart_pins_ops(self.base, selector));
        }
        ops
    }
}

/// The mini UART's registers, by offset from the auxiliary block's base.
pub const AUX_ENABLES: usize = 0x04;
pub const AUX_MU_IO: usize = 0x40;
pub const AUX_MU_IER: usize = 0x44;
pub const AUX_MU_LCR: usize = 0x4C;
pub const AUX_MU_MCR: usize = 0x50;
pub const AUX_MU_LSR: usize = 0x54;
pub const AUX_MU_CNTL: usize = 0x60;
pub const AUX_MU_BAUD: usize = 0x68;

/// Baud-rate divisor for 115200 baud.
pub const MINI_UART_BAUD_DIVISOR: u32 = 270;

pub open spec fn mini_uart_init_ops(base: usize) -> Seq<MmioOp> {
    seq![
        MmioOp::Write { addr: (base + AUX_ENABLES) as usize, value: 1 },
        MmioOp::Write { addr: (base + AUX_MU_CNTL) as usize, value: 0 },
        MmioOp::Write { addr: (base + AUX_MU_IER) as usize, value: 0 },
        MmioOp::Write { addr: (base + AUX_MU_LCR) as usize, value: 3 },
        MmioOp::Write { addr: (base + AUX_MU_MCR) as usize, value: 0 },
        MmioOp::Write { addr: (base + AUX_MU_BAUD) as usize, value: MINI_UART_BAUD_DIVISOR },
        MmioOp::Write { addr: (base + AUX_MU_CNTL) as usize, value: 7 },
    ]
}

/// The mini UART's register block.
pub struct MiniUartInner {
    pub base: usize,
}

impl MiniUartInner {
    pub fn new(mmio_start_addr: usize) -> (r: Self)
        requires
            mmio_start_addr <= MAX_DEVICE_BASE,
        ensures
            r.base == mmio_start_addr,
    {
        MiniUartInner { base: mmio_start_addr }
    }

    /// Enables the mini UART for 8-bit frames at 115200 baud, receiver and
    /// transmitter on, no interrupts.
    pub fn init(&self) -> (r: Vec<MmioOp>)
        requires
            self.base <= MAX_DEVICE_BASE,
        ensures
            r@ == mini_uart_init_ops(self.base),
    {
        let enable = field_value_u32(1, 0, 1);
        let eight_bit = field_value_u32(3, 0, 3);
        let cntl = field_value_u32(1, 0, 1) | field_value_u32(1, 1, 1) | field_value_u32(1, 2, 1)
            | field_value_u32(1, 2, 1);
        proof {
            assert((1u32 & 1u32) << 0usize == 1u32) by (bit_vector);
            assert((3u32 & 3u32) << 0usize == 3u32) by (bit_vector);
            assert(((1u32 & 1u32) << 0usize) | ((1u32 & 1u32) << 1usize) | ((1u32 & 1u32) << 2usize)
                | ((1u32 & 1u32) << 2usize) == 7u32) by (bit_vector);
        }
        let mut ops: Vec<MmioOp> = Vec::new();
        ops.push(MmioOp::Write { addr: self.base + AUX_ENABLES, value: enable });
        ops.push(MmioOp::Write { addr: self.base + AUX_MU_CNTL, value: 0 });
        ops.push(MmioOp::Write { addr: self.base + AUX_MU_IER, value: 0 });
        ops.push(MmioOp::Write { addr: self.base + AUX_MU_LCR, value: eight_bit });
        ops.push(MmioOp::Write { addr: self.base + AUX_MU_MCR, value: 0 });
        ops.push(MmioOp::Write { addr: self.base + AUX_MU_BAUD, value: MINI_UART_BAUD_DIVISOR });
        ops.push(MmioOp::Write { addr: self.base + AUX_MU_CNTL, value: cntl });
        proof {
            assert(ops@ =~= mini_uart_init_ops(self.base));
        }
        ops
    }

    /// The bytes that sending `c` puts on the line, in order: a carriage
    /// return is preceded by a line feed.
    pub fn putc(&self, c: char) -> (r: Vec<u32>)
        ensures
            c == '\r' ==> r@ == seq!['\n' as u32, '\r' as u32],
            c != '\r' ==> r@ == seq![c as u32],
    {
        let mut out: Vec<u32> = Vec::new();
        if c == '\r' {
            out.push('\n' as u32);
        }
        out.push(c as u32);
        proof {
            if c == '\r' {
                assert(out@ =~= seq!['\n' as u32, '\r' as u32]);
            } else {
                assert(out@ =~= seq![c as u32]);
            }
        }
        out
    }

    /// Whether the line status `lsr` says the transmitter can take a byte.
    pub fn transmitter_empty(&self, lsr: u32) -> (r: bool)
        ensures
            r == ((lsr & (1u32 << 5usize)) >> 5usize == 1),
    {
        field_read_u32(1, 5, lsr) == 1
    }

    /// Whether the line status `lsr` says a received byte is waiting.
    pub fn data_ready(&self, lsr: u32) -> (r: bool)
        ensures
            r == ((lsr & (1u32 << 0usize)) >> 0usize == 1),
    {
        field_read_u32(1, 0, lsr) == 1
    }

    /// The character in the I/O register's value `io`: its low byte.
    pub fn read_char(&self, io: u32) -> (r: char)
        ensures
            r as u32 == (io & (0xFFu32 << 0usize)) >> 0usize,
    {
        let byte = field_read_u32(0xFF, 0, io);
        proof {
            assert((io & (0xFFu32 << 0usize)) >> 0usize <= 0xFF) by (bit_vector);
        }
        (byte as u8) as char
    }
}

/// The mini UART, shared behind a lock.
pub struct MiniUart {
    inner: SpinLock<MiniUartInner>,
}

impl MiniUart {
    pub closed spec fn base(&self) -> usize {
        self.inner.value().base
    }

    pub closed spec fn is_locked(&self) -> bool {
        self.inner.is_locked()
    }

    pub fn new(mmio_start_addr: usize) -> (r: Self)
        requires
            mmio_start_addr <= MAX_DEVICE_BASE,
        ensures
            r.base() == mmio_start_addr,
            !r.is_locked(),
    {
        MiniUart { inner: SpinLock::new(MiniUartInner::new(mmio_start_addr)) }
    }

    /// The accesses that initialise the device, taken under its lock.
    pub fn init(&mut self) -> (r: Vec<MmioOp>)
        requires
            old(self).base() <= MAX_DEVICE_BASE,
            !old(self).is_locked(),
        ensures
            r@ == mini_uart_init_ops(old(self).base()),
            final(self).base() == old(self).base(),
            !final(self).is_locked(),
    {
        self.inner.try_lock();
        let ops = self.inner.get_data().init();
        self.inner.unlock();
        ops
    }
}

/// Ticks of the free-running system timer from its two halves.
pub open spec fn ticks_of(clo: u32, chi: u32) -> u64 {
    (clo as u64) | ((chi as u64) << 32u64)
}

/// The BCM system timer, a free-running microsecond counter.
pub struct SystemTimer {
    pub base: usize,
}

impl SystemTimer {
    pub fn new(mmio_start_addr: usize) -> (r: Self)
        ensures
            r.base == mmio_start_addr,
    {
        SystemTimer { base: mmio_start_addr }
    }

    /// The counter's value from its low and high registers.
    pub fn get_ticks(&self, clo: u32, chi: u32) -> (r: u64)
        ensures
            r == ticks_of(clo, chi),
    {
        (clo as u64) | ((chi as u64) << 32u64)
    }

    /// Whether a wait of `ms` milliseconds that began at tick `start` is over
    /// at tick `now`.
    pub fn wait_for_ms(&self, start: u64, now: u64, ms: u64) -> (r: bool)
        ensures
            r == (now as int >= start as int + ms as int * 1000),
    {
        (now as u128) >= (start as u128) + (ms as u128) * 1000
    }
}

/// The system timer of the board.
pub fn system_timer() -> (r: SystemTimer)
    ensures
        r.base == SYS_TIMER_ADDR,
{
    SystemTimer::new(SYS_TIMER_ADDR)
}

/// What starting a core's timer takes: the countdown to load into the
/// core's timer, and the write that routes its interrupts to the core.
#[derive(Clone, Copy, Debug, PartialEq, Eq, Structural)]
pub struct CoreTimerSetup {
    pub countdown: u64,
    pub control: MmioOp,
}

/// The QA7 per-core interrupt and timer block.
pub struct QA7RegistersInner {
    pub base: usize,
}

impl QA7RegistersInner {
    pub fn new(mmio_start_addr: usize) -> (r: Self)
        requires
            mmio_start_addr <= MAX_DEVICE_BASE,
        ensures
            r.base == mmio_start_addr,
    {
        QA7RegistersInner { base: mmio_start_addr }
    }

    /// Starts core `core`'s timer at `frequency / freq_divider` ticks and
    /// enables all four of its timer interrupts.
    pub fn init_core_timer(&self, core: u8, freq_divider: u64, frequency: u64) -> (r: CoreTimerSetup)
        requires
            self.base <= MAX_DEVICE_BASE,
            core < 4,
            freq_divider > 0,
        ensures
            r.countdown == frequency / freq_divider,
            r.control == (MmioOp::Write { addr: (self.base + 0x40 + 4 * core) as usize, value: 0xF }),
    {
        let countdown = frequency / freq_divider;
        let value = field_value_u32(1, 0, 1) | field_value_u32(1, 1, 1) | field_value_u32(1, 2, 1)
            | field_value_u32(1, 3, 1);
        proof {
            assert(((1u32 & 1u32) << 0usize) | ((1u32 & 1u32) << 1usize) | ((1u32 & 1u32) << 2usize)
                | ((1u32 & 1u32) << 3usize) == 0xFu32) by (bit_vector);
        }
        let addr = self.base + 0x40 + 4 * (core as usize);
        CoreTimerSetup { countdown, control: MmioOp::Write { addr, value } }
    }

    /// Where core `core`'s interrupt source register lies.
    pub fn irq_source_addr(&self, core: u8) -> (r: usize)
        requires
            self.base <= MAX_DEVICE_BASE,
            core < 4,
        ensures
            r == self.base + 0x60 + 4 * core,
    {
        self.base + 0x60 + 4 * (core as usize)
    }
}

/// The QA7 block, shared behind a lock.
pub struct QA7Registers {
    inner: SpinLock<QA7RegistersInner>,
}

impl QA7Registers {
    pub closed spec fn base(&self) -> usize {
        self.inner.value().base
    }

    pub closed spec fn is_locked(&self) -> bool {
        self.inner.is_locked()
    }

    pub fn new(mmio_start_addr: usize) -> (r: Self)
        requires
            mmio_start_addr <= MAX_DEVICE_BASE,
        ensures
            r.base() == mmio_start_addr,
            !r.is_locked(),
    {
        QA7Registers { inner: SpinLock::new(QA7RegistersInner::new(mmio_start_addr)) }
    }

    /// Core timer set-up, taken under the block's lock.
    pub fn init_core_timer(&mut self, core: u8, freq_divider: u64, frequency: u64) -> (r: CoreTimerSetup)
        requires
            old(self).base() <= MAX_DEVICE_BASE,
            !old(self).is_locked(),
            core < 4,
            freq_divider > 0,
        ensures
            r.countdown == frequency / freq_divider,
            r.control == (MmioOp::Write { addr: (old(self).base() + 0x40 + 4 * core) as usize, value: 0xF }),
            final(self).base() == old(self).base(),
            !final(self).is_locked(),
    {
        self.inner.try_lock();
        let setup = self.inner.get_data().init_core_timer(core, freq_divider, frequency);
        self.inner.unlock();
        setup
    }
}

/// Divisor of the counter frequency that the tick handler reloads.
pub const TICK_DIVIDER: u64 = 10000;

/// The decision of the timer interrupt handler: when the core's interrupt
/// source `source` shows the physical timer (bit 1), the countdown to reload
/// before scheduling; otherwise nothing.
pub fn handle_irq(source: u32, frequency: u64) -> (r: Option<u64>)
    ensures
        source & 2 != 0 ==> r == Some(frequency / TICK_DIVIDER),
        source & 2 == 0 ==> r is None,
{
    if source & 2 != 0 {
        Some(frequency / TICK_DIVIDER)
    } else {
        None
    }
}

/// Mailbox status: the write queue is full.
pub const MAILBOX_FULL: u32 = 0x8000_0000;

/// Mailbox status: the read queue is empty.
pub const MAILBOX_EMPTY: u32 = 0x4000_0000;

/// The VideoCore mailbox.
pub struct MailboxInterface {
    pub base: usize,
}

impl MailboxInterface {
    pub fn new(mmio_start_address: usize) -> (r: Self)
        ensures
            r.base == mmio_start_address,
    {
        MailboxInterface { base: mmio_start_address }
    }

    /// The word a call on `channel` writes to the mailbox for the message
    /// buffer at `buffer_addr` (16-byte aligned, so its low bits are free).
    pub fn call(&self, channel: u8, buffer_addr: u32) -> (r: u32)
        ensures
            r == buffer_addr | (channel as u32),
    {
        buffer_addr | (channel as u32)
    }

    /// Whether the status `status` lets a request be written.
    pub fn can_write(&self, status: u32) -> (r: bool)
        ensures
            r == (status != MAILBOX_FULL),
    {
        status != MAILBOX_FULL
    }

    /// Whether the status `status` says a reply can be read.
    pub fn has_reply(&self, status: u32) -> (r: bool)
        ensures
            r == (status != MAILBOX_EMPTY),
    {
        status != MAILBOX_EMPTY
    }
}

/// Bringing up the console: the mini UART's pins, then the device itself.
pub fn init(selector: u32) -> (r: Vec<MmioOp>)
    ensures
        r@ == mini_uart_pins_ops(GPIO_ADDR, selector) + mini_uart_init_ops(AUX_REGS_ADDR),
{
    let gpio = GPIO::new(GPIO_ADDR);
    let uart = MiniUartInner::new(AUX_REGS_ADDR);
    let mut ops = gpio.init_mini_uart_pins(selector);
    let mut more = uart.init();
    ops.append(&mut more);
    ops
}

} // verus!
