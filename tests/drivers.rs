use rpi_kernel::drivers::{
    handle_irq, init, system_timer, MailboxInterface, MiniUart, MiniUartInner, MmioOp, QA7Registers, QA7RegistersInner,
    SystemTimer, AUX_REGS_ADDR, GPIO, GPIO_ADDR, QA7_REGS_ADDR, SYS_TIMER_ADDR,
};

fn w(addr: usize, value: u32) -> MmioOp {
    MmioOp::Write { addr, value }
}

#[test]
fn gpio_function_select() {
    let g = GPIO::new(GPIO_ADDR);
    assert_eq!(g.set_func(0, 14, 2), 0x2000);
    assert_eq!(g.set_func(0x2000, 15, 2), 0x1_2000);
    assert_eq!(g.set_func(0xFFFF_FFFF, 14, 2), 0xFFFF_AFFF);
    assert_eq!(g.set_func(0, 24, 1), 1 << 12);
}

#[test]
fn gpio_enable_pin_sequence() {
    let g = GPIO::new(GPIO_ADDR);
    assert_eq!(
        g.enable_pin(14),
        vec![
            w(0x3F20_0094, 0),
            MmioOp::Spin { cycles: 2000 },
            w(0x3F20_0098, 0x4000),
            MmioOp::Spin { cycles: 2000 },
            w(0x3F20_0094, 0),
            w(0x3F20_0098, 0),
        ]
    );
    assert_eq!(g.enable_pin(33)[2], w(0x3F20_0098, 2));
}

#[test]
fn mini_uart_pins_then_device() {
    let g = GPIO::new(GPIO_ADDR);
    let ops = g.init_mini_uart_pins(0);
    assert_eq!(ops.len(), 14);
    assert_eq!(ops[0], w(0x3F20_0004, 0x2000));
    assert_eq!(ops[1], w(0x3F20_0004, 0x1_2000));
    let all = init(0);
    assert_eq!(all.len(), 21);
    assert_eq!(all[14], w(AUX_REGS_ADDR + 0x04, 1));
}

#[test]
fn mini_uart_init_values() {
    let u = MiniUartInner::new(AUX_REGS_ADDR);
    let b = AUX_REGS_ADDR;
    let expected = vec![w(b + 0x04, 1), w(b + 0x60, 0), w(b + 0x44, 0), w(b + 0x4C, 3), w(b + 0x50, 0), w(b + 0x68, 270), w(b + 0x60, 7)];
    assert_eq!(u.init(), expected);
    let mut shared = MiniUart::new(AUX_REGS_ADDR);
    assert_eq!(shared.init(), expected);
}

#[test]
fn mini_uart_characters() {
    let u = MiniUartInner::new(AUX_REGS_ADDR);
    assert_eq!(u.putc('\r'), vec![10, 13]);
    assert_eq!(u.putc('a'), vec![97]);
    assert!(u.transmitter_empty(0x20));
    assert!(!u.transmitter_empty(0x1F));
    assert!(u.data_ready(0x61));
    assert!(!u.data_ready(0x20));
    assert_eq!(u.read_char(0x141), 'A');
    assert_eq!(u.read_char(0x7A), 'z');
}

#[test]
fn core_timer_setup() {
    let q = QA7RegistersInner::new(QA7_REGS_ADDR);
    let s = q.init_core_timer(2, 100, 19_200_000);
    assert_eq!(s.countdown, 192_000);
    assert_eq!(s.control, w(0x4000_0048, 0xF));
    assert_eq!(q.irq_source_addr(1), 0x4000_0064);
    let mut shared = QA7Registers::new(QA7_REGS_ADDR);
    assert_eq!(shared.init_core_timer(0, 100, 19_200_000).control, w(0x4000_0040, 0xF));
}

#[test]
fn timer_interrupt_decision() {
    assert_eq!(handle_irq(0b10, 19_200_000), Some(1920));
    assert_eq!(handle_irq(0b1010, 19_200_000), Some(1920));
    assert_eq!(handle_irq(0b01, 19_200_000), None);
}

#[test]
fn system_timer_ticks_and_waits() {
    let t = system_timer();
    assert_eq!(t.base, SYS_TIMER_ADDR);
    assert_eq!(t.get_ticks(5, 1), 0x1_0000_0005);
    assert!(t.wait_for_ms(1000, 2000, 1));
    assert!(!t.wait_for_ms(1000, 1999, 1));
    assert!(!SystemTimer::new(0).wait_for_ms(u64::MAX, u64::MAX, 1));
}

#[test]
fn mailbox_words() {
    let m = MailboxInterface::new(0x3F00_B880);
    assert_eq!(m.call(8, 0x1000), 0x1008);
    assert!(!m.can_write(0x8000_0000));
    assert!(m.can_write(0));
    assert!(!m.has_reply(0x4000_0000));
    assert!(m.has_reply(0));
}

#[test]
fn core_and_exception_level_decoding() {
    assert_eq!(rpi_kernel::cpu::get_core(0x8000_0002), 2);
    assert_eq!(rpi_kernel::cpu::get_core(7), 3);
    assert_eq!(rpi_kernel::cpu::get_el(0b0100), 1);
    assert_eq!(rpi_kernel::cpu::get_el(0b1000), 2);
    assert_eq!(rpi_kernel::cpu::get_el(0b1_1100), 3);
}
