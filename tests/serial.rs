use duvisor::serial::{Serial, SerialEffect, IER, IIR, LCR, LSR, MCR, SCR};

fn read(s: &mut Serial, off: u8) -> u8 {
    let mut d = [0u8; 1];
    s.read(off as u64, &mut d);
    d[0]
}

#[test]
fn reset_state() {
    let mut s = Serial::new();
    assert_eq!(read(&mut s, IIR), 0x01 | 0xc0);
    assert_eq!(read(&mut s, LSR), 0x60);
    assert_eq!(read(&mut s, LCR), 0x03);
    assert_eq!(read(&mut s, MCR), 0x08);
    assert_eq!(read(&mut s, 6), 0xb0);
}

#[test]
fn registers_read_back_masked() {
    let mut s = Serial::new();
    s.write(IER as u64, &[0xff]);
    assert_eq!(read(&mut s, IER), 0x0f);
    s.write(SCR as u64, &[0xa5]);
    assert_eq!(read(&mut s, SCR), 0xa5);
    s.write(MCR as u64, &[0x0b]);
    assert_eq!(read(&mut s, MCR), 0x0b);
    s.write(LCR as u64, &[0x83]);
    assert_eq!(read(&mut s, LCR), 0x83);
    s.write(0, &[0x34]);
    s.write(1, &[0x12]);
    assert_eq!(s.baud_divisor, 0x1234);
    assert_eq!(read(&mut s, 0), 0x34);
    assert_eq!(read(&mut s, 1), 0x12);
}

#[test]
fn only_first_byte_is_used() {
    let mut s = Serial::new();
    s.write(SCR as u64, &[0x11, 0x22, 0x33]);
    assert_eq!(read(&mut s, SCR), 0x11);
}

#[test]
fn output_and_thr_interrupt() {
    let mut s = Serial::new();
    assert_eq!(s.write(0, &[b'A']), SerialEffect { output: Some(b'A'), interrupt: false });
    s.write(IER as u64, &[0x2]);
    assert_eq!(s.write(0, &[b'B']), SerialEffect { output: Some(b'B'), interrupt: true });
    assert_eq!(read(&mut s, IIR), 0x02 | 0xc0);
    assert_eq!(read(&mut s, IIR), 0x01 | 0xc0);
}

#[test]
fn loop_mode_queues_input() {
    let mut s = Serial::new();
    s.write(MCR as u64, &[0x10]);
    s.write(IER as u64, &[0x1]);
    let e = s.write(0, &[0x42]);
    assert_eq!(e, SerialEffect { output: None, interrupt: true });
    assert_eq!(read(&mut s, LSR) & 1, 1);
    assert_eq!(read(&mut s, 0), 0x42);
    assert_eq!(read(&mut s, LSR) & 1, 0);
    assert_eq!(read(&mut s, 0), 0);
    for i in 0..70u8 {
        s.write(0, &[i]);
    }
    assert_eq!(s.in_buffer.len(), 64);
    assert!(!s.queue_input_bytes(b"xy"));
    assert_eq!(s.in_buffer.len(), 64);
}

#[test]
fn console_input_raises_receive_interrupt() {
    let mut s = Serial::new();
    assert!(!s.queue_input_bytes(b"ab"));
    s.write(IER as u64, &[0x1]);
    assert!(s.queue_input_bytes(b"c"));
    assert_eq!(read(&mut s, 0), b'a');
    assert_eq!(read(&mut s, LSR) & 1, 1);
    assert_eq!(read(&mut s, 0), b'b');
    assert_eq!(read(&mut s, LSR) & 1, 1);
    assert_eq!(read(&mut s, 0), b'c');
    assert_eq!(read(&mut s, LSR) & 1, 0);
}
