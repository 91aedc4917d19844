use riscland::registers::XREGS;

#[test]
fn xregs_debug() {
    let mut xregs = XREGS::new();
    for i in 0..32 {
        xregs.regs[i] = (i * 11) as u32;
    }
    println!("{xregs:#?}")
}

#[test]
fn register_zero_reads_zero_whatever_its_slot_holds() {
    let mut xregs = XREGS::new();
    xregs.regs[0] = 77;
    xregs.regs[31] = 4;
    assert_eq!(xregs.read(0), 0);
    assert_eq!(xregs.read(31), 4);
}
