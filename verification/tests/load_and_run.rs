use toy_vm::{Reg, Status, VM};

#[test]
fn test_load_and_run() {
    let mut vm = VM::default();

    let program: &[u16] = &[
        0x3000,             // start = 0x3000; // 00110000 00000000
        0b0001001001100011, // add r1/0 and 3 in r1/3
        0b0001010010100100, // add r2/0 and 4 in r2/4
        0b0001000001000010, // add r1/3 and r2/4 in r0/7
        0b0101001001100001, // and r1/3 and 1 in r1/1
        0b0101111000000010, // and r0/7 and r2/4 in r7/4
        0b0010101000000011, // ld offset 3 DATA/718 in r5/718
        0b1111000000100101, // halt
        0,
        0b0000001011001110, // DATA/718
    ];

    let mut res: [u8; 20] = [0; 20];
    for i in 0..program.len() {
        res[i * 2] = (program[i] >> 8) as u8;
        res[i * 2 + 1] = (program[i] & 0x00FF) as u8;
    }

    vm.load(res.as_slice());

    let end = vm.run();
    assert_eq!(end, Ok(Status::Halted));

    assert_eq!(vm.register(Reg::R0), 7);
    assert_eq!(vm.register(Reg::R1), 1);
    assert_eq!(vm.register(Reg::R2), 4);
    assert_eq!(vm.register(Reg::R3), 0);
    assert_eq!(vm.register(Reg::R4), 0);
    // The load at 0x3005 reads 0x3009, the cell after the image, which no
    // word of the image fills; the word 718 is at 0x3008.
    assert_eq!(vm.register(Reg::R5), 0);
    assert_eq!(vm.peek_memory(0x3008), 718);
    assert_eq!(vm.peek_memory(0x3009), 0);
    assert_eq!(vm.register(Reg::R6), 0);
    assert_eq!(vm.register(Reg::R7), 4);
}
