use my_iridium::assembler::Assembler;
use my_iridium::vm::{VMEventType, VM};
use my_iridium::{PIE_HEADER_LENGTH, PIE_HEADER_PREFIX};

fn get_test_vm() -> VM {
    let mut vm = VM::new();
    vm.registers[0] = 5;
    vm.registers[1] = 10;
    vm
}

fn prepend_header(mut b: Vec<u8>) -> Vec<u8> {
    let mut prepension = vec![];
    for byte in PIE_HEADER_PREFIX.iter() {
        prepension.push(*byte);
    }
    while prepension.len() < PIE_HEADER_LENGTH {
        prepension.push(0);
    }
    prepension.append(&mut b);
    prepension
}

#[test]
fn test_create_vm() {
    let test_vm = VM::new();
    assert_eq!(test_vm.registers[0], 0)
}

#[test]
fn test_opcode_hlt() {
    let mut test_vm = VM::new();
    let test_bytes = vec![5, 0, 0, 0];
    test_vm.program = test_bytes;
    test_vm.run_once();
    assert_eq!(test_vm.pc, 1);
}

#[test]
fn test_opcode_igl() {
    let mut test_vm = VM::new();
    let test_bytes = vec![254, 0, 0, 0];
    test_vm.program = test_bytes;
    test_vm.run_once();
    assert_eq!(test_vm.pc, 1);
}

#[test]
fn test_load_opcode() {
    let mut test_vm = get_test_vm();
    test_vm.program = vec![0, 0, 1, 244];
    test_vm.program = prepend_header(test_vm.program);
    test_vm.run();
    assert_eq!(test_vm.registers[0], 500);
}

#[test]
fn test_add_opcode() {
    let mut test_vm = get_test_vm();
    test_vm.program = vec![1, 0, 1, 2];
    test_vm.program = prepend_header(test_vm.program);
    test_vm.run();
    assert_eq!(test_vm.registers[2], 15);
}

#[test]
fn test_sub_opcode() {
    let mut test_vm = get_test_vm();
    test_vm.program = vec![2, 1, 0, 2];
    test_vm.program = prepend_header(test_vm.program);
    test_vm.run();
    assert_eq!(test_vm.registers[2], 5);
}

#[test]
fn test_mul_opcode() {
    let mut test_vm = get_test_vm();
    test_vm.program = vec![3, 0, 1, 2];
    test_vm.program = prepend_header(test_vm.program);
    test_vm.run();
    assert_eq!(test_vm.registers[2], 50);
}

#[test]
fn test_div_opcode() {
    let mut test_vm = get_test_vm();
    test_vm.program = vec![4, 1, 0, 2];
    test_vm.program = prepend_header(test_vm.program);
    test_vm.run();
    assert_eq!(test_vm.registers[2], 2);
    assert_eq!(test_vm.remainder, 0);
}

#[test]
fn test_div_remainder() {
    let mut test_vm = get_test_vm();
    test_vm.registers[0] = 3;
    test_vm.program = vec![4, 1, 0, 2];
    test_vm.program = prepend_header(test_vm.program);
    test_vm.run();
    assert_eq!(test_vm.registers[2], 3);
    assert_eq!(test_vm.remainder, 1);
}

#[test]
fn test_jmp_opcode() {
    let mut test_vm = get_test_vm();
    test_vm.registers[0] = 4;
    test_vm.program = vec![6, 0, 0, 0];
    test_vm.run_once();
    assert_eq!(test_vm.pc, 4);
}

#[test]
fn test_jmpf_opcode() {
    let mut test_vm = get_test_vm();
    test_vm.registers[0] = 2;
    test_vm.program = vec![7, 0, 0, 0, 5, 0, 0, 0];
    test_vm.run_once();
    assert_eq!(test_vm.pc, 4);
}

#[test]
fn test_jmpb_opcode() {
    let mut test_vm = get_test_vm();
    test_vm.registers[1] = 6;
    test_vm.program = vec![0, 0, 0, 10, 8, 1, 0, 0];
    test_vm.run_once();
    test_vm.run_once();
    assert_eq!(test_vm.pc, 0);
}

#[test]
fn test_eq_opcode() {
    let mut test_vm = get_test_vm();
    test_vm.registers[0] = 10;
    test_vm.registers[1] = 10;
    test_vm.program = vec![9, 0, 1, 0, 9, 0, 1, 0];
    test_vm.run_once();
    assert_eq!(test_vm.equal_flag, true);
    test_vm.registers[1] = 20;
    test_vm.run_once();
    assert_eq!(test_vm.equal_flag, false);
}

#[test]
fn test_neq_opcode() {
    let mut test_vm = get_test_vm();
    test_vm.registers[0] = 10;
    test_vm.registers[1] = 20;
    test_vm.program = vec![10, 0, 1, 0, 10, 0, 1, 0];
    test_vm.run_once();
    assert_eq!(test_vm.equal_flag, true);
    test_vm.registers[1] = 10;
    test_vm.run_once();
    assert_eq!(test_vm.equal_flag, false);
}

#[test]
fn test_gt_opcode() {
    let mut test_vm = get_test_vm();
    test_vm.registers[0] = 20;
    test_vm.registers[1] = 10;
    test_vm.program = vec![11, 0, 1, 0, 11, 0, 1, 0, 11, 0, 1, 0];
    test_vm.run_once();
    assert_eq!(test_vm.equal_flag, true);
    test_vm.registers[0] = 10;
    test_vm.run_once();
    assert_eq!(test_vm.equal_flag, false);
    test_vm.registers[0] = 5;
    test_vm.run_once();
    assert_eq!(test_vm.equal_flag, false);
}

#[test]
fn test_lt_opcode() {
    let mut vm = get_test_vm();
    vm.registers[0] = 20;
    vm.registers[1] = 10;
    vm.program = vec![12, 0, 1, 0, 12, 0, 1, 0, 12, 0, 1, 0];
    vm.run_once();
    assert_eq!(vm.equal_flag, false);
    vm.registers[0] = 10;
    vm.run_once();
    assert_eq!(vm.equal_flag, false);
    vm.registers[0] = 5;
    vm.run_once();
    assert_eq!(vm.equal_flag, true);
}

#[test]
fn test_gte_opcode() {
    let mut test_vm = get_test_vm();
    test_vm.registers[0] = 20;
    test_vm.registers[1] = 10;
    test_vm.program = vec![13, 0, 1, 0, 13, 0, 1, 0, 13, 0, 1, 0];
    test_vm.run_once();
    assert_eq!(test_vm.equal_flag, true);
    test_vm.registers[0] = 10;
    test_vm.run_once();
    assert_eq!(test_vm.equal_flag, true);
    test_vm.registers[0] = 5;
    test_vm.run_once();
    assert_eq!(test_vm.equal_flag, false);
}

#[test]
fn test_lte_opcode() {
    let mut test_vm = get_test_vm();
    test_vm.registers[0] = 20;
    test_vm.registers[1] = 10;
    test_vm.program = vec![14, 0, 1, 0, 14, 0, 1, 0, 14, 0, 1, 0];
    test_vm.run_once();
    assert_eq!(test_vm.equal_flag, false);
    test_vm.registers[0] = 10;
    test_vm.run_once();
    assert_eq!(test_vm.equal_flag, true);
    test_vm.registers[0] = 5;
    test_vm.run_once();
    assert_eq!(test_vm.equal_flag, true);
}

#[test]
fn test_jmpe_opcode() {
    let mut test_vm = get_test_vm();
    test_vm.registers[0] = 7;
    test_vm.equal_flag = true;
    test_vm.program = vec![15, 0, 0, 0, 15, 0, 0, 0, 15, 0, 0, 0];
    test_vm.run_once();
    assert_eq!(test_vm.pc, 7);
}

#[test]
fn test_aloc_opcode() {
    let mut test_vm = get_test_vm();
    test_vm.registers[0] = 1024;
    test_vm.program = vec![17, 0, 0, 0];
    test_vm.run_once();
    assert_eq!(test_vm.heap.len(), 1024);
}

#[test]
fn test_prts_opcode() {
    let mut test_vm = get_test_vm();
    test_vm.ro_data.append(&mut vec![72, 101, 108, 108, 111, 0]);
    test_vm.program = vec![21, 0, 0, 0];
    test_vm.run_once();
    assert_eq!(test_vm.pc, 4);
}

#[test]
fn test_magic_mismatch_crashes() {
    let mut vm = VM::new();
    vm.program = vec![0, 0, 0, 0, 0, 0, 0, 0];
    let events = vm.run();
    assert_eq!(events.len(), 2);
    assert_eq!(events[0].event, VMEventType::Start);
    assert_eq!(events[1].event, VMEventType::Crash { code: 1 });
}

#[test]
fn test_add_scenario_end_to_end() {
    let source = ".data\n.code\nload $0 #5\nload $1 #10\nadd $0 $1 $2\nhlt\n";
    let mut assembler = Assembler::new();
    let image = assembler.assemble(source).unwrap();
    let mut vm = VM::new();
    vm.add_bytes(image);
    let events = vm.run();
    assert_eq!(vm.registers[2], 15);
    assert_eq!(events.last().unwrap().event, VMEventType::GracefulStop { code: 0 });
}

#[test]
fn test_string_emission_scenario() {
    let source = ".data\ngreet: .asciiz 'Hello'\n.code\nprts @greet\nhlt\n";
    let mut assembler = Assembler::new();
    let image = assembler.assemble(source).unwrap();
    assert_eq!(image[4], 6);
    let mut vm = VM::new();
    vm.add_bytes(image);
    let events = vm.run();
    assert_eq!(&vm.ro_data, &[72, 101, 108, 108, 111, 0]);
    assert_eq!(events.last().unwrap().event, VMEventType::GracefulStop { code: 0 });
}

#[test]
fn test_no_hlt_stops_with_code_one() {
    let source = ".data\n.code\nload $0 #5\nload $1 #10\n";
    let mut assembler = Assembler::new();
    let image = assembler.assemble(source).unwrap();
    let mut vm = VM::new();
    vm.add_bytes(image);
    let events = vm.run();
    assert_eq!(events.last().unwrap().event, VMEventType::GracefulStop { code: 1 });
}

#[test]
fn test_manual_image_matches_assembler_output() {
    let source = ".data\ngreet: .asciiz 'Hi'\n.code\nload $0 #5\nhlt\n";
    let mut assembler = Assembler::new();
    let image = assembler.assemble(source).unwrap();

    let mut manual: Vec<u8> = vec![0x45, 0x50, 0x49, 0x45];
    manual.extend_from_slice(&[3, 0, 0, 0]);
    while manual.len() < 64 {
        manual.push(0);
    }
    manual.extend_from_slice(&[b'H', b'i', 0]);
    manual.extend_from_slice(&[0, 0, 0, 5]);
    manual.extend_from_slice(&[5, 0, 0, 0]);
    assert_eq!(image, manual);

    let mut vm1 = VM::new();
    vm1.add_bytes(image);
    let ev1 = vm1.run();
    let mut vm2 = VM::new();
    vm2.add_bytes(manual.clone());
    let ev2 = vm2.run();
    assert_eq!(vm1.registers, vm2.registers);
    assert_eq!(vm1.heap, vm2.heap);
    assert_eq!(vm1.pc, vm2.pc);
    let k1: Vec<VMEventType> = ev1.iter().map(|e| e.event).collect();
    let k2: Vec<VMEventType> = ev2.iter().map(|e| e.event).collect();
    assert_eq!(k1, k2);
}

#[test]
fn test_run_once_advances_at_most_four() {
    let mut vm = VM::new();
    vm.program = vec![16, 9, 9, 9, 16, 9, 9, 9];
    vm.run_once();
    assert_eq!(vm.pc, 4);
    vm.run_once();
    assert_eq!(vm.pc, 8);
}

#[test]
fn test_ro_offset_honoured_on_startup() {
    let mut vm = VM::new();
    let mut image: Vec<u8> = vec![0x45, 0x50, 0x49, 0x45];
    image.extend_from_slice(&[2, 0, 0, 0]);
    while image.len() < 64 {
        image.push(0);
    }
    image.extend_from_slice(&[b'A', 0]);
    image.extend_from_slice(&[5, 0, 0, 0]);
    vm.add_bytes(image);
    let events = vm.run();
    assert_eq!(vm.pc, 67);
    assert_eq!(&vm.ro_data, &[b'A', 0]);
    assert_eq!(events.last().unwrap().event, VMEventType::GracefulStop { code: 0 });
}

#[test]
fn test_logical_cores_at_least_one() {
    let vm = VM::new();
    assert!(vm.logical_cores >= 1);
}

#[test]
fn test_countdown_image_makes_progress() {
    let source = r"
        .data
        .code
        load $0 #100
        load $1 #1
        load $2 #0
        test: inc $0
        neq $0 $2
        jmpe @test
        hlt
        ";
    let mut assembler = Assembler::new();
    let image = assembler.assemble(source).unwrap();
    assert_eq!(image.len(), 92);
    let mut vm = VM::new();
    vm.add_bytes(image);
    vm.pc = 64;
    let before = vm.pc;
    vm.run_once();
    assert!(vm.pc > before);
    assert_eq!(vm.registers[0], 100);
}

#[test]
fn test_inc_dec_opcodes() {
    let mut vm = VM::new();
    vm.registers[3] = 7;
    vm.program = vec![18, 3, 0, 0, 19, 3, 0, 0, 19, 3, 0, 0];
    vm.run_once();
    assert_eq!(vm.registers[3], 8);
    vm.run_once();
    vm.run_once();
    assert_eq!(vm.registers[3], 6);
    assert_eq!(vm.pc, 12);
}

#[test]
fn test_djmpe_opcode() {
    let mut vm = VM::new();
    vm.equal_flag = true;
    vm.program = vec![20, 0, 28, 0];
    vm.run_once();
    assert_eq!(vm.pc, 28);
    let mut vm2 = VM::new();
    vm2.equal_flag = false;
    vm2.program = vec![20, 0, 28, 0, 16, 0, 0, 0];
    vm2.run_once();
    assert_eq!(vm2.pc, 4);
}

#[test]
fn test_add_wraps_on_overflow() {
    let mut vm = VM::new();
    vm.registers[0] = i32::MAX;
    vm.registers[1] = 1;
    vm.program = vec![1, 0, 1, 2];
    vm.run_once();
    assert_eq!(vm.registers[2], i32::MIN);
}
