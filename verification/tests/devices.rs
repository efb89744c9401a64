use y_cpu::{CounterDevice, Device, DeviceError, EchoDevice, Fault, CPU};

fn echo_at(addr: u8) -> Box<dyn Device> {
    Box::new(EchoDevice { addr, last: 0 })
}

// Device round-trip: an echo device declared at address 200 receives a
// pushed byte and answers the next load with exactly that byte.
#[test]
fn echo_device_round_trip() {
    let mut cpu = CPU::new([0u8; 127], vec![echo_at(200)]).unwrap();
    cpu.push(200, 0x7).unwrap();
    assert_eq!(cpu.load(200).unwrap(), 0x7);
}

// The device region spans 194..=255; the first and last slots both work.
#[test]
fn device_region_bounds() {
    let mut cpu = CPU::new([0u8; 127], vec![echo_at(194), echo_at(255)]).unwrap();
    cpu.push(194, 1).unwrap();
    cpu.push(255, 2).unwrap();
    assert_eq!(cpu.load(194).unwrap(), 1);
    assert_eq!(cpu.load(255).unwrap(), 2);
}

// Addressing an empty device slot is a catchable address fault, and the
// machine is left untouched.
#[test]
fn empty_device_slot_faults() {
    let mut cpu = CPU::new([0u8; 127], vec![echo_at(200)]).unwrap();
    assert_eq!(cpu.load(201), Err(Fault::AddressFault(201)));
    assert_eq!(cpu.push(201, 9), Err(Fault::AddressFault(201)));
    assert_eq!(cpu.reg_zero, 0);
}

// A device address below 194 is rejected at construction.
#[test]
fn device_address_out_of_range_rejected() {
    let r = CPU::new([0u8; 127], vec![echo_at(100)]);
    assert!(matches!(r, Err(DeviceError::AddressOutOfRange(100))));
}

// Two devices declaring the same address are rejected at construction.
#[test]
fn duplicate_device_address_rejected() {
    let r = CPU::new([0u8; 127], vec![echo_at(200), echo_at(200)]);
    assert!(matches!(r, Err(DeviceError::DuplicateAddress(200))));
}

// An instruction can read a device operand: And over a device byte and an
// instruction-memory byte.
#[test]
fn instruction_reads_device_operand() {
    let mut image = [0u8; 127];
    image[0] = 0x01; // And
    image[1] = 4;
    image[2] = 200;
    image[4] = 0xFF;
    let mut cpu = CPU::new(image, vec![echo_at(200)]).unwrap();
    cpu.push(200, 0x3C).unwrap();
    cpu.tick().unwrap();
    assert_eq!(cpu.load(4).unwrap(), 0x3C);
}

// A Copy whose destination is a device pushes the byte into the device.
#[test]
fn instruction_writes_device_destination() {
    let mut image = [0u8; 127];
    image[0] = 0x0C; // Copy
    image[1] = 4;
    image[2] = 200;
    image[4] = 0x5E;
    let mut cpu = CPU::new(image, vec![echo_at(200)]).unwrap();
    cpu.tick().unwrap();
    assert_eq!(cpu.load(200).unwrap(), 0x5E);
}

// An instruction touching an empty device slot faults the tick and leaves
// the machine unchanged.
#[test]
fn instruction_on_empty_slot_faults_tick() {
    let mut image = [0u8; 127];
    image[0] = 0x01; // And
    image[1] = 4;
    image[2] = 210;
    image[4] = 0xFF;
    let mut cpu = CPU::new(image, Vec::new()).unwrap();
    assert_eq!(cpu.tick(), Err(Fault::AddressFault(210)));
    assert_eq!(cpu.reg_zero, 0);
    assert_eq!(cpu.load(4).unwrap(), 0xFF);
}

// A stateful counter device makes the operand-load order observable: the
// engine loads the first operand, then the second, then writes the result
// back to the first operand's address. Sub(200, 200) over a counter starting
// at 1 must therefore compute 1 - 2 and store 0xFF into the device.
#[test]
fn operand_loads_happen_in_order() {
    let mut image = [0u8; 127];
    image[0] = 0x05; // Sub
    image[1] = 200;
    image[2] = 200;
    let mut cpu =
        CPU::new(image, vec![Box::new(CounterDevice { addr: 200, count: 1 })]).unwrap();
    cpu.tick().unwrap();
    // The write-back set the count to 0xFF; the next load returns it.
    assert_eq!(cpu.load(200).unwrap(), 0xFF);
}
