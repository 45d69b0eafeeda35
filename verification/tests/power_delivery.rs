use ass_code::bus::I2cOp;
use ass_code::fusb302::{find_pdo, Fusb, ScanPhase, ScanStep, PDO};

#[test]
fn pdo_decodes_fixed_supply() {
    // 9 V (180 * 50 mV), 3 A (300 * 10 mA)
    let word: u32 = (180 << 10) | 300;
    let b = word.to_le_bytes();
    let p = PDO::from(&b, 2);
    assert_eq!((p.id, p.voltage, p.current), (2, 9000, 3000));
    let p = PDO::from(&[0xFF, 0xFF, 0xFF, 0xFF], 0);
    assert_eq!((p.voltage, p.current), (1023 * 50, 1023 * 10));
}

#[test]
fn request_pdo_message() {
    let f = Fusb::new(0x22);
    let pdo = PDO { id: 1, voltage: 9000, current: 3000 };
    let op = f.request_pdo(pdo, 3000, 3000);
    let expected = vec![
        0x43, 0x12, 0x12, 0x12, 0x13, 0x86, 0x82, 0x10, 0x2C, 0xB1, 0x04, 0x21, 0xff, 0x14, 0xfe,
        0xa1,
    ];
    assert_eq!(op, I2cOp::Write { address: 0x22, bytes: expected });
}

#[test]
fn request_pdo_fields_read_back() {
    let f = Fusb::new(0x22);
    let op = f.request_pdo(PDO { id: 3, voltage: 0, current: 0 }, 1230, 4560);
    if let I2cOp::Write { bytes, .. } = op {
        let rdo = u32::from_le_bytes([bytes[8], bytes[9], bytes[10], bytes[11]]);
        assert_eq!(rdo & 0x3ff, 456);
        assert_eq!((rdo >> 10) & 0x3ff, 123);
        assert_eq!((rdo >> 28) & 7, 4);
        assert_eq!((rdo >> 24) & 1, 1);
    } else {
        panic!("not a write");
    }
}

fn write(bytes: &[u8]) -> I2cOp {
    I2cOp::Write { address: 0x22, bytes: bytes.to_vec() }
}

fn read(reg: u8, n: usize) -> I2cOp {
    I2cOp::WriteRead { address: 0x22, bytes: vec![reg], read_len: n }
}

/// Runs a scan against scripted replies, checking each transaction.
fn run(script: &[(I2cOp, Vec<u8>)]) -> Vec<PDO> {
    let f = Fusb::new(0x22);
    let mut scan = f.scan_pds();
    let mut reply: Vec<u8> = Vec::new();
    let mut i = 0;
    loop {
        match scan.next(&reply) {
            ScanStep::Op(op) => {
                assert_eq!(op, script[i].0, "step {}", i);
                reply = script[i].1.clone();
                i += 1;
            }
            ScanStep::Finished(v) => {
                assert_eq!(i, script.len());
                assert_eq!(scan.phase, ScanPhase::Done);
                return v;
            }
        }
    }
}

fn prefix() -> Vec<(I2cOp, Vec<u8>)> {
    vec![
        (write(&[0x0C, 0x03]), vec![]),
        (write(&[0x0B, 0x0F]), vec![]),
        (write(&[0x06, 0x04]), vec![]),
        (write(&[0x09, 0x07]), vec![]),
        (write(&[0x02, 0x07]), vec![]),
        (I2cOp::DelayMs(1), vec![]),
    ]
}

#[test]
fn scan_without_pd_source() {
    let mut s = prefix();
    s.push((read(0x40, 1), vec![0x81]));
    s.push((write(&[0x02, 0x0B]), vec![]));
    s.push((I2cOp::DelayMs(1), vec![]));
    s.push((read(0x40, 1), vec![0x01]));
    assert!(run(&s).is_empty());
}

#[test]
fn scan_reads_two_objects_on_cc2() {
    let mut s = prefix();
    s.push((read(0x40, 1), vec![0x00]));
    s.push((write(&[0x02, 0x0B]), vec![]));
    s.push((I2cOp::DelayMs(1), vec![]));
    s.push((read(0x40, 1), vec![0x02]));
    s.push((read(0x03, 1), vec![0xFF]));
    s.push((write(&[0x03, 0xFA]), vec![]));
    s.push((write(&[0x06, 0x44]), vec![]));
    s.push((write(&[0x07, 0x04]), vec![]));
    s.push((write(&[0x0C, 0x02]), vec![]));
    s.push((read(0x41, 1), vec![0x20]));
    s.push((read(0x40, 1), vec![0]));
    s.push((read(0x3E, 1), vec![0]));
    s.push((read(0x3F, 1), vec![0]));
    s.push((I2cOp::DelayMs(1), vec![]));
    s.push((read(0x41, 1), vec![0x00]));
    s.push((read(0x43, 3), vec![0xE0, 0x61, 0x21]));
    let w5v: u32 = (100 << 10) | 300;
    let w9v: u32 = (180 << 10) | 200;
    s.push((read(0x43, 4), w5v.to_le_bytes().to_vec()));
    s.push((read(0x43, 4), w9v.to_le_bytes().to_vec()));
    s.push((read(0x43, 4), vec![1, 2, 3, 4]));
    s.push((write(&[0x07, 0x04]), vec![]));
    let v = run(&s);
    assert_eq!(v.len(), 2);
    assert_eq!((v[0].id, v[0].voltage, v[0].current), (0, 5000, 3000));
    assert_eq!((v[1].id, v[1].voltage, v[1].current), (1, 9000, 2000));
}

#[test]
fn scan_selects_cc1() {
    let mut s = prefix();
    s.push((read(0x40, 1), vec![0x03]));
    s.push((write(&[0x02, 0x0B]), vec![]));
    s.push((I2cOp::DelayMs(1), vec![]));
    s.push((read(0x40, 1), vec![0x00]));
    s.push((read(0x03, 1), vec![0x24]));
    s.push((write(&[0x02, 0x07]), vec![]));
    s.push((write(&[0x03, 0x21]), vec![]));
    s.push((write(&[0x06, 0x44]), vec![]));
    s.push((write(&[0x07, 0x04]), vec![]));
    s.push((write(&[0x0C, 0x02]), vec![]));
    s.push((read(0x41, 1), vec![0x00]));
    s.push((read(0x43, 3), vec![0, 0, 0x00]));
    s.push((read(0x43, 4), vec![0, 0, 0, 0]));
    s.push((write(&[0x07, 0x04]), vec![]));
    assert!(run(&s).is_empty());
}

#[test]
fn scan_gives_up_after_timeout() {
    let mut s = prefix();
    s.push((read(0x40, 1), vec![0x01]));
    s.push((write(&[0x02, 0x0B]), vec![]));
    s.push((I2cOp::DelayMs(1), vec![]));
    s.push((read(0x40, 1), vec![0x00]));
    s.push((read(0x03, 1), vec![0x00]));
    s.push((write(&[0x02, 0x07]), vec![]));
    s.push((write(&[0x03, 0x01]), vec![]));
    s.push((write(&[0x06, 0x44]), vec![]));
    s.push((write(&[0x07, 0x04]), vec![]));
    s.push((write(&[0x0C, 0x02]), vec![]));
    s.push((read(0x41, 1), vec![0x20]));
    for k in 0..52 {
        s.push((read(0x40, 1), vec![0]));
        s.push((read(0x3E, 1), vec![0]));
        s.push((read(0x3F, 1), vec![0]));
        s.push((I2cOp::DelayMs(1), vec![]));
        if k < 51 {
            s.push((read(0x41, 1), vec![0x20]));
        }
    }
    assert!(run(&s).is_empty());
}

#[test]
fn find_first_pdo_with_voltage() {
    let pdos = vec![
        PDO { id: 0, voltage: 5000, current: 3000 },
        PDO { id: 1, voltage: 9000, current: 2000 },
        PDO { id: 2, voltage: 9000, current: 3000 },
    ];
    assert_eq!(find_pdo(&pdos, 9000).map(|p| p.id), Some(1));
    assert!(find_pdo(&pdos, 12000).is_none());
    assert!(find_pdo(&Vec::new(), 5000).is_none());
}
