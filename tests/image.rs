use epiphyte::config::Identifier;
use epiphyte::dispatch::{Action, Command, Dispatcher, Event};
use epiphyte::payload::analyze_payload;
use epiphyte::requests::MultiPayload;
use epiphyte::signature::RemoteProcSignature;

fn u16le(b: &mut Vec<u8>, v: u16) {
    b.extend_from_slice(&v.to_le_bytes());
}
fn u32le(b: &mut Vec<u8>, v: u32) {
    b.extend_from_slice(&v.to_le_bytes());
}
fn u64le(b: &mut Vec<u8>, v: u64) {
    b.extend_from_slice(&v.to_le_bytes());
}

fn section(b: &mut Vec<u8>, name: u32, kind: u32, flags: u64, addr: u64, off: u64, size: u64, link: u32, info: u32, align: u64, entsize: u64) {
    u32le(b, name);
    u32le(b, kind);
    u64le(b, flags);
    u64le(b, addr);
    u64le(b, off);
    u64le(b, size);
    u32le(b, link);
    u32le(b, info);
    u64le(b, align);
    u64le(b, entsize);
}

fn symbol(b: &mut Vec<u8>, name: u32, info: u8, shndx: u16, value: u64) {
    u32le(b, name);
    b.push(info);
    b.push(0);
    u16le(b, shndx);
    u64le(b, value);
    u64le(b, 0);
}

/// A 64-bit little-endian shared object whose dynamic symbols export
/// `greet` at 0x401000 and `offset` at 0x402000.
fn shared_object() -> Vec<u8> {
    let dynstr = b"\0greet\0offset\0";
    let shstrtab = b"\0.dynstr\0.dynsym\0.shstrtab\0.text\0";
    let dynstr_off = 64u64;
    let shstr_off = dynstr_off + dynstr.len() as u64;
    let dynsym_off = (shstr_off + shstrtab.len() as u64 + 7) / 8 * 8;
    let dynsym_size = 3 * 24u64;
    let sh_off = dynsym_off + dynsym_size;

    let mut b = Vec::new();
    b.extend_from_slice(&[0x7f, b'E', b'L', b'F', 2, 1, 1, 0, 0, 0, 0, 0, 0, 0, 0, 0]);
    u16le(&mut b, 3);
    u16le(&mut b, 62);
    u32le(&mut b, 1);
    u64le(&mut b, 0);
    u64le(&mut b, 0);
    u64le(&mut b, sh_off);
    u32le(&mut b, 0);
    u16le(&mut b, 64);
    u16le(&mut b, 56);
    u16le(&mut b, 0);
    u16le(&mut b, 64);
    u16le(&mut b, 5);
    u16le(&mut b, 3);
    b.extend_from_slice(dynstr);
    b.extend_from_slice(shstrtab);
    b.resize(dynsym_off as usize, 0);
    symbol(&mut b, 0, 0, 0, 0);
    symbol(&mut b, 1, 0x12, 4, 0x401000);
    symbol(&mut b, 7, 0x12, 4, 0x402000);
    section(&mut b, 0, 0, 0, 0, 0, 0, 0, 0, 0, 0);
    section(&mut b, 1, 3, 0, 0, dynstr_off, dynstr.len() as u64, 0, 0, 1, 0);
    section(&mut b, 9, 11, 2, 0, dynsym_off, dynsym_size, 1, 1, 8, 24);
    section(&mut b, 17, 3, 0, 0, shstr_off, shstrtab.len() as u64, 0, 0, 1, 0);
    section(&mut b, 27, 1, 6, 0x401000, 0, 0, 0, 0, 16, 0);
    b
}

#[test]
fn exports_of_module_image_are_matched() {
    let ids = vec![
        Identifier { name: "greet".to_string(), symbol: "greet".to_string(), signature: RemoteProcSignature::Text },
        Identifier { name: "gone".to_string(), symbol: "gone".to_string(), signature: RemoteProcSignature::Signal },
    ];
    let table = analyze_payload(&shared_object(), &ids).unwrap();
    assert_eq!(table.len(), 3);
    let greet = table.get(&"greet".to_string()).unwrap();
    assert!(greet.is_valid());
    assert_eq!(greet.address, Some(0x401000));
    let offset = table.get(&"offset".to_string()).unwrap();
    assert!(!offset.is_valid());
    assert_eq!(offset.address, Some(0x402000));
    let gone = table.get(&"gone".to_string()).unwrap();
    assert_eq!(gone.address, None);
    assert!(!gone.is_valid());
}

#[test]
fn greet_scenario_from_module_image() {
    let ids = vec![Identifier {
        name: "greet".to_string(),
        symbol: "greet".to_string(),
        signature: RemoteProcSignature::Text,
    }];
    let table = analyze_payload(&shared_object(), &ids).unwrap();
    let mut d = Dispatcher::new(table.routes());
    let body = br#"{"message":"World"}"#.to_vec();
    let cmd = Command::from_request("greet".to_string(), MultiPayload::from_body(&body).unwrap());
    match d.step(Event::Received(cmd)) {
        Action::Invoke(inv) => {
            assert_eq!(inv.address, 0x401000);
            assert_eq!(inv.signature, RemoteProcSignature::Text);
            assert_eq!(inv.argument.as_deref(), Some("World"));
        }
        other => panic!("expected a call, got {:?}", other),
    }
}
