//! The object table, array maps, program loading and tracepoint
//! attachment, driven on concrete values.

use kprobes::code_mem::CodeMemory;
use kprobes::errors::SysError;
use kprobes::helpers::{bpf_ktime_get_ns, bpf_map_delete_elem, bpf_nop, bpf_trace_printk, convert_result};
use kprobes::map::{
    bpf_map_close, bpf_map_create, bpf_map_get_attr, bpf_map_lookup_helper, bpf_map_ops, MapAttr,
    BPF_MAP_DELETE_ELEM, BPF_MAP_GET_NEXT_KEY, BPF_MAP_LOOKUP_ELEM, BPF_MAP_TYPE_ARRAY,
    BPF_MAP_UPDATE_ELEM,
};
use kprobes::object::{BpfObjects, BPF_FD_BASE};
use kprobes::probes::{breakpoint_handler, Instrumentation};
use kprobes::program::{bpf_program_extract, bpf_program_install};
use kprobes::symbols::{bytes_eq, find_symbol, resolve_symbol, SymbolTable};
use kprobes::tracepoints::{bpf_program_attach, tracepoint_attached_programs};
use kprobes::trap::serial;

const ADDI: u32 = 0x00108093;

fn key_bytes(k: u32) -> Vec<u8> {
    vec![(k & 0xff) as u8, ((k >> 8) & 0xff) as u8, ((k >> 16) & 0xff) as u8, (k >> 24) as u8]
}

fn array_attr() -> MapAttr {
    MapAttr { map_type: BPF_MAP_TYPE_ARRAY, key_size: 4, value_size: 8, max_entries: 4 }
}

#[test]
fn array_map_update_lookup_and_iteration() {
    let mut bpf = BpfObjects::new();
    let fd64 = bpf_map_create(&mut bpf, array_attr()).expect("creation succeeds");
    let fd = fd64 as u32;
    assert_eq!(fd, BPF_FD_BASE);

    let value: Vec<u8> = vec![1, 2, 3, 4, 5, 6, 7, 8];
    let empty: Vec<u8> = Vec::new();
    let updated = bpf_map_ops(&mut bpf, fd, BPF_MAP_UPDATE_ELEM, &key_bytes(2), &value, 0);
    assert!(updated.is_ok());

    let looked = bpf_map_ops(&mut bpf, fd, BPF_MAP_LOOKUP_ELEM, &key_bytes(2), &empty, 0);
    assert_eq!(looked.unwrap(), value);

    // untouched slots stay zero
    let zero = bpf_map_ops(&mut bpf, fd, BPF_MAP_LOOKUP_ELEM, &key_bytes(0), &empty, 0);
    assert_eq!(zero.unwrap(), vec![0u8; 8]);

    // out of range: the iteration and lookup errors of the protocol
    let miss = bpf_map_ops(&mut bpf, fd, BPF_MAP_LOOKUP_ELEM, &key_bytes(4), &empty, 0);
    assert_eq!(miss.unwrap_err(), SysError::NotFound);
    let last = bpf_map_ops(&mut bpf, fd, BPF_MAP_GET_NEXT_KEY, &key_bytes(3), &empty, 0);
    assert_eq!(last.unwrap_err(), SysError::NotFound);
    let restart = bpf_map_ops(&mut bpf, fd, BPF_MAP_GET_NEXT_KEY, &key_bytes(10), &empty, 0);
    assert_eq!(restart.unwrap(), vec![0u8, 0, 0, 0]);
    let step = bpf_map_ops(&mut bpf, fd, BPF_MAP_GET_NEXT_KEY, &key_bytes(1), &empty, 0);
    assert_eq!(step.unwrap(), vec![2u8, 0, 0, 0]);

    // the array variant refuses deletion
    let deleted = bpf_map_ops(&mut bpf, fd, BPF_MAP_DELETE_ELEM, &key_bytes(1), &empty, 0);
    assert_eq!(deleted.unwrap_err(), SysError::InvalidArgument);

    // unknown operation code
    let unknown = bpf_map_ops(&mut bpf, fd, 77, &key_bytes(1), &empty, 0);
    assert_eq!(unknown.unwrap_err(), SysError::InvalidArgument);

    // wrong key width is bounds-checked before any dereference
    let short_key: Vec<u8> = vec![2, 0];
    let bad = bpf_map_ops(&mut bpf, fd, BPF_MAP_LOOKUP_ELEM, &short_key, &empty, 0);
    assert_eq!(bad.unwrap_err(), SysError::InvalidArgument);
    let bad_val: Vec<u8> = vec![1, 2, 3];
    let bad2 = bpf_map_ops(&mut bpf, fd, BPF_MAP_UPDATE_ELEM, &key_bytes(1), &bad_val, 0);
    assert_eq!(bad2.unwrap_err(), SysError::InvalidArgument);
}

#[test]
fn empty_and_zero_width_maps_behave() {
    let mut bpf = BpfObjects::new();
    let empty: Vec<u8> = Vec::new();

    // no entries at all: every lookup misses and iteration only restarts
    let none = MapAttr { map_type: BPF_MAP_TYPE_ARRAY, key_size: 4, value_size: 8, max_entries: 0 };
    let fd0 = bpf_map_create(&mut bpf, none).unwrap() as u32;
    let miss = bpf_map_ops(&mut bpf, fd0, BPF_MAP_LOOKUP_ELEM, &key_bytes(0), &empty, 0);
    assert_eq!(miss.unwrap_err(), SysError::NotFound);
    let restart = bpf_map_ops(&mut bpf, fd0, BPF_MAP_GET_NEXT_KEY, &key_bytes(0), &empty, 0);
    assert_eq!(restart.unwrap(), vec![0u8, 0, 0, 0]);

    // zero-width values: updates and lookups carry empty payloads
    let thin = MapAttr { map_type: BPF_MAP_TYPE_ARRAY, key_size: 4, value_size: 0, max_entries: 4 };
    let fd1 = bpf_map_create(&mut bpf, thin).unwrap() as u32;
    let up = bpf_map_ops(&mut bpf, fd1, BPF_MAP_UPDATE_ELEM, &key_bytes(1), &empty, 0);
    assert!(up.is_ok());
    let got = bpf_map_ops(&mut bpf, fd1, BPF_MAP_LOOKUP_ELEM, &key_bytes(1), &empty, 0);
    assert_eq!(got.unwrap(), empty);
}

#[test]
fn map_creation_rejects_bad_attributes() {
    let mut bpf = BpfObjects::new();
    let bad_type = MapAttr { map_type: 1, key_size: 4, value_size: 8, max_entries: 4 };
    assert_eq!(bpf_map_create(&mut bpf, bad_type).unwrap_err(), SysError::InvalidArgument);
    let bad_key = MapAttr { map_type: BPF_MAP_TYPE_ARRAY, key_size: 8, value_size: 8, max_entries: 4 };
    assert_eq!(bpf_map_create(&mut bpf, bad_key).unwrap_err(), SysError::InvalidArgument);
}

#[test]
fn map_attr_and_helper_lookup() {
    let mut bpf = BpfObjects::new();
    let fd = bpf_map_create(&mut bpf, array_attr()).unwrap() as u32;
    let attr = bpf_map_get_attr(&bpf, fd).expect("a map");
    assert_eq!(attr.key_size, 4);
    assert_eq!(attr.value_size, 8);
    assert_eq!(attr.max_entries, 4);
    assert_eq!(bpf_map_get_attr(&bpf, fd + 1), None);

    // the helper reports the slot's byte offset
    assert_eq!(bpf_map_lookup_helper(&bpf, fd, &key_bytes(3)).unwrap(), 24);
    assert_eq!(bpf_map_lookup_helper(&bpf, fd, &key_bytes(4)).unwrap_err(), SysError::NotFound);
    assert_eq!(bpf_map_lookup_helper(&bpf, fd + 9, &key_bytes(0)).unwrap_err(), SysError::NotFound);
}

#[test]
fn handles_are_monotonic_and_close_is_exact() {
    let mut bpf = BpfObjects::new();
    let fd1 = bpf_map_create(&mut bpf, array_attr()).unwrap() as u32;
    let fd2 = bpf_map_create(&mut bpf, array_attr()).unwrap() as u32;
    assert_eq!(fd2, fd1 + 1);
    assert_eq!(bpf_map_close(&mut bpf, fd1).unwrap(), 0);
    assert_eq!(bpf_map_close(&mut bpf, fd1).unwrap_err(), SysError::NotFound);
    // the freed handle is not reused
    let fd3 = bpf_map_create(&mut bpf, array_attr()).unwrap() as u32;
    assert_eq!(fd3, fd2 + 1);
}

/// A minimal ELF-64 object for the bytecode machine: a null section, a
/// `.text` section holding `words`, and the section-name string table.
fn build_bpf_elf(words: &[u64], text_name: &[u8], machine: u16) -> Vec<u8> {
    let strtab: Vec<u8> = {
        let mut s = vec![0u8];
        s.extend_from_slice(text_name);
        s.push(0);
        s
    };
    let text: Vec<u8> = words.iter().flat_map(|w| w.to_le_bytes()).collect();
    let str_off = 64u64;
    let text_off = str_off + strtab.len() as u64;
    let sh_off = text_off + text.len() as u64;
    let mut b = vec![0u8; 64];
    b[0] = 0x7f;
    b[1] = 0x45;
    b[2] = 0x4c;
    b[3] = 0x46;
    b[4] = 2;
    b[18..20].copy_from_slice(&machine.to_le_bytes());
    b[40..48].copy_from_slice(&sh_off.to_le_bytes());
    b[58..60].copy_from_slice(&64u16.to_le_bytes());
    b[60..62].copy_from_slice(&3u16.to_le_bytes());
    b[62..64].copy_from_slice(&2u16.to_le_bytes());
    b.extend_from_slice(&strtab);
    b.extend_from_slice(&text);
    // section 0: the null section
    b.extend_from_slice(&[0u8; 64]);
    // section 1: .text
    let mut sh = [0u8; 64];
    sh[0..4].copy_from_slice(&1u32.to_le_bytes());
    sh[24..32].copy_from_slice(&text_off.to_le_bytes());
    sh[32..40].copy_from_slice(&(text.len() as u64).to_le_bytes());
    b.extend_from_slice(&sh);
    // section 2: the string table
    let mut shs = [0u8; 64];
    shs[24..32].copy_from_slice(&str_off.to_le_bytes());
    shs[32..40].copy_from_slice(&(strtab.len() as u64).to_le_bytes());
    b.extend_from_slice(&shs);
    b
}

#[test]
fn program_extraction_reads_bytecode_words() {
    let words = [0x1122334455667788u64, 0x0102030405060708u64];
    let elf = build_bpf_elf(&words, b".text", 0xf7);
    let got = bpf_program_extract(&elf).expect("a valid container");
    assert_eq!(got, vec![0x1122334455667788, 0x0102030405060708]);
}

#[test]
fn program_extraction_rejects_bad_containers() {
    // not an ELF object at all
    let junk: Vec<u8> = vec![1, 2, 3];
    assert_eq!(bpf_program_extract(&junk).unwrap_err(), SysError::InvalidArgument);
    // the wrong machine tag
    let wrong = build_bpf_elf(&[1], b".text", 0x3e);
    assert_eq!(bpf_program_extract(&wrong).unwrap_err(), SysError::InvalidArgument);
    // no .text section
    let no_text = build_bpf_elf(&[1], b".data", 0xf7);
    assert_eq!(bpf_program_extract(&no_text).unwrap_err(), SysError::NotFound);
}

#[test]
fn attach_runs_programs_in_attachment_order() {
    let mut bpf = BpfObjects::new();
    let mut code = CodeMemory::new();
    code.write(0x1000, (ADDI & 0xffff) as u16);
    code.write(0x1002, (ADDI >> 16) as u16);
    let mut instr = Instrumentation::new(code, 0x20000, 4, 0x30000, 4);
    let mut symbols = SymbolTable::new();
    symbols.entries.push((b"probed_fn".to_vec(), 0x1000));

    let fd1 = bpf_program_install(&mut bpf, None, vec![1]).unwrap() as u32;
    let fd2 = bpf_program_install(&mut bpf, None, vec![2]).unwrap() as u32;

    let target = b"kprobe:probed_fn".to_vec();
    assert_eq!(bpf_program_attach(&mut bpf, &mut instr, &symbols, &target, fd1).unwrap(), 0);
    // the second attachment shares the probe; the kind compares
    // case-insensitively
    let target2 = b"KProbe:probed_fn".to_vec();
    assert_eq!(bpf_program_attach(&mut bpf, &mut instr, &symbols, &target2, fd2).unwrap(), 0);

    // one hit reports the tracepoint; its programs run in attachment order
    let mut tf = kprobes::machine::TrapState::new(0x1000);
    let outcome = breakpoint_handler(&mut instr, &mut tf);
    assert!(outcome.handled);
    assert_eq!(outcome.tracepoint, Some(0x1000));
    assert_eq!(tracepoint_attached_programs(&bpf, 0x1000), vec![fd1, fd2]);

    // closing a program scrubs it from the list
    assert_eq!(bpf_map_close(&mut bpf, fd1).unwrap(), 0);
    assert_eq!(tracepoint_attached_programs(&bpf, 0x1000), vec![fd2]);
}

#[test]
fn attach_rejects_bad_requests() {
    let mut bpf = BpfObjects::new();
    let code = CodeMemory::new();
    let mut instr = Instrumentation::new(code, 0x20000, 4, 0x30000, 4);
    let mut symbols = SymbolTable::new();
    symbols.entries.push((b"probed_fn".to_vec(), 0x1000));
    let fd = bpf_program_install(&mut bpf, None, vec![1]).unwrap() as u32;

    // an unknown program handle
    let target = b"kprobe:probed_fn".to_vec();
    assert_eq!(
        bpf_program_attach(&mut bpf, &mut instr, &symbols, &target, fd + 7).unwrap_err(),
        SysError::NotFound
    );
    // no separator
    let bad1 = b"kprobeprobed_fn".to_vec();
    assert_eq!(
        bpf_program_attach(&mut bpf, &mut instr, &symbols, &bad1, fd).unwrap_err(),
        SysError::InvalidArgument
    );
    // an unsupported kind
    let bad2 = b"tracepoint:probed_fn".to_vec();
    assert_eq!(
        bpf_program_attach(&mut bpf, &mut instr, &symbols, &bad2, fd).unwrap_err(),
        SysError::InvalidArgument
    );
    // an unresolvable symbol
    let bad3 = b"kprobe:missing_fn".to_vec();
    assert_eq!(
        bpf_program_attach(&mut bpf, &mut instr, &symbols, &bad3, fd).unwrap_err(),
        SysError::NotFound
    );
    // a symbol whose address holds no supported instruction: the probe
    // cannot be installed
    assert_eq!(
        bpf_program_attach(&mut bpf, &mut instr, &symbols, &target, fd).unwrap_err(),
        SysError::InvalidArgument
    );
}

#[test]
fn symbol_resolution_and_lookup() {
    let mut table = SymbolTable::new();
    table.entries.push((b"alpha".to_vec(), 0x1000));
    table.entries.push((b"beta_long_name".to_vec(), 0x2000));
    table.entries.push((b"beta".to_vec(), 0x2000));
    table.entries.push((b"gamma".to_vec(), 0x3000));

    assert_eq!(resolve_symbol(&table, &b"beta".to_vec()), Some(0x2000));
    assert_eq!(resolve_symbol(&table, &b"delta".to_vec()), None);

    // pc inside beta: the shortest name at the greatest address not above
    let (i, off) = find_symbol(&table, 0x2010).expect("found");
    assert_eq!(table.entries[i].0, b"beta".to_vec());
    assert_eq!(off, 0x10);
    // pc before every symbol
    assert_eq!(find_symbol(&table, 0xfff), None);
    // pc at the very last symbol
    let (j, off2) = find_symbol(&table, 0x3000).expect("found");
    assert_eq!(table.entries[j].0, b"gamma".to_vec());
    assert_eq!(off2, 0);

    assert!(bytes_eq(&b"same".to_vec(), &b"same".to_vec()));
    assert!(!bytes_eq(&b"same".to_vec(), &b"sane".to_vec()));
    assert!(!bytes_eq(&b"same".to_vec(), &b"sam".to_vec()));
}

#[test]
fn helper_results_fold_to_signed_words() {
    assert_eq!(convert_result(Ok(7)), 7);
    assert_eq!(convert_result(Err(SysError::NotFound)), -1);
    assert_eq!(bpf_nop(1, 2, 3, 4, 5), 0);
    assert_eq!(bpf_ktime_get_ns(3), 3_000_000);

    let mut bpf = BpfObjects::new();
    let fd = bpf_map_create(&mut bpf, array_attr()).unwrap() as u32;
    assert_eq!(bpf_map_delete_elem(&mut bpf, fd, &key_bytes(0)), -1);
}

#[test]
fn trace_printk_renders_runtime_format() {
    let fmt = b"a={} b={}".to_vec();
    let (status, line) = bpf_trace_printk(&fmt, 7, 8, 9);
    assert_eq!(status, 0);
    assert_eq!(line, "a=7 b=8");
}

#[test]
fn serial_input_maps_carriage_return() {
    let mut stdin: Vec<char> = Vec::new();
    serial('a', &mut stdin);
    serial('\r', &mut stdin);
    serial('b', &mut stdin);
    assert_eq!(stdin, vec!['a', '\n', 'b']);
}
