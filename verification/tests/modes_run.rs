use tracedis::bitness::ConfigError;
use tracedis::config::Config;
use tracedis::modes::{handle_linear, handle_system_mode, run, Walk};
use tracedis::record::TracedInstruction;
use tracedis::render::{render_record, RenderError};
use tracedis::trace::Trace;

/// `mov ax, 1` at 16 bits; `mov eax, 0x9090...` prefix at wider widths.
fn record(index: u64, size: u8) -> TracedInstruction {
    let mut data = [0u8; 16];
    data[0] = 0xB8;
    data[1] = 0x01;
    data[2] = 0x00;
    data[3] = 0x90;
    data[4] = 0x90;
    TracedInstruction { haddr: 0x5555_0000 + index, vaddr: 0x7C00 + 8 * index, size, data }
}

fn trace(n: u64) -> Trace {
    let mut bytes = Vec::new();
    for index in 0..n {
        bytes.extend_from_slice(&record(index, 5).encode());
    }
    Trace::new(bytes)
}

fn system(bits: u8, offset_32bit: Option<u64>, offset_64bit: Option<u64>) -> Config {
    Config { bits, offset_32bit, offset_64bit, system_mode: true }
}

fn linear(bits: u8, offset_32bit: Option<u64>, offset_64bit: Option<u64>) -> Config {
    Config { bits, offset_32bit, offset_64bit, system_mode: false }
}

fn expected(widths: &[u32]) -> Vec<String> {
    widths
        .iter()
        .enumerate()
        .map(|(i, w)| render_record(&record(i as u64, 5), 40 * i as u64, *w).unwrap())
        .collect()
}

#[test]
fn system_mode_widens_at_the_configured_offsets() {
    let lines = handle_system_mode(&system(64, Some(40), Some(120)), &trace(5)).unwrap();
    assert_eq!(lines, expected(&[16, 32, 32, 64, 64]));
    assert_eq!(lines[0].lines().count(), 3);
    assert_eq!(lines[1].lines().count(), 1);
    assert!(lines[0].starts_with("0000000000007C00   0000000000000000   B80100               "));
    assert!(lines[1].starts_with("0000000000007C08   0000000000000028   B801009090           "));
    assert!(lines[4].starts_with("0000000000007C20   00000000000000A0   B801009090           "));
}

#[test]
fn system_mode_needs_an_exact_match() {
    let lines = handle_system_mode(&system(64, Some(39), Some(120)), &trace(5)).unwrap();
    assert_eq!(lines, expected(&[16, 16, 16, 16, 16]));
    let lines = handle_system_mode(&system(64, Some(40), Some(121)), &trace(5)).unwrap();
    assert_eq!(lines, expected(&[16, 32, 32, 32, 32]));
}

#[test]
fn system_mode_with_target_32_and_16() {
    let lines = handle_system_mode(&system(32, Some(80), Some(120)), &trace(5)).unwrap();
    assert_eq!(lines, expected(&[16, 16, 32, 32, 32]));
    let lines = handle_system_mode(&system(32, Some(80), None), &trace(5)).unwrap();
    assert_eq!(lines, expected(&[16, 16, 32, 32, 32]));
    let lines = handle_system_mode(&system(16, None, None), &trace(3)).unwrap();
    assert_eq!(lines, expected(&[16, 16, 16]));
}

#[test]
fn system_mode_rejects_a_bad_configuration_first() {
    let mut bad = record(0, 5);
    bad.size = 200;
    let broken = Trace::new(bad.encode());
    for (config, error) in [
        (system(64, None, None), ConfigError::MissingOffset32),
        (system(64, None, Some(1)), ConfigError::MissingOffset32),
        (system(64, Some(1), None), ConfigError::MissingOffset64),
        (system(32, None, Some(1)), ConfigError::MissingOffset32),
        (system(24, Some(1), Some(2)), ConfigError::InvalidBits(24)),
    ] {
        assert_eq!(handle_system_mode(&config, &trace(2)), Err(RenderError::Config(error)));
        assert_eq!(handle_system_mode(&config, &broken), Err(RenderError::Config(error)));
        assert_eq!(run(&config, &trace(0)), Err(RenderError::Config(error)));
    }
}

#[test]
fn linear_mode_decodes_every_record_at_the_target() {
    assert_eq!(handle_linear(&linear(32, None, None), &trace(3)).unwrap(), expected(&[32, 32, 32]));
    assert_eq!(handle_linear(&linear(16, None, None), &trace(3)).unwrap(), expected(&[16, 16, 16]));
    assert_eq!(handle_linear(&linear(64, None, None), &trace(3)).unwrap(), expected(&[64, 64, 64]));
}

#[test]
fn linear_mode_ignores_the_offsets() {
    let plain = handle_linear(&linear(32, None, None), &trace(3)).unwrap();
    for (o32, o64) in [(Some(0), Some(40)), (Some(40), None), (None, Some(0)), (Some(80), Some(80))] {
        assert_eq!(handle_linear(&linear(32, o32, o64), &trace(3)).unwrap(), plain);
        assert_eq!(run(&linear(32, o32, o64), &trace(3)).unwrap(), plain);
    }
}

#[test]
fn linear_mode_rejects_bad_bits_only() {
    assert_eq!(
        handle_linear(&linear(0, Some(1), Some(2)), &trace(1)),
        Err(RenderError::Config(ConfigError::InvalidBits(0)))
    );
    assert!(handle_linear(&linear(64, None, None), &trace(1)).is_ok());
}

#[test]
fn run_follows_the_mode() {
    let config = system(64, Some(40), Some(80));
    assert_eq!(run(&config, &trace(4)).unwrap(), expected(&[16, 32, 64, 64]));
    let config = linear(64, Some(40), Some(80));
    assert_eq!(run(&config, &trace(4)).unwrap(), expected(&[64, 64, 64, 64]));
}

#[test]
fn empty_trace_renders_to_nothing() {
    assert_eq!(run(&system(64, Some(0), Some(40)), &trace(0)).unwrap(), Vec::<String>::new());
    assert_eq!(run(&linear(16, None, None), &Trace::new(vec![0; 39])).unwrap(), Vec::<String>::new());
}

#[test]
fn partial_tail_produces_no_output() {
    let mut bytes = record(0, 5).encode();
    bytes.extend_from_slice(&[0x90; 5]);
    let lines = run(&linear(16, None, None), &Trace::new(bytes)).unwrap();
    assert_eq!(lines, expected(&[16]));
}

#[test]
fn overlong_record_stops_the_run() {
    let mut bytes = record(0, 5).encode();
    bytes.extend_from_slice(&record(1, 17).encode());
    bytes.extend_from_slice(&record(2, 5).encode());
    let broken = Trace::new(bytes);
    let fault = Err(RenderError::BadLength { offset: 40, size: 17 });
    assert_eq!(run(&linear(32, None, None), &broken), fault);
    assert_eq!(run(&system(32, Some(0), None), &broken), fault);
}

#[test]
fn first_fault_is_reported() {
    let mut bytes = record(0, 40).encode();
    bytes.extend_from_slice(&record(1, 17).encode());
    let broken = Trace::new(bytes);
    assert_eq!(run(&linear(32, None, None), &broken), Err(RenderError::BadLength { offset: 0, size: 40 }));
}

#[test]
fn linear_mode_on_an_empty_trace_renders_nothing() {
    for bits in [16u8, 32, 64] {
        assert_eq!(handle_linear(&linear(bits, None, None), &Trace::new(Vec::new())), Ok(Vec::new()));
        assert_eq!(run(&linear(bits, None, None), &Trace::new(Vec::new())), Ok(Vec::new()));
    }
    assert_eq!(handle_system_mode(&system(64, Some(0), Some(40)), &Trace::new(Vec::new())), Ok(Vec::new()));
}

#[test]
fn records_without_bytes_render_to_their_prefixes() {
    let mut bytes = record(0, 0).encode();
    bytes.extend_from_slice(&record(1, 0).encode());
    let trace = Trace::new(bytes);
    let lines = vec![
        String::from("0000000000007C00   0000000000000000   "),
        String::from("0000000000007C08   0000000000000028   "),
    ];
    assert_eq!(run(&linear(64, None, None), &trace), Ok(lines.clone()));
    assert_eq!(run(&system(64, Some(0), Some(40)), &trace), Ok(lines));
}

#[test]
fn walk_hands_out_one_record_at_a_time() {
    let t = trace(4);
    let mut walk = Walk::new(&system(64, Some(40), Some(80)), &t).ok().unwrap();
    let texts = expected(&[16, 32, 64, 64]);
    for text in texts {
        assert_eq!(walk.next(), Some(Ok(text)));
    }
    assert_eq!(walk.next(), None);
    assert_eq!(walk.next(), None);
}

#[test]
fn walk_in_each_mode() {
    let t = trace(3);
    let config = Config { bits: 32, offset_32bit: Some(40), offset_64bit: None, system_mode: false };
    let mut system_walk = Walk::system(&config, &t).ok().unwrap();
    let mut linear_walk = Walk::linear(&config, &t).ok().unwrap();
    let mut chosen = Walk::new(&config, &t).ok().unwrap();
    let at_16 = expected(&[16, 16, 16]);
    let at_32 = expected(&[32, 32, 32]);
    assert_eq!(system_walk.next(), Some(Ok(at_16[0].clone())));
    assert_eq!(system_walk.next(), Some(Ok(at_32[1].clone())));
    assert_eq!(linear_walk.next(), Some(Ok(at_32[0].clone())));
    assert_eq!(chosen.next(), Some(Ok(at_32[0].clone())));
}

#[test]
fn walk_gives_the_texts_before_a_fault() {
    let mut bytes = record(0, 5).encode();
    bytes.extend_from_slice(&record(1, 17).encode());
    bytes.extend_from_slice(&record(2, 5).encode());
    let broken = Trace::new(bytes);
    let mut walk = Walk::new(&linear(32, None, None), &broken).ok().unwrap();
    assert_eq!(walk.next(), Some(Ok(expected(&[32])[0].clone())));
    assert_eq!(walk.next(), Some(Err(RenderError::BadLength { offset: 40, size: 17 })));
    assert_eq!(walk.next(), Some(Ok(expected(&[32, 32, 32])[2].clone())));
    assert_eq!(walk.next(), None);
}

#[test]
fn walk_rejects_a_bad_configuration() {
    let t = trace(1);
    assert_eq!(
        Walk::new(&system(64, None, None), &t).err(),
        Some(RenderError::Config(ConfigError::MissingOffset32))
    );
    assert_eq!(
        Walk::new(&linear(5, None, None), &t).err(),
        Some(RenderError::Config(ConfigError::InvalidBits(5)))
    );
    assert!(Walk::linear(&system(64, None, None), &t).is_ok());
    assert_eq!(
        Walk::system(&linear(32, None, None), &t).err(),
        Some(RenderError::Config(ConfigError::MissingOffset32))
    );
}
