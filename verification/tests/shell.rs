use allora::apps::shell::{bias_byte, cut_line, field, Command, Pending, Request, Shell, Step};
use allora::uart::UART;
use std::collections::HashMap;

fn out(step: &Step) -> Vec<Vec<u8>> {
    step.output.clone()
}

#[test]
fn parse_knows_the_commands() {
    assert_eq!(Shell::parse(b"rand"), Command::Rand);
    assert_eq!(Shell::parse(b"rand\n"), Command::Rand);
    assert_eq!(Shell::parse(b"rand\r\nexit"), Command::Rand);
    assert_eq!(Shell::parse(b"rand more words"), Command::Rand);
    assert_eq!(Shell::parse(b"netshell"), Command::NetShell);
    assert_eq!(Shell::parse(b"exit"), Command::Exit);
    assert_eq!(Shell::parse(b"writerand 3 1024"), Command::WriteRand { sector: 3, len: 1024 });
    assert_eq!(Shell::parse(b"read 9 100"), Command::Read { sector: 9, len: 100 });
    assert_eq!(Shell::parse(b""), Command::Unknown);
    assert_eq!(Shell::parse(b"\n"), Command::Unknown);
    assert_eq!(Shell::parse(b" rand"), Command::Unknown);
    assert_eq!(Shell::parse(b"Rand"), Command::Unknown);
    assert_eq!(Shell::parse(b"randx"), Command::Unknown);
    assert_eq!(Shell::parse(b"write 0 1"), Command::Unknown);
}

#[test]
fn arguments_default_when_missing_or_unreadable() {
    assert_eq!(Shell::parse(b"read"), Command::Read { sector: 0, len: 512 });
    assert_eq!(Shell::parse(b"read 5"), Command::Read { sector: 5, len: 512 });
    assert_eq!(Shell::parse(b"read x y"), Command::Read { sector: 0, len: 512 });
    assert_eq!(Shell::parse(b"read -1 -1"), Command::Read { sector: 0, len: 512 });
    assert_eq!(Shell::parse(b"read +7 +8"), Command::Read { sector: 7, len: 8 });
    assert_eq!(Shell::parse(b"read 7\t 8"), Command::Read { sector: 0, len: 8 });
    assert_eq!(Shell::parse(b"read  5"), Command::Read { sector: 0, len: 5 });
    assert_eq!(Shell::parse(b"read 1 0"), Command::Read { sector: 1, len: 0 });
    assert_eq!(Shell::parse(b"writerand"), Command::WriteRand { sector: 0, len: 0 });
    assert_eq!(Shell::parse(b"writerand 4"), Command::WriteRand { sector: 4, len: 0 });
    assert_eq!(Shell::parse(b"writerand a 7"), Command::WriteRand { sector: 0, len: 7 });
    assert_eq!(
        Shell::parse(b"read 18446744073709551615 1"),
        Command::Read { sector: u64::MAX, len: 1 }
    );
    assert_eq!(
        Shell::parse(b"read 18446744073709551616 1"),
        Command::Read { sector: 0, len: 1 }
    );
    assert_eq!(Shell::parse(b"read 1 \xff"), Command::Read { sector: 1, len: 512 });
}

#[test]
fn cut_line_stops_at_the_first_line_end() {
    assert_eq!(cut_line(b"abc\ndef"), b"abc");
    assert_eq!(cut_line(b"abc\rdef\n"), b"abc");
    assert_eq!(cut_line(b"abc\n\r"), b"abc");
    assert_eq!(cut_line(b"abc"), b"abc");
    assert_eq!(cut_line(b"\nabc"), b"");
    assert_eq!(cut_line(b""), b"");
}

#[test]
fn fields_are_parted_by_single_separators() {
    assert_eq!(field(b"a bc  d", b' ', 0), Some(&b"a"[..]));
    assert_eq!(field(b"a bc  d", b' ', 1), Some(&b"bc"[..]));
    assert_eq!(field(b"a bc  d", b' ', 2), Some(&b""[..]));
    assert_eq!(field(b"a bc  d", b' ', 3), Some(&b"d"[..]));
    assert_eq!(field(b"a bc  d", b' ', 4), None);
    assert_eq!(field(b"", b' ', 0), Some(&b""[..]));
    assert_eq!(field(b"", b' ', 1), None);
    assert_eq!(field(b"x ", b' ', 1), Some(&b""[..]));
    assert_eq!(field(b"x ", b' ', 2), None);
}

#[test]
fn bias_maps_into_the_printable_range() {
    assert_eq!(bias_byte(0), 32);
    assert_eq!(bias_byte(1), 32);
    assert_eq!(bias_byte(3), 33);
    assert_eq!(bias_byte(100), 68);
    assert_eq!(bias_byte(255), 125);
    for b in 0..=255u8 {
        assert_eq!(bias_byte(b) as u32, b as u32 * 100 / 272 + 32);
    }
}

#[test]
fn rand_shows_sixteen_bytes() {
    let mut shell = Shell::new(true);
    let step = shell.do_line(b"rand");
    assert!(out(&step).is_empty());
    assert!(matches!(step.request, Request::Entropy { len: 16 }));
    assert_eq!(shell.pending, Pending::Random);
    let step = shell.resume(&[9; 16]);
    assert_eq!(out(&step), vec![b"Random: ".to_vec(), vec![9; 16]]);
    assert!(matches!(step.request, Request::Done { exit: false }));
    assert_eq!(shell, Shell::new(true));
}

#[test]
fn prompt_and_line_end() {
    assert_eq!(Shell::prompt(), b"$> ");
    assert_eq!(Shell::line_end(false), Some(b'\n'));
    assert_eq!(Shell::line_end(true), None);
    assert_eq!(allora::apps::shell::LINE_MAX, 1024);
}

#[test]
fn exit_ends_the_shell() {
    let mut shell = Shell::new(false);
    let step = shell.do_line(b"exit\n");
    assert!(out(&step).is_empty());
    assert!(matches!(step.request, Request::Done { exit: true }));
    assert_eq!(shell.pending, Pending::Nothing);
}

#[test]
fn unknown_command_is_echoed() {
    let mut shell = Shell::new(false);
    let step = shell.do_line(b"frobnicate now\r\nrand");
    assert_eq!(
        out(&step),
        vec![b"Unknown command \"".to_vec(), b"frobnicate now".to_vec(), b"\"".to_vec()]
    );
    assert!(matches!(step.request, Request::Done { exit: false }));
    let step = shell.do_line(b"");
    assert_eq!(out(&step).concat(), b"Unknown command \"\"");
}

#[test]
fn netshell_hands_the_device_over_once() {
    let mut shell = Shell::new(true);
    let step = shell.do_line(b"netshell");
    assert!(out(&step).is_empty());
    assert!(matches!(step.request, Request::NetShell));
    assert_eq!(shell, Shell { pending: Pending::NetShell, net: false });
    let step = shell.resume(&[]);
    assert!(out(&step).is_empty());
    assert!(matches!(step.request, Request::Done { exit: false }));
    assert_eq!(shell, Shell::new(false));
    let step = shell.do_line(b"netshell");
    assert!(out(&step).is_empty());
    assert!(matches!(step.request, Request::Done { exit: false }));
}

#[test]
fn resume_with_nothing_pending_does_nothing() {
    let mut shell = Shell::new(true);
    let step = shell.resume(b"stray");
    assert!(out(&step).is_empty());
    assert!(matches!(step.request, Request::Done { exit: false }));
    assert_eq!(shell, Shell::new(true));
}

#[test]
fn writerand_of_nothing_is_done_at_once() {
    let mut shell = Shell::new(false);
    let step = shell.do_line(b"writerand 5 0");
    assert_eq!(out(&step), vec![b"done".to_vec()]);
    assert!(matches!(step.request, Request::Done { exit: false }));
}

#[test]
fn writerand_writes_sector_by_sector() {
    let mut shell = Shell::new(false);
    let step = shell.do_line(b"writerand 7 600");
    assert!(matches!(step.request, Request::Entropy { len: 512 }));
    assert_eq!(shell.pending, Pending::WriteEntropy { sector: 7, left: 600 });
    let step = shell.resume(&[255; 512]);
    match step.request {
        Request::WriteSector { sector, data } => {
            assert_eq!(sector, 7);
            assert_eq!(data, vec![125; 512]);
        }
        _ => panic!("no write"),
    }
    let step = shell.resume(&[]);
    assert!(out(&step).is_empty());
    assert!(matches!(step.request, Request::Entropy { len: 88 }));
    assert_eq!(shell.pending, Pending::WriteEntropy { sector: 8, left: 88 });
    let step = shell.resume(&[0; 88]);
    match step.request {
        Request::WriteSector { sector, data } => {
            assert_eq!(sector, 8);
            assert_eq!(data.len(), 512);
            assert_eq!(data[..88], [32; 88]);
            assert_eq!(data[88..], [0; 424]);
        }
        _ => panic!("no write"),
    }
    let step = shell.resume(&[]);
    assert_eq!(out(&step), vec![b"done".to_vec()]);
    assert!(matches!(step.request, Request::Done { exit: false }));
    assert_eq!(shell.pending, Pending::Nothing);
}

#[test]
fn writerand_uses_no_more_random_bytes_than_it_asked_for() {
    let mut shell = Shell::new(false);
    shell.do_line(b"writerand 0 2");
    match shell.resume(&[255; 10]).request {
        Request::WriteSector { data, .. } => {
            assert_eq!(data[..3], [125, 125, 0]);
        }
        _ => panic!("no write"),
    }
    let mut shell = Shell::new(false);
    shell.do_line(b"writerand 0 4");
    match shell.resume(&[255; 1]).request {
        Request::WriteSector { data, .. } => {
            assert_eq!(data[..3], [125, 0, 0]);
        }
        _ => panic!("no write"),
    }
}

#[test]
fn sectors_wrap_after_the_last() {
    let mut shell = Shell::new(false);
    shell.do_line(b"writerand 18446744073709551615 513");
    shell.resume(&[1; 512]);
    let step = shell.resume(&[]);
    assert!(matches!(step.request, Request::Entropy { len: 1 }));
    assert_eq!(shell.pending, Pending::WriteEntropy { sector: 0, left: 1 });
    let mut shell = Shell::new(false);
    shell.do_line(b"read 18446744073709551615 513");
    let step = shell.resume(&[1; 512]);
    assert!(matches!(step.request, Request::ReadSector { sector: 0 }));
}

#[test]
fn read_shows_as_much_as_asked_for() {
    let mut shell = Shell::new(false);
    let step = shell.do_line(b"read 3 1030");
    assert!(out(&step).is_empty());
    assert!(matches!(step.request, Request::ReadSector { sector: 3 }));
    let step = shell.resume(&[1; 512]);
    assert_eq!(out(&step), vec![vec![1; 512]]);
    assert!(matches!(step.request, Request::ReadSector { sector: 4 }));
    let step = shell.resume(&[2; 512]);
    assert_eq!(out(&step), vec![vec![2; 512]]);
    assert!(matches!(step.request, Request::ReadSector { sector: 5 }));
    let step = shell.resume(&[3; 512]);
    assert_eq!(out(&step), vec![vec![3; 6]]);
    assert!(matches!(step.request, Request::Done { exit: false }));
    assert_eq!(shell.pending, Pending::Nothing);
}

#[test]
fn read_of_a_whole_sector_and_of_nothing() {
    let mut shell = Shell::new(false);
    shell.do_line(b"read 0");
    let step = shell.resume(&[5; 512]);
    assert_eq!(out(&step), vec![vec![5; 512]]);
    assert!(matches!(step.request, Request::Done { exit: false }));
    shell.do_line(b"read 0 0");
    let step = shell.resume(&[5; 512]);
    assert_eq!(out(&step), vec![Vec::<u8>::new()]);
    shell.do_line(b"read 0 100");
    let step = shell.resume(&[5; 10]);
    assert_eq!(out(&step), vec![vec![5; 10]]);
}

/// Carries a line out against a disk and a source of random bytes, and
/// returns what the shell wrote out.
fn run(
    shell: &mut Shell,
    disk: &mut HashMap<u64, Vec<u8>>,
    seed: &mut u32,
    line: &[u8],
) -> Vec<u8> {
    let mut written = Vec::new();
    let mut step = shell.do_line(line);
    loop {
        for chunk in &step.output {
            written.extend_from_slice(chunk);
        }
        step = match step.request {
            Request::Done { .. } => return written,
            Request::Entropy { len } => {
                let random: Vec<u8> = (0..len)
                    .map(|_| {
                        *seed = seed.wrapping_mul(1664525).wrapping_add(1013904223);
                        (*seed >> 24) as u8
                    })
                    .collect();
                shell.resume(&random)
            }
            Request::ReadSector { sector } => {
                let data = disk.get(&sector).cloned().unwrap_or(vec![0; 512]);
                shell.resume(&data)
            }
            Request::WriteSector { sector, data } => {
                assert_eq!(data.len(), 512);
                disk.insert(sector, data);
                shell.resume(&[])
            }
            Request::NetShell => shell.resume(&[]),
        };
    }
}

#[test]
fn writerand_then_read_shows_printable_bytes() {
    let mut shell = Shell::new(false);
    let mut disk = HashMap::new();
    let mut seed = 12345;
    assert_eq!(run(&mut shell, &mut disk, &mut seed, b"writerand 0 1024"), b"done");
    let shown = run(&mut shell, &mut disk, &mut seed, b"read 0 1024");
    assert_eq!(shown.len(), 1024);
    assert!(shown.iter().all(|b| (32..132).contains(b)));
    assert!(shown.iter().all(|b| (32..=125).contains(b)));
    let mut expected = disk[&0].clone();
    expected.extend_from_slice(&disk[&1]);
    assert_eq!(shown, expected);
    assert_eq!(disk.len(), 2);
    let again = run(&mut shell, &mut disk, &mut seed, b"read 0 1024");
    assert_eq!(shown, again);
}

#[test]
fn writerand_pads_the_last_sector_with_zeroes() {
    let mut shell = Shell::new(false);
    let mut disk = HashMap::new();
    let mut seed = 1;
    run(&mut shell, &mut disk, &mut seed, b"writerand 10 700");
    assert_eq!(disk.len(), 2);
    assert!(disk[&10].iter().all(|b| (32..=125).contains(b)));
    assert!(disk[&11][..188].iter().all(|b| (32..=125).contains(b)));
    assert!(disk[&11][188..].iter().all(|b| *b == 0));
    let shown = run(&mut shell, &mut disk, &mut seed, b"read 10 700");
    assert_eq!(shown.len(), 700);
}

#[test]
fn lines_typed_at_the_console_are_carried_out() {
    let mut shell = Shell::new(false);
    let mut disk = HashMap::new();
    let mut seed = 99;
    let typed = b"writerand 0 1024\rread 0 1024\rexit\r";
    let mut at = 0;
    let mut shown = Vec::new();
    let mut echoed = Vec::new();
    loop {
        let line = UART::read_line(&typed[at..], 1024, true);
        assert!(line.complete);
        at += line.consumed;
        echoed.extend_from_slice(&line.echoed);
        if line.line == b"exit" {
            let step = shell.do_line(&line.line);
            assert!(matches!(step.request, Request::Done { exit: true }));
            break;
        }
        shown.push(run(&mut shell, &mut disk, &mut seed, &line.line));
    }
    assert_eq!(at, typed.len());
    assert_eq!(echoed, b"writerand 0 1024\nread 0 1024\nexit\n");
    assert_eq!(shown.len(), 2);
    assert_eq!(shown[0], b"done");
    assert_eq!(shown[1].len(), 1024);
    assert!(shown[1].iter().all(|b| (32..132).contains(b)));
}
