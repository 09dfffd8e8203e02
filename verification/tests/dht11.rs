use rustberry::dht11::{decode_frame, wait_level_step, Dht11Error, Dht11Reader, Level, ReadAction, Readings, WaitStep};

#[test]
fn it_works() {
    assert_eq!(2 + 2, 4);
}

#[test]
fn understand_bitwise_operations() {
    let mut start: u8 = 1;

    for _ in 0..8 {
        start <<= 1;
        println!("{:08b}", start);
    }
}

fn pulses_for(bytes: [u8; 5]) -> Vec<u8> {
    let mut pulses = Vec::new();
    for b in bytes {
        for k in (0..8).rev() {
            pulses.push(if (b >> k) & 1 == 1 { 70 } else { 20 });
        }
    }
    pulses
}

#[test]
fn decodes_a_frame() {
    let pulses = pulses_for([45, 0, 23, 4, 72]);
    let r = decode_frame(&pulses).unwrap();
    assert!(r == Readings { humidity_integral: 45, humidity_decimal: 0, temperature_integral: 23, temperature_decimal: 4 });
    assert_eq!(r.to_text(), "Readings(45.00%, 23.40C)");
}

#[test]
fn checksum_is_the_low_byte_of_the_sum() {
    // 200 + 100 + 0 + 0 = 300, whose low byte is 44.
    assert!(decode_frame(&pulses_for([200, 100, 0, 0, 44])).is_ok());
    assert!(decode_frame(&pulses_for([45, 0, 23, 4, 73])) == Err(Dht11Error::Checksum));
}

#[test]
fn bit_threshold() {
    let mut pulses = vec![0u8; 40];
    pulses[7] = 27; // lowest bit of the first byte: 27 polls is a 1
    pulses[6] = 26; // 26 polls is a 0
    pulses[39] = 27;
    assert!(decode_frame(&pulses) == Ok(Readings { humidity_integral: 1, humidity_decimal: 0, temperature_integral: 0, temperature_decimal: 0 }));
}

#[test]
fn readings_text_carries_over_decimals() {
    let r = Readings { humidity_integral: 25, humidity_decimal: 13, temperature_integral: 0, temperature_decimal: 0 };
    assert_eq!(r.to_text(), "Readings(26.30%, 0.00C)");
    assert_eq!(Dht11Error::Timeout.to_text(), "Timeout!");
    assert_eq!(Dht11Error::Checksum.to_text(), "Check sum!");
}

#[test]
fn wait_steps() {
    assert!(wait_level_step(0, true) == WaitStep::Found(0));
    assert!(wait_level_step(30, true) == WaitStep::Found(30));
    assert!(wait_level_step(0, false) == WaitStep::Poll(1));
    assert!(wait_level_step(253, false) == WaitStep::Poll(254));
    assert!(wait_level_step(254, false) == WaitStep::TimedOut);
}

#[test]
fn reader_follows_the_protocol() {
    let pulses = pulses_for([45, 0, 23, 4, 72]);
    let (mut reader, mut action) = Dht11Reader::start();
    let mut levels = Vec::new();
    let mut bit: usize = 0;
    loop {
        match action {
            ReadAction::WaitFor(level) => {
                levels.push(level);
                let k: usize = levels.len() - 1;
                let polls: u8 = if k >= 3 && (k - 3) % 2 == 1 {
                    bit += 1;
                    pulses[bit - 1]
                } else {
                    50
                };
                action = reader.on_wait(Some(polls));
            }
            ReadAction::Finished(result) => {
                assert!(result == Ok(Readings { humidity_integral: 45, humidity_decimal: 0, temperature_integral: 23, temperature_decimal: 4 }));
                break;
            }
        }
    }
    assert_eq!(levels.len(), 83);
    assert!(levels[0] == Level::Low && levels[1] == Level::High && levels[2] == Level::Low);
    assert!(levels[3] == Level::High && levels[4] == Level::Low && levels[82] == Level::Low);
}

#[test]
fn reader_stops_on_timeout() {
    let (mut reader, _) = Dht11Reader::start();
    assert!(matches!(reader.on_wait(Some(3)), ReadAction::WaitFor(Level::High)));
    assert!(matches!(reader.on_wait(None), ReadAction::Finished(Err(Dht11Error::Timeout))));
}

#[test]
fn lcd_lines_of_a_reading() {
    let r = Readings { humidity_integral: 45, humidity_decimal: 0, temperature_integral: 23, temperature_decimal: 4 };
    assert_eq!(r.lcd_text(), "Temp:      23.4C\nHumid:     45.0%");
    assert_eq!(r.lcd_text(), format!("Temp:      {:.1}C\nHumid:     {:.1}%", 23.0f64 + 4.0 / 10.0, 45.0f64));
}

#[test]
fn reader_reports_when_finished() {
    let (mut reader, _) = Dht11Reader::start();
    assert!(!reader.finished());
    let _ = reader.on_wait(None);
    assert!(reader.finished());
}

#[test]
fn float_text_agrees() {
    for (i, d) in [(0u8, 0u8), (23, 4), (25, 13), (99, 9), (255, 255)] {
        let r = Readings { humidity_integral: i, humidity_decimal: d, temperature_integral: d, temperature_decimal: i };
        let h = i as f64 + (d as f64 / 10.0);
        let t = d as f64 + (i as f64 / 10.0);
        assert_eq!(r.to_text(), format!("Readings({:.2}%, {:.2}C)", h, t));
    }
}

fn run_wait(reached: &dyn Fn(u8) -> bool) -> Option<u8> {
    let mut poll: u8 = 0;
    loop {
        match wait_level_step(poll, reached(poll)) {
            WaitStep::Found(p) => return Some(p),
            WaitStep::Poll(next) => poll = next,
            WaitStep::TimedOut => return None,
        }
    }
}

#[test]
fn wait_reports_the_first_poll_or_gives_up() {
    assert_eq!(run_wait(&|p| p >= 40), Some(40));
    assert_eq!(run_wait(&|p| p == 254), Some(254));
    assert_eq!(run_wait(&|_| false), None);
    assert_eq!(run_wait(&|p| p == 0), Some(0));
}
