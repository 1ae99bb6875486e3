use weblog::synth::{
    civil, local_offset_secs, synth_ip, synth_line, synth_path, weighted, weighted_pick, Rng, SynthFormat, SynthRequest,
};

#[test]
fn civil_splits_epoch_seconds_into_date_and_time() {
    assert_eq!(civil(0), (1970, 1, 1, 0, 0, 0));
    assert_eq!(civil(-1), (1969, 12, 31, 23, 59, 59));
    assert_eq!(civil(1_704_067_200), (2024, 1, 1, 0, 0, 0));
    assert_eq!(civil(1_704_067_200 + 9 * 3600 + 59), (2024, 1, 1, 9, 0, 59));
    assert_eq!(civil(253_402_300_799), (9999, 12, 31, 23, 59, 59));
}

#[test]
fn civil_knows_the_leap_day_of_a_century_divisible_by_400() {
    assert_eq!(civil(951_782_400), (2000, 2, 29, 0, 0, 0));
    assert_eq!(civil(951_868_799), (2000, 2, 29, 23, 59, 59));
    assert_eq!(civil(951_868_800), (2000, 3, 1, 0, 0, 0));
}

#[test]
fn civil_handles_the_extremes_of_i64() {
    let (_, m, d, h, mi, s) = civil(i64::MAX);
    assert!((1..=12).contains(&m) && (1..=31).contains(&d) && h < 24 && mi < 60 && s < 60);
    let (_, m, d, ..) = civil(i64::MIN);
    assert!((1..=12).contains(&m) && (1..=31).contains(&d));
}

#[test]
fn xorshift_sequence_is_deterministic() {
    let mut r = Rng::new(0);
    assert_eq!(r.next_u64(), 15_860_402_103_189_073_388);
    assert_eq!(r.next_u64(), 8_426_428_137_925_997_623);
    let mut a = Rng::new(1);
    assert_eq!(a.next_u64(), 15_860_402_103_189_073_388, "seed zero counts as one");
    let mut b = Rng::new(0);
    assert_eq!(b.below(100), 88);
    assert_eq!(b.below(7), 4);
    assert_eq!(Rng::new(5).below(0), 0);
}

#[test]
fn weighted_pick_walks_the_bands_and_falls_back_to_the_first_entry() {
    let table = [('a', 10u64), ('b', 20), ('c', 70)];
    assert_eq!(weighted_pick(&table, 0), 'a');
    assert_eq!(weighted_pick(&table, 9), 'a');
    assert_eq!(weighted_pick(&table, 10), 'b');
    assert_eq!(weighted_pick(&table, 29), 'b');
    assert_eq!(weighted_pick(&table, 30), 'c');
    assert_eq!(weighted_pick(&table, 99), 'c');
    assert_eq!(weighted_pick(&table, 100), 'a');
}

#[test]
fn weighted_rolls_below_the_total_weight() {
    let table = [('a', 10u64), ('b', 20), ('c', 70)];
    let mut rng = Rng::new(42);
    assert_eq!(weighted(&mut rng, &table), 'c');
    let zero = [('z', 0u64), ('y', 0)];
    assert_eq!(weighted(&mut Rng::new(3), &zero), 'z');
}

#[test]
fn generated_addresses_and_targets_follow_the_draws() {
    assert_eq!(synth_ip(&mut Rng::new(42), 0), "101.201.76.117");
    assert_eq!(synth_ip(&mut Rng::new(42), 19), "2001:db8:f969:6675::43b0");
    assert_eq!(synth_path(&mut Rng::new(42), 5), "/static/app.js?page=29&sort=desc");
    let mut rng = Rng::new(42);
    let _ = synth_ip(&mut rng, 0);
    let mut again = Rng::new(42);
    for _ in 0..4 {
        again.next_u64();
    }
    assert_eq!(rng.next_u64(), again.next_u64(), "an IPv4 address takes four draws");
}

fn request(path: &str, bytes: Option<u64>, ua: &str) -> SynthRequest {
    SynthRequest {
        ip: "1.2.3.4".to_owned(),
        path: path.to_owned(),
        method: "GET".to_owned(),
        status: 200,
        bytes,
        user_agent: ua.to_owned(),
        referrer: "-".to_owned(),
        response_time: 7,
    }
}

#[test]
fn access_lines_use_local_time_and_month_names() {
    let q = request("/a?b=1", Some(512), "curl/8.6.0");
    let c = civil(1_704_067_200 + local_offset_secs(SynthFormat::Common) + 59);
    assert_eq!(
        synth_line(SynthFormat::Common, c, &q, false),
        "1.2.3.4 - - [01/Jan/2024:09:00:59 +0900] \"GET /a?b=1 HTTP/1.1\" 200 512"
    );
    assert_eq!(
        synth_line(SynthFormat::Combined, c, &q, false),
        "1.2.3.4 - - [01/Jan/2024:09:00:59 +0900] \"GET /a?b=1 HTTP/1.1\" 200 512 \"-\" \"curl/8.6.0\""
    );
    assert_eq!(
        synth_line(SynthFormat::CustomPipe, c, &q, false),
        "2024-01-01T09:00:59|1.2.3.4|GET|/a?b=1|200|512|curl/8.6.0|rt=7"
    );
}

#[test]
fn w3c_lines_split_the_query_and_change_fields_halfway() {
    assert_eq!(local_offset_secs(SynthFormat::W3c), 0);
    let c = civil(1_704_067_259);
    let q = request("/a?b=1", None, "Mozilla/5.0 (X)");
    assert_eq!(
        synth_line(SynthFormat::W3c, c, &q, true),
        "2024-01-01 00:00:59 10.0.0.1 GET /a b=1 443 - 1.2.3.4 Mozilla/5.0+(X) - 200 0 0 7"
    );
    assert_eq!(synth_line(SynthFormat::W3c, c, &q, false), "2024-01-01 00:00:59 1.2.3.4 GET /a b=1 200 - 7");
    let plain = request("/health", Some(1), "-");
    assert_eq!(synth_line(SynthFormat::W3c, c, &plain, false), "2024-01-01 00:00:59 1.2.3.4 GET /health - 200 1 7");
}

fn all_lines(g: &mut weblog::synth::SynthGen) -> Vec<String> {
    let mut out = g.header_lines();
    loop {
        let step = g.next_lines();
        if step.is_empty() {
            break;
        }
        out.extend(step);
    }
    out
}

#[test]
fn w3c_logs_have_four_directives_and_switch_fields_halfway() {
    let mut g = weblog::synth::SynthGen::new(SynthFormat::W3c, 10, 7, 0, 0, 5, 5);
    let lines = all_lines(&mut g);
    assert_eq!(lines.len(), 10 + 4 + 1);
    assert!(lines[0].starts_with("#Software:"));
    assert!(lines[3].starts_with("#Fields: date time s-ip"));
    assert_eq!(lines[4 + 5], "#Fields: date time c-ip cs-method cs-uri-stem cs-uri-query sc-status sc-bytes time-taken");
    assert!(lines[4].starts_with("2024-01-01 "));
    assert!(g.next_lines().is_empty());
}

#[test]
fn generation_is_determined_by_the_seed() {
    let a = all_lines(&mut weblog::synth::SynthGen::new(SynthFormat::Combined, 50, 42, 100_000, 100_000, 10, 10));
    let b = all_lines(&mut weblog::synth::SynthGen::new(SynthFormat::Combined, 50, 42, 100_000, 100_000, 10, 10));
    let c = all_lines(&mut weblog::synth::SynthGen::new(SynthFormat::Combined, 50, 43, 100_000, 100_000, 10, 10));
    assert_eq!(a, b);
    assert_ne!(a, c);
    assert_eq!(a.len(), 50);
}

#[test]
fn rates_of_a_million_make_every_line_blank_or_corrupt() {
    let blank = all_lines(&mut weblog::synth::SynthGen::new(SynthFormat::Common, 20, 1, 1_000_000, 0, 3, 3));
    assert!(blank.iter().all(|l| l.is_empty()));
    let corrupt = all_lines(&mut weblog::synth::SynthGen::new(SynthFormat::Common, 20, 1, 0, 1_000_000, 3, 3));
    assert!(corrupt.iter().all(|l| l.starts_with("corrupt line ") && l.contains(" <<>> ")));
    let clean = all_lines(&mut weblog::synth::SynthGen::new(SynthFormat::Common, 20, 1, 0, 0, 3, 3));
    assert!(clean.iter().all(|l| l.contains(" +0900] \"") && l.contains(" HTTP/1.1\" ")));
}
