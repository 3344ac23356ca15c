use wg10_terrain::npy_random::{Generator, Pcg64, SeedSequence};

// Ground truth captured from numpy `np.random.default_rng` / SeedSequence.
#[test]
fn seed_sequence_pool_and_state_match_numpy() {
    let ss = SeedSequence::new(500);
    assert_eq!(ss.pool(), [651613600, 3186613311, 1483391812, 1252258596]);
    assert_eq!(
        ss.generate_state_u64(4),
        vec![
            8103700348115910429,
            17905415729801093085,
            18419810088540447113,
            4037860421216475574
        ]
    );
    let ss7 = SeedSequence::new(507);
    assert_eq!(ss7.pool(), [1204273392, 1399742488, 4199502328, 3537793689]);
    let ss9 = SeedSequence::new(900);
    assert_eq!(ss9.pool(), [344492167, 1746722148, 3549973126, 2841617513]);
}

#[test]
fn pcg64_raw_stream_matches_numpy() {
    let mut p = Pcg64::from_seed_int(500);
    let expect = [
        10454565715492221534u64,
        15753113395430921017,
        11904739087875483041,
        7584504502438486222,
        8633665507284389612,
        15151440238235170786,
    ];
    for (k, &e) in expect.iter().enumerate() {
        let got = p.next_u64();
        assert_eq!(got, e, "raw u64 #{k}: got {got} want {e}");
    }
}

#[test]
fn generator_raw_draws_equal_pcg64_stream() {
    let mut g = Generator::from_seed_int(500);
    let mut p = Pcg64::from_seed_int(500);
    for _ in 0..16 {
        assert_eq!(g.next_u64(), p.next_u64());
    }
}

#[test]
fn generate_state_u64_packs_u32_words_low_first() {
    let ss = SeedSequence::new(500);
    let words = ss.generate_state(8);
    let packed = ss.generate_state_u64(4);
    for i in 0..4 {
        assert_eq!(packed[i], (words[2 * i] as u64) | ((words[2 * i + 1] as u64) << 32));
    }
}

#[test]
fn generate_state_is_prefix_stable() {
    let ss = SeedSequence::new(12345);
    let long = ss.generate_state(11);
    let short = ss.generate_state(5);
    assert_eq!(&long[..5], &short[..]);
    assert!(ss.generate_state(0).is_empty());
}

#[test]
fn zero_entropy_is_a_single_zero_word() {
    // SeedSequence(0) mixes the single word [0].
    assert_eq!(SeedSequence::new(0).pool(), [4265667335, 1328953910, 1320288413, 3365567143]);
    assert_eq!(SeedSequence::new(1).pool(), [2704793989, 232979121, 2500767352, 1423772289]);
}

#[test]
fn four_word_entropy_is_mixed_exactly() {
    let wide = SeedSequence::new((1u128 << 127) + 12345);
    assert_eq!(wide.pool(), [1947756932, 3411356111, 2980046720, 1057372527]);
}
