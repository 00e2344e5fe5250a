use silicon::fixed::SCALE;
use silicon::transcoder::{
    char_to_binary, char_to_spike_train, string_to_spike_train, PopulationEncoder, MAX_DRAW,
};

#[test]
fn binary_is_least_significant_bit_first() {
    assert_eq!(char_to_binary('A'), [1, 0, 0, 0, 0, 0, 1, 0]);
    assert_eq!(char_to_binary('\0'), [0; 8]);
    assert_eq!(char_to_binary('\u{ff}'), [1; 8]);
    assert_eq!(char_to_binary('a'), [1, 0, 0, 0, 0, 1, 1, 0]);
}

#[test]
fn binary_takes_the_low_byte_of_the_code_point() {
    assert_eq!(char_to_binary('\u{141}'), char_to_binary('A'));
    assert_eq!(char_to_binary('\u{10ffff}'), [1; 8]);
}

#[test]
fn char_spikes_follow_the_bits_most_significant_first() {
    assert_eq!(char_to_spike_train('A', SCALE), vec![125_000, 875_000]);
    assert_eq!(char_to_spike_train('a', SCALE), vec![125_000, 250_000, 875_000]);
    assert_eq!(char_to_spike_train('\0', SCALE), Vec::<i64>::new());
    assert_eq!(
        char_to_spike_train('\u{ff}', 500_000),
        vec![0, 62_500, 125_000, 187_500, 250_000, 312_500, 375_000, 437_500]
    );
}

#[test]
fn string_spikes_give_each_character_its_share() {
    assert_eq!(string_to_spike_train("", SCALE), Vec::<i64>::new());
    assert_eq!(string_to_spike_train("A", SCALE), vec![125_000, 875_000]);
    assert_eq!(
        string_to_spike_train("AA", SCALE),
        vec![62_500, 437_500, 1_062_500, 1_437_500]
    );
    assert_eq!(
        string_to_spike_train("Aa", 2 * SCALE),
        vec![125_000, 875_000, 1_125_000, 1_250_000, 1_875_000]
    );
}

#[test]
fn string_share_goes_by_the_length_in_bytes() {
    assert_eq!(string_to_spike_train("\u{141}", SCALE), vec![62_500, 437_500]);
}

#[test]
fn population_keeps_the_neurons_with_a_draw_below_the_rate() {
    let neurons = vec![10, 11, 12, 13, 14];
    let draws = vec![0, 499_999, 500_000, 999_999, 250_000];
    let encoder = PopulationEncoder::from_draws(&neurons, 500_000, &draws);
    assert_eq!(encoder.neurons, vec![10, 11, 14]);
}

#[test]
fn population_leaves_out_a_neuron_without_a_draw() {
    let neurons = vec![10, 11, 12];
    let encoder = PopulationEncoder::from_draws(&neurons, 500_000, &vec![0]);
    assert_eq!(encoder.neurons, vec![10]);
}

#[test]
fn sample_rate_of_one_takes_all_and_of_zero_none() {
    assert_eq!(MAX_DRAW, 999_999);
    let neurons: Vec<usize> = (0..50).collect();
    assert_eq!(PopulationEncoder::from_sample_rate(&neurons, SCALE).neurons, neurons);
    assert!(PopulationEncoder::from_sample_rate(&neurons, 0).neurons.is_empty());
}

#[test]
fn sample_is_drawn_from_the_neurons_in_order() {
    let neurons: Vec<usize> = (100..400).collect();
    let sample = PopulationEncoder::from_sample_rate(&neurons, 500_000).neurons;
    assert!(sample.iter().all(|n| neurons.contains(n)));
    assert!(sample.windows(2).all(|w| w[0] < w[1]));
    assert!(!sample.is_empty() && sample.len() < neurons.len());
}
