use tracer::state::{Emitter, Spectrum, TraceState};

#[test]
fn emitters_count_the_attenuators_before_them() {
    let mut spectrum = Spectrum::new();
    spectrum.apply_emittance(10);
    spectrum.apply_attenuation(20);
    spectrum.apply_attenuation(21);
    spectrum.apply_emittance(11);
    spectrum.apply_attenuation(22);
    spectrum.apply_emittance(12);
    spectrum.apply_emittance(13);
    assert_eq!(
        *spectrum.emitters_met(),
        vec![
            Emitter { n_attenuators: 0, emittance: 10 },
            Emitter { n_attenuators: 2, emittance: 11 },
            Emitter { n_attenuators: 3, emittance: 12 },
            Emitter { n_attenuators: 3, emittance: 13 },
        ]
    );
    assert_eq!(spectrum.attenuators_before(0), Vec::<usize>::new());
    assert_eq!(spectrum.attenuators_before(2), vec![20, 21]);
    assert_eq!(spectrum.attenuators_before(3), vec![20, 21, 22]);
}

#[test]
fn new_spectrum_has_met_nothing() {
    let spectrum = Spectrum::new();
    assert!(spectrum.emitters_met().is_empty());
    assert_eq!(spectrum.attenuators_before(0), Vec::<usize>::new());
}

#[test]
fn collapse_hands_the_spectrum_out_once() {
    let mut spectrum = Spectrum::new();
    spectrum.apply_attenuation(5);
    spectrum.apply_emittance(7);
    let mut state = TraceState::Spectrum(spectrum);
    let met = state.collapse().expect("the spectrum was expected");
    assert_eq!(*met.emitters_met(), vec![Emitter { n_attenuators: 1, emittance: 7 }]);
    assert_eq!(met.attenuators_before(1), vec![5]);
    assert!(matches!(state, TraceState::SingleLine));
    assert!(state.collapse().is_none());
    assert!(matches!(state, TraceState::SingleLine));
}
