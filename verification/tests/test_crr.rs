use cyclegraph_core::{estimate_crr, total_mass};

#[test]
fn crr_known_qualities_and_rounding() {
    // 3 x 3 x 3 combinations (the bike type does not shift the baseline,
    // but the API stays stable).
    let bike_types = ["Road", "Gravel", "MTB"];
    let widths_um = [23_000i64, 28_000, 40_000];
    let qualities = ["Trening", "Vanlig", "Ritt"];

    for bt in bike_types {
        for w in widths_um {
            for q in qualities {
                let crr = estimate_crr(bt, w, q);
                // Five decimals of the coefficient = multiples of 10 ppm.
                assert_eq!(
                    crr % 10,
                    0,
                    "Crr not rounded to five decimals: bt={bt}, w={w}, q={q}, crr={crr}"
                );
                // The plausible band, in ppm.
                assert!(
                    crr > 500 && crr < 20_000,
                    "Crr outside the expected band: {crr} (bt={bt}, w={w}, q={q})"
                );
            }
        }
    }
}

#[test]
fn crr_quality_ordering_for_same_width() {
    // At one width: Trening (1.2) > Vanlig (1.0) > Ritt (0.85).
    let w = 28_000;
    let trening = estimate_crr("Road", w, "Trening");
    let vanlig = estimate_crr("Road", w, "Vanlig");
    let ritt = estimate_crr("Road", w, "Ritt");

    assert!(trening > vanlig, "Trening must give a larger Crr than Vanlig");
    assert!(vanlig > ritt, "Vanlig must give a larger Crr than Ritt");
}

#[test]
fn crr_extreme_widths_and_unknown_quality_fallback() {
    // Extremely narrow/wide still give positive values in band.
    let crr_narrow = estimate_crr("Road", 18_000, "Vanlig");
    assert!(crr_narrow > 0);

    let crr_wide = estimate_crr("Gravel", 55_000, "Vanlig");
    assert!(crr_wide > 0);

    // An unknown quality falls back to the neutral 1.0 multiplier.
    let crr_unknown = estimate_crr("Road", 28_000, "UkjentEtikett");
    let crr_vanlig = estimate_crr("Road", 28_000, "Vanlig");
    assert_eq!(
        crr_unknown, crr_vanlig,
        "an unknown quality must fall back to 1.0 (Vanlig)"
    );
}

#[test]
fn crr_width_guard_falls_back_to_25mm_when_too_small() {
    // Widths at or below 10 mm fall back to the 28 mm reference width.
    let crr_tiny = estimate_crr("Road", 8_000, "Vanlig");
    let crr_fallback = estimate_crr("Road", 28_000, "Vanlig");
    assert_eq!(
        crr_tiny, crr_fallback,
        "a width <= 10 mm must fall back to the reference-width value"
    );
}

#[test]
fn crr_exact_values_at_reference_width() {
    // At the 28 mm reference the width factor is exactly 1, so the
    // quality multipliers land on exact coefficients.
    assert_eq!(estimate_crr("Road", 28_000, "Vanlig"), 5_000); // 0.00500
    assert_eq!(estimate_crr("Road", 28_000, "Trening"), 6_000); // 0.00600
    assert_eq!(estimate_crr("Road", 28_000, "Ritt"), 4_250); // 0.00425
    // Narrower tires roll harder, wider ones easier.
    assert_eq!(estimate_crr("Road", 23_000, "Vanlig"), 5_300);
    assert_eq!(estimate_crr("Gravel", 40_000, "Vanlig"), 4_490);
}

#[test]
fn crr_quality_labels_fold_ascii_case() {
    assert_eq!(
        estimate_crr("Road", 28_000, "TRENING"),
        estimate_crr("Road", 28_000, "trening")
    );
    assert_eq!(
        estimate_crr("ROAD", 28_000, "Racing"),
        estimate_crr("road", 28_000, "racing")
    );
}

#[test]
fn total_mass_is_sum_and_rounded_to_5dp() {
    // 82.34567 kg + 8.12345 kg, both exact in mg.
    let rider = 82_345_670i64;
    let bike = 8_123_450i64;
    let expected = rider + bike;
    let tot = total_mass(rider, bike);
    assert_eq!(tot, expected, "wrong total mass: got {tot}, expected {expected}");
}

#[test]
fn total_mass_is_floored_at_forty_kilograms() {
    assert_eq!(total_mass(10_000_000, 5_000_000), 40_000_000);
    assert_eq!(total_mass(-1_000_000, 0), 40_000_000);
}

#[test]
fn crr_and_mass_are_ready_for_pw() {
    // Sanity: both are positive so the power model can use them.
    let crr = estimate_crr("Road", 28_000, "Ritt");
    let m = total_mass(80_000_000, 8_500_000);
    assert!(crr > 0, "Crr must be > 0");
    assert!(m > 0, "total mass must be > 0");
}
