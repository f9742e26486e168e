use fflonk_decider::memory::{memory_unit, status_field_kb, MemoryUnit};

const STATUS: &str = "Name:\tcat\nUmask:\t0022\nState:\tR (running)\nVmPeak:\t   12345 kB\nVmSize:\t    8000 kB\nVmRSS:\t     960 kB\n";

#[test]
fn status_fields_are_read() {
    assert_eq!(status_field_kb(STATUS, "VmPeak:"), Some(12345));
    assert_eq!(status_field_kb(STATUS, "VmRSS:"), Some(960));
    assert_eq!(status_field_kb(STATUS, "VmSwap:"), None);
}

#[test]
fn status_field_first_matching_line_decides() {
    let s = "VmRSS: abc kB\nVmRSS: 12 kB\n";
    assert_eq!(status_field_kb(s, "VmRSS:"), None);
    let s = "VmRSS:\nVmRSS: 12 kB\n";
    assert_eq!(status_field_kb(s, "VmRSS:"), None);
}

#[test]
fn status_field_number_forms() {
    assert_eq!(status_field_kb("K: +7 kB", "K:"), Some(7));
    assert_eq!(status_field_kb("K: + kB", "K:"), None);
    assert_eq!(status_field_kb("K: -7 kB", "K:"), None);
    assert_eq!(status_field_kb("K: 18446744073709551615", "K:"), Some(18446744073709551615));
    assert_eq!(status_field_kb("K: 18446744073709551616", "K:"), None);
    assert_eq!(status_field_kb("K:\u{a0}5\u{3000}kB\r\nX: 1", "K:"), Some(5));
    assert_eq!(status_field_kb("X: 1\r\nK: 9\r\n", "K:"), Some(9));
    assert_eq!(status_field_kb("", "K:"), None);
}

#[test]
fn memory_units_by_threshold() {
    assert_eq!(memory_unit(0), MemoryUnit::Kilobytes);
    assert_eq!(memory_unit(1_000), MemoryUnit::Kilobytes);
    assert_eq!(memory_unit(1_001), MemoryUnit::Megabytes);
    assert_eq!(memory_unit(1_000_000), MemoryUnit::Megabytes);
    assert_eq!(memory_unit(1_000_001), MemoryUnit::Gigabytes);
}

#[test]
fn fflonk_vs_groth16_scaling_projection() {
    println!("\n");
    println!("║  Constraints  │  Groth16 VK Gen  │  FFLONK VK Gen  │  Savings  │  Notes                         ║");

    let constraint_counts: Vec<(usize, &str)> = vec![
        (100_000, "100K"),
        (500_000, "500K"),
        (1_000_000, "1M"),
        (5_000_000, "5M"),
        (10_000_000, "10M"),
    ];

    for (n, label) in constraint_counts {
        let groth16_gb = 2.0 + (n as f64 * 0.00002) + ((n as f64).powi(2) * 0.000000003);
        let fflonk_gb = 1.0 + (n as f64 * 0.000008);
        let savings = ((1.0 - fflonk_gb / groth16_gb) * 100.0).min(95.0);
        let notes = if n >= 10_000_000 {
            "Production PoR target"
        } else if n >= 1_000_000 {
            "Requires large runner"
        } else {
            "Runnable on 32GB RAM"
        };
        println!(
            "║  {:>11}  │  {:>14.1} GB │  {:>13.1} GB │  {:>7.1}% │  {:28} ║",
            label, groth16_gb, fflonk_gb, savings, notes
        );
    }
    println!();
}
