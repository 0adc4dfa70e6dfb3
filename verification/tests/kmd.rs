use luwen::kmd::{driver_version_parse, DriverVersion};

#[test]
fn test_get_version() {
    assert_eq!(
        DriverVersion::default(),
        DriverVersion {
            major: 0,
            minor: 0,
            patch: 0,
            quirk: None
        },
        "default driver version did not match expected values"
    );
    assert_eq!(
        driver_version_parse("1"),
        DriverVersion {
            major: 1,
            ..Default::default()
        }
    );
    assert_eq!(
        driver_version_parse("1.33"),
        DriverVersion {
            major: 1,
            minor: 33,
            ..Default::default()
        }
    );
    assert_eq!(
        driver_version_parse("1.33.5"),
        DriverVersion {
            major: 1,
            minor: 33,
            patch: 5,
            ..Default::default()
        }
    );
    assert_eq!(
        driver_version_parse("1.33.5-quirk"),
        DriverVersion {
            major: 1,
            minor: 33,
            patch: 5,
            quirk: Some("quirk".to_string())
        }
    );
    assert_eq!(
        driver_version_parse("1.33-quirk"),
        DriverVersion {
            major: 1,
            minor: 33,
            quirk: Some("quirk".to_string()),
            ..Default::default()
        }
    );
    assert_eq!(
        driver_version_parse("1-quirk"),
        DriverVersion {
            major: 1,
            quirk: Some("quirk".to_string()),
            ..Default::default()
        }
    );
    assert_eq!(driver_version_parse("bad"), DriverVersion::default());
}

#[test]
fn driver_version_is_trimmed_before_parsing() {
    assert_eq!(
        driver_version_parse("  2.1.0\n"),
        DriverVersion {
            major: 2,
            minor: 1,
            patch: 0,
            quirk: None
        }
    );
}

use luwen::kmd::{
    allocated_window, dma_request_size, make_dma_request, next_dma_size, noc_tlb_config,
    page_align, split_bus_dev_fn, Arch, DmaConfig, DmaPack, DmaRequestError, MappingId,
};
use luwen::tlb::{Tlb, TlbOrder};

#[test]
fn device_ids_name_the_generations() {
    assert_eq!(Arch::from_device_id(0xfaca), Ok(Arch::Grayskull));
    assert_eq!(Arch::from_device_id(0x401e), Ok(Arch::Wormhole));
    assert_eq!(Arch::from_device_id(0xb140), Ok(Arch::Blackhole));
    assert_eq!(Arch::from_device_id(0x1234), Err(0x1234));
    assert!(Arch::Blackhole.is_blackhole());
    assert!(!Arch::Wormhole.is_blackhole());
    assert!(Arch::Wormhole.is_wormhole());
}

#[test]
fn mapping_ids_round_trip() {
    for v in 0..=6u32 {
        assert_eq!(MappingId::from_u32(v).as_u32(), v);
    }
    assert_eq!(MappingId::from_u32(99).as_u32(), 7);
}

#[test]
fn dma_pack_fields_read_back() {
    let p = DmaPack::pack(0x1234, true, false, true, true);
    assert_eq!(p.0, 0x1234 + 0x1000_0000 + 0x4000_0000 + 0x8000_0000);
    assert_eq!(p.size_bytes(), 0x1234);
    assert!(p.write());
    assert!(p.trigger());
    let q = DmaPack::pack(16, false, true, false, false);
    assert_eq!(q.0, 16 + 0x2000_0000);
    assert!(!q.write());
    assert!(!q.trigger());
}

fn config(support_64_bit_dma: bool) -> DmaConfig {
    DmaConfig {
        csm_pcie_ctrl_dma_request_offset: 0,
        arc_misc_cntl_addr: 0,
        dma_host_phys_addr_high: 0,
        support_64_bit_dma,
        use_msi_for_dma: false,
        read_threshold: 0,
        write_threshold: 0,
    }
}

#[test]
fn dma_requests_are_built_or_refused() {
    let r = make_dma_request(&config(false), 0x100, 0x1_2345_6789, 0x10, 64, true);
    assert!(matches!(r, Err(DmaRequestError::No64bitDma)));
    let r = make_dma_request(&config(true), 0x100, 0x1_2345_6789, 0x10, 0x1000_0000, true);
    assert!(matches!(r, Err(DmaRequestError::DmaTooLarge)));
    let r = make_dma_request(&config(true), 0x100, 0x1_2345_6789, 0x2_0000_0010, 64, false).unwrap();
    assert_eq!(r.chip_addr, 0x100);
    assert_eq!(r.host_phys_addr_lo, 0x2345_6789);
    assert_eq!(r.completion_flag_phys_addr, 0x10);
    assert_eq!(r.repeat, 0x8000_0001);
    assert_eq!(r.dma_pack.0, 64 + 0x4000_0000 + 0x8000_0000);
    let r = make_dma_request(&config(false), 0, 0x1000, 0, 8, true).unwrap();
    assert_eq!(r.repeat, 1);
}

#[test]
fn bus_dev_fn_is_split() {
    assert_eq!(split_bus_dev_fn(0x0a1b), (0x0a, 3, 3));
}

#[test]
fn dma_buffer_sizes() {
    assert_eq!(dma_request_size(1 << 24, 22, 4096), 1 << 22);
    assert_eq!(dma_request_size(100, 22, 4096), 4096);
    assert_eq!(page_align(5000, 4096), 8192);
    assert_eq!(page_align(4096, 4096), 4096);
    assert_eq!(next_dma_size(1 << 20, 4096), Some(1 << 19));
    assert_eq!(next_dma_size(6000, 4096), Some(4096));
    assert_eq!(next_dma_size(4096, 4096), None);
}

#[test]
fn allocated_windows_split_the_address() {
    assert_eq!(allocated_window(0x12_3456, 0x10_0000), (0x10_0000, 0x2_3456, 0x10_0000 - 0x2_3456));
    let tlb = Tlb {
        local_offset: 0x12_3456,
        x_end: 3,
        y_end: 4,
        mcast: true,
        ordering: TlbOrder::STRICT,
        ..Default::default()
    };
    let c = noc_tlb_config(&tlb, 0x10_0000);
    assert_eq!(c.addr, 0x10_0000);
    assert_eq!((c.x_end, c.y_end, c.mcast, c.ordering), (3, 4, 1, 1));
}

#[test]
fn driver_versions_are_ordered_by_number() {
    let v = |s: &str| driver_version_parse(s);
    assert_eq!(v("1.33.5").version_cmp(&v("1.34.0")), Some(std::cmp::Ordering::Less));
    assert_eq!(v("2.0.0").version_cmp(&v("1.99.99")), Some(std::cmp::Ordering::Greater));
    assert_eq!(v("1.33.5-a").version_cmp(&v("1.33.5-a")), Some(std::cmp::Ordering::Equal));
    assert_eq!(v("1.33.5-a").version_cmp(&v("1.33.5-b")), None);
    assert_eq!(v("1.33.5").version_cmp(&v("1.33.5-b")), None);
}

#[test]
fn device_nodes_are_numbered_and_sorted() {
    let names: Vec<String> = ["3", "0", "abc", "+2", "10", ""].iter().map(|s| s.to_string()).collect();
    assert_eq!(luwen::kmd::device_ids(&names), vec![0, 2, 3, 10]);
}

#[test]
fn trimming_drops_unicode_white_space_at_both_ends() {
    assert_eq!(luwen::kmd::trim_str("\u{3000} 1.2 \u{85}\n"), "1.2");
    assert_eq!(luwen::kmd::trim_str("\t\r\n"), "");
    assert_eq!(luwen::kmd::trim_str("a \u{2003} b"), "a \u{2003} b");
    assert_eq!(luwen::kmd::trim_str(" x\u{200b}"), "x\u{200b}");
    for s in ["", " ", "1.33.5-quirk\n", "\u{a0}\u{1680}v\u{2028}", "\u{feff}x "] {
        assert_eq!(luwen::kmd::trim_str(s), s.trim());
    }
}

#[test]
fn driver_version_text_is_trimmed_before_parsing() {
    let v = luwen::kmd::driver_version_parse(" 1.33\n");
    assert_eq!((v.major, v.minor, v.patch), (1, 33, 0));
    assert!(v.quirk.is_none());
}
