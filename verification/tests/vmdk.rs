use cloud_hypervisor::vmdk::{UnsupportedFeature, Vhd, Vhdx, Vmdk};

const SCRATCH_TOKEN: &str = "/@fuzz-scratch@";

fn descriptor(name: &str) -> String {
    format!("# Disk DescriptorFile\nversion=1\ncreateType=\"monolithicFlat\"\nRW 2048 FLAT \"{name}\" 0\n")
}

fn scratch() -> &'static str {
    "/tmp/disk-engine-4711/vmdk"
}

#[test]
fn traversing_extent_names_are_rejected() {
    let dir = scratch();
    for name in [
        "../../../../tmp/victim".to_string(),
        "..".to_string(),
        "./image-flat.vmdk".to_string(),
        "sub/../../tmp/victim".to_string(),
        "/tmp/victim".to_string(),
        "/etc/passwd".to_string(),
        // Absolute, and inside the scratch directory only until the
        // components after it are followed.
        format!("{dir}/../../tmp/victim"),
        // The scratch directory itself is not an extent.
        dir.to_string(),
        // A directory whose name merely starts with the scratch path.
        format!("{dir}-evil/image-flat.vmdk"),
    ] {
        assert!(
            Vmdk::names_escaping_extent(&descriptor(&name), dir),
            "{name} must be rejected"
        );
    }
}

#[test]
fn absolute_names_inside_the_scratch_directory_are_accepted() {
    let dir = scratch();
    for name in [
        format!("{dir}/image-flat.vmdk"),
        format!("{dir}/extents/s001.vmdk"),
    ] {
        assert!(
            !Vmdk::names_escaping_extent(&descriptor(&name), dir),
            "{name} must be accepted"
        );
    }
}

#[test]
fn the_scratch_token_expands_to_an_accepted_absolute_name() {
    let dir = scratch();
    let raw = descriptor(&format!("{SCRATCH_TOKEN}/image-flat.vmdk"));
    assert!(
        Vmdk::names_escaping_extent(&raw, dir),
        "the unexpanded placeholder is not a valid name"
    );

    let expanded = Vmdk::expand_scratch_token(&raw, dir).expect("the token must expand");
    assert!(expanded.contains(dir));
    assert!(!Vmdk::names_escaping_extent(&expanded, dir));
    assert!(Vmdk::expand_scratch_token("no token here", dir).is_none());
}

#[test]
fn the_walk_choice_is_a_function_of_the_input() {
    let a = descriptor("image-flat.vmdk");
    assert_eq!(
        Vmdk::force_walk(a.as_bytes()),
        Vmdk::force_walk(a.as_bytes())
    );

    let mixed = (0..64u8)
        .map(|i| Vmdk::force_walk(format!("{a}{i}").as_bytes()))
        .filter(|walk| *walk)
        .count();
    assert!(
        (8..56).contains(&mixed),
        "{mixed} of 64 inputs took the walk, expected a rough split"
    );

    // An absolute name has to reach openat2, which is the only arm that
    // can cover the unconfined resolve.
    let absolute = descriptor(&format!("{SCRATCH_TOKEN}/image-flat.vmdk"));
    assert!(!Vmdk::force_walk(absolute.as_bytes()));
}

#[test]
fn magic_ok_tracks_the_descriptor_header() {
    assert!(Vmdk::magic_ok(descriptor("image-flat.vmdk").as_bytes()));
    // The parser trims trailing whitespace off the header line.
    assert!(Vmdk::magic_ok(b"# Disk DescriptorFile \nversion=1\n"));
    assert!(!Vmdk::magic_ok(b"# Disk Descriptor\n"));
    assert!(!Vmdk::magic_ok(b"version=1\n# Disk DescriptorFile\n"));
    assert!(!Vmdk::magic_ok(b""));
    assert!(!Vmdk::magic_ok(&[0xff, 0xfe, 0xfd]));
}

#[test]
fn plain_extent_names_are_accepted() {
    for name in ["image-flat.vmdk", "two-f001.vmdk"] {
        assert!(
            !Vmdk::names_escaping_extent(&descriptor(name), scratch()),
            "{name} must be accepted"
        );
    }
    for name in Vmdk::extents() {
        assert!(!Vmdk::names_escaping_extent(&descriptor(name), scratch()));
    }
}

#[test]
fn headers_may_end_in_any_white_space() {
    assert!(Vmdk::magic_ok("# Disk DescriptorFile\u{3000}\r\nversion=1".as_bytes()));
    assert!(Vmdk::magic_ok(b"# Disk DescriptorFile"));
    assert!(!Vmdk::magic_ok(b" # Disk DescriptorFile\n"));
    assert!(!Vmdk::magic_ok(b"# Disk DescriptorFile\n\xff"));
}

#[test]
fn paths_are_compared_by_components() {
    let dir = "/scratch";
    let line = |name: &str| format!("RW 1 FLAT {name}\n");
    assert!(!Vmdk::names_escaping_extent(&line("/scratch//./a"), dir));
    assert!(!Vmdk::names_escaping_extent(&line("/scratch/./a/"), "/scratch/"));
    assert!(!Vmdk::names_escaping_extent(&line("a/./b//c/"), dir));
    assert!(Vmdk::names_escaping_extent(&line("."), dir));
    assert!(Vmdk::names_escaping_extent(&line("\"\""), dir));
    assert!(Vmdk::names_escaping_extent(&line("/scratch/."), dir));
    assert!(Vmdk::names_escaping_extent(&line("/a"), ""));
    assert!(Vmdk::names_escaping_extent(&line("/a"), "a"));
    assert!(!Vmdk::names_escaping_extent(&line("/a"), "/"));
    // Only lines of four or five words name an extent.
    assert!(!Vmdk::names_escaping_extent("RW 1 ..\n", dir));
    assert!(!Vmdk::names_escaping_extent("RW 1 FLAT .. 0 extra\n", dir));
    assert!(Vmdk::names_escaping_extent("x\nRW\u{2003}1 FLAT\t\"\"..\"\" 0", dir));
}

#[test]
fn descriptors_are_prepared() {
    let dir = scratch();
    let token = descriptor(&format!("{SCRATCH_TOKEN}/image-flat.vmdk"));
    let prepared = Vmdk::prepare_descriptor(token.as_bytes(), dir);
    assert_eq!(prepared.expanded, Some(descriptor(&format!("{dir}/image-flat.vmdk"))));
    assert_eq!(prepared.result, Ok(()));
    let plain = Vmdk::prepare_text(&descriptor("two-f001.vmdk"), dir);
    assert_eq!((plain.expanded, plain.result), (None, Ok(())));
    let escaping = Vmdk::prepare_text(&descriptor("../../../../tmp/victim"), dir);
    assert_eq!((escaping.expanded, escaping.result), (None, Err(UnsupportedFeature)));
    // The token is expanded before the guard looks, and bytes that are no text
    // do not hide a name from it.
    let outside = descriptor(&format!("{SCRATCH_TOKEN}/../victim"));
    let mut bytes = vec![0xFF, b'\n'];
    bytes.extend_from_slice(outside.as_bytes());
    let prepared = Vmdk::prepare_descriptor(&bytes, dir);
    assert_eq!(prepared.result, Err(UnsupportedFeature));
    assert!(prepared.expanded.unwrap().starts_with("\u{FFFD}\n# Disk"));
    let twice = format!("{SCRATCH_TOKEN}{SCRATCH_TOKEN}x");
    assert_eq!(Vmdk::expand_scratch_token(&twice, "/d").unwrap(), "/d/dx");
}

#[test]
fn the_walk_follows_the_low_bit_of_the_hash() {
    assert!(Vmdk::choose_walk(b"anything", 1));
    assert!(!Vmdk::choose_walk(b"anything", 2));
    assert!(!Vmdk::choose_walk(SCRATCH_TOKEN.as_bytes(), 1));
    let walks = (0..64u8).filter(|i| Vmdk::force_walk(&[*i])).count();
    assert!(walks > 0 && walks < 64);
}

#[test]
fn formats_have_their_limits() {
    assert_eq!((Vhd::NAME, Vhdx::NAME, Vmdk::NAME), ("vhd", "vhdx", "vmdk"));
    assert_eq!(Vhd::CAPACITY_FILE_TAIL, 512);
    assert!(Vhd::NO_SHORT_READS && Vhdx::NO_SHORT_READS && Vmdk::NEEDS_PATH);
    assert_eq!(Vhdx::MAX_IMAGE_LEN, 16 << 20);
    assert_eq!(Vmdk::MAX_IMAGE_LEN, 64 << 10);
    assert_eq!(Vmdk::EXTENT_LEN, 1 << 20);
}

// The guard holds where a descriptor is prepared for its disk to be opened.
#[test]
fn open_refuses_a_traversing_descriptor() {
    let text = descriptor("../../../../tmp/victim");
    let err = Vmdk::prepare_descriptor(text.as_bytes(), scratch())
        .result
        .err()
        .expect("a descriptor escaping the scratch directory must be refused");
    assert_eq!(err, UnsupportedFeature);
    assert!(
        !std::path::Path::new("/tmp/victim").exists(),
        "the harness must not have created /tmp/victim"
    );
}
